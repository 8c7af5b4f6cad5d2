//! Replacing every occurrence of one text in another, left to right and
//! without overlap.

use vstd::prelude::*;
use crate::text::{chars_of, string_of};

verus! {

/// Whether `pattern` stands in `text` at position `i`.
pub open spec fn occurs_at(text: Seq<char>, pattern: Seq<char>, i: int) -> bool {
    &&& 0 <= i
    &&& i + pattern.len() <= text.len()
    &&& text.subrange(i, i + pattern.len()) == pattern
}

/// What is made of `text` from position `i` on. Where `old` stands, `new` is
/// put and the search goes on behind `old`; any other character is kept. An
/// empty `old` stands before every character and at the end.
pub open spec fn spec_replace_from(
    text: Seq<char>,
    old: Seq<char>,
    new: Seq<char>,
    i: int,
) -> Seq<char>
    decreases text.len() - i,
{
    if i < 0 || i > text.len() {
        Seq::empty()
    } else if old.len() == 0 {
        if i == text.len() {
            new
        } else {
            new + seq![text[i]] + spec_replace_from(text, old, new, i + 1)
        }
    } else if occurs_at(text, old, i) {
        new + spec_replace_from(text, old, new, i + old.len())
    } else if i == text.len() {
        Seq::empty()
    } else {
        seq![text[i]] + spec_replace_from(text, old, new, i + 1)
    }
}

/// `text` with `new` in the place of every occurrence of `old`.
pub open spec fn spec_replace(text: Seq<char>, old: Seq<char>, new: Seq<char>) -> Seq<char> {
    spec_replace_from(text, old, new, 0)
}

/// A text in which `old` stands nowhere is left as it is.
pub proof fn lemma_replace_without_occurrence(
    text: Seq<char>,
    old: Seq<char>,
    new: Seq<char>,
    i: int,
)
    requires
        old.len() > 0,
        0 <= i <= text.len(),
        forall|k: int| i <= k <= text.len() ==> !occurs_at(text, old, k),
    ensures
        spec_replace_from(text, old, new, i) == text.skip(i),
    decreases text.len() - i,
{
    if i < text.len() {
        lemma_replace_without_occurrence(text, old, new, i + 1);
        assert(seq![text[i]] + text.skip(i + 1) =~= text.skip(i));
    } else {
        assert(text.skip(i) =~= Seq::<char>::empty());
    }
}

fn stands_at(text: &Vec<char>, pattern: &Vec<char>, i: usize) -> (out: bool)
    requires
        i <= text.len(),
    ensures
        out == occurs_at(text@, pattern@, i as int),
{
    if pattern.len() > text.len() - i {
        return false;
    }
    let mut k: usize = 0;
    while k < pattern.len()
        invariant
            k <= pattern.len(),
            i + pattern.len() <= text.len(),
            forall|j: int| 0 <= j < k ==> text@[i + j] == #[trigger] pattern@[j],
        decreases pattern.len() - k,
    {
        if text[i + k] != pattern[k] {
            assert(text@.subrange(i as int, i + pattern.len())[k as int] != pattern@[k as int]);
            return false;
        }
        k += 1;
    }
    assert(text@.subrange(i as int, i + pattern.len()) =~= pattern@);
    true
}

fn push_all(out: &mut Vec<char>, more: &Vec<char>)
    ensures
        final(out)@ == old(out)@ + more@,
{
    let ghost before = out@;
    let mut k: usize = 0;
    while k < more.len()
        invariant
            k <= more.len(),
            out@ == before + more@.take(k as int),
        decreases more.len() - k,
    {
        out.push(more[k]);
        assert(more@.take(k + 1) =~= more@.take(k as int).push(more@[k as int]));
        k += 1;
    }
    assert(more@.take(k as int) =~= more@);
}

/// `text` with `new` in the place of every occurrence of `old`, found from
/// left to right, none overlapping another.
pub fn replace(text: &str, old: &str, new: &str) -> (out: String)
    ensures
        out@ == spec_replace(text@, old@, new@),
{
    let source = chars_of(text);
    let from = chars_of(old);
    let to = chars_of(new);
    let mut out: Vec<char> = Vec::new();
    let mut i: usize = 0;
    while i < source.len()
        invariant
            i <= source.len(),
            source@ == text@,
            from@ == old@,
            to@ == new@,
            out@ + spec_replace_from(text@, old@, new@, i as int) == spec_replace(
                text@,
                old@,
                new@,
            ),
        decreases source.len() - i,
    {
        let ghost before = out@;
        let ghost rest = spec_replace_from(text@, old@, new@, i as int);
        if from.len() == 0 {
            push_all(&mut out, &to);
            out.push(source[i]);
            assert(out@ + spec_replace_from(text@, old@, new@, i + 1) =~= before + rest);
            i += 1;
        } else if stands_at(&source, &from, i) {
            push_all(&mut out, &to);
            assert(out@ + spec_replace_from(text@, old@, new@, i + from.len()) =~= before + rest);
            i += from.len();
        } else {
            out.push(source[i]);
            assert(out@ + spec_replace_from(text@, old@, new@, i + 1) =~= before + rest);
            i += 1;
        }
    }
    let ghost before = out@;
    if from.len() == 0 {
        push_all(&mut out, &to);
    }
    assert(out@ =~= before + spec_replace_from(text@, old@, new@, i as int));
    string_of(&out)
}

} // verus!
