//! Jumble: each character of a set that occurs in a name is replaced,
//! wherever it occurs, by one other character drawn from the set.
//!
//! The characters of the set are taken in order, each once; a later one sees
//! what the earlier ones have made of the name.

use rand::rngs::ThreadRng;
use vstd::prelude::*;
use crate::chance::draw_below;
use crate::text::{chars_of, string_of};

verus! {

/// The test that a character is another one than `c`.
pub open spec fn other_than(c: char) -> spec_fn(char) -> bool {
    |x: char| x != c
}

/// The characters of `charset` other than `c`, in order.
pub open spec fn alternatives(charset: Seq<char>, c: char) -> Seq<char> {
    charset.filter(other_than(c))
}

/// `name` with `to` in every place of `from`.
pub open spec fn swapped(name: Seq<char>, from: char, to: char) -> Seq<char> {
    name.map_values(
        |x: char|
            if x == from {
                to
            } else {
                x
            },
    )
}

/// Whether the character at `i` occurs nowhere before `i` in `charset`.
pub open spec fn is_first(charset: Seq<char>, i: int) -> bool {
    forall|j: int| 0 <= j < i ==> #[trigger] charset[j] != charset[i]
}

/// Whether the character at `i` takes a turn: it occurs nowhere before, and
/// the set holds another character to put in its place.
pub open spec fn has_turn(charset: Seq<char>, i: int) -> bool {
    is_first(charset, i) && alternatives(charset, charset[i]).len() > 0
}

/// Whether `draws` holds, for each character of `charset`, a position among
/// its alternatives where it has any.
pub open spec fn draws_fit(charset: Seq<char>, draws: Seq<usize>) -> bool {
    &&& draws.len() == charset.len()
    &&& forall|i: int|
        0 <= i < charset.len() && alternatives(charset, charset[i]).len() > 0 ==> #[trigger] draws[i]
            < alternatives(charset, charset[i]).len()
}

/// `name` after the turn of the character at `i`.
pub open spec fn spec_turn(name: Seq<char>, charset: Seq<char>, i: int, draw: int) -> Seq<char> {
    if has_turn(charset, i) {
        swapped(name, charset[i], alternatives(charset, charset[i])[draw])
    } else {
        name
    }
}

/// `name` after the turns of the first `k` characters of `charset`.
pub open spec fn spec_jumble_upto(
    name: Seq<char>,
    charset: Seq<char>,
    draws: Seq<usize>,
    k: nat,
) -> Seq<char>
    decreases k,
{
    if k == 0 {
        name
    } else {
        spec_turn(
            spec_jumble_upto(name, charset, draws, (k - 1) as nat),
            charset,
            k - 1,
            draws[k - 1] as int,
        )
    }
}

/// The jumbled name.
pub open spec fn spec_jumble(name: Seq<char>, charset: Seq<char>, draws: Seq<usize>) -> Seq<char> {
    spec_jumble_upto(name, charset, draws, charset.len())
}

/// Whether every character of `after` outside `charset` stands where it
/// stood in `before`, and every other character of `after` is of `charset`
/// and stands where one of `charset` stood.
pub open spec fn stays_within(before: Seq<char>, after: Seq<char>, charset: Seq<char>) -> bool {
    &&& after.len() == before.len()
    &&& forall|p: int|
        0 <= p < before.len() ==> if charset.contains(before[p]) {
            charset.contains(#[trigger] after[p])
        } else {
            after[p] == before[p]
        }
}

/// An alternative of a character is a character of the set, and another one.
pub proof fn lemma_alternative(charset: Seq<char>, c: char, draw: int)
    requires
        0 <= draw < alternatives(charset, c).len(),
    ensures
        charset.contains(alternatives(charset, c)[draw]),
        alternatives(charset, c)[draw] != c,
{
    let others = other_than(c);
    let picked = charset.filter(others)[draw];
    assert(charset.filter(others).contains(picked));
    charset.lemma_filter_contains_rev(others, picked);
    charset.lemma_filter_pred(others, draw);
}

/// After its turn a character is gone from the name: every place where it
/// stood holds another character of the set.
pub proof fn lemma_turn_replaces(name: Seq<char>, charset: Seq<char>, i: int, draw: int)
    requires
        0 <= i < charset.len(),
        has_turn(charset, i),
        0 <= draw < alternatives(charset, charset[i]).len(),
    ensures
        !spec_turn(name, charset, i, draw).contains(charset[i]),
        spec_turn(name, charset, i, draw).len() == name.len(),
        forall|p: int|
            0 <= p < name.len() && name[p] != charset[i] ==> #[trigger] spec_turn(
                name,
                charset,
                i,
                draw,
            )[p] == name[p],
{
    lemma_alternative(charset, charset[i], draw);
}

/// Jumble keeps the length of a name, leaves alone every character that is
/// not of the set, and puts characters of the set in the places of the others.
pub proof fn lemma_jumble_stays_within(
    name: Seq<char>,
    charset: Seq<char>,
    draws: Seq<usize>,
    k: nat,
)
    requires
        draws_fit(charset, draws),
        k <= charset.len(),
    ensures
        stays_within(name, spec_jumble_upto(name, charset, draws, k), charset),
    decreases k,
{
    if k > 0 {
        let before = spec_jumble_upto(name, charset, draws, (k - 1) as nat);
        lemma_jumble_stays_within(name, charset, draws, (k - 1) as nat);
        let c = charset[k - 1];
        if has_turn(charset, k - 1) {
            let to = alternatives(charset, c)[draws[k - 1] as int];
            lemma_alternative(charset, c, draws[k - 1] as int);
            let after = swapped(before, c, to);
            assert forall|p: int| 0 <= p < name.len() implies if charset.contains(name[p]) {
                charset.contains(#[trigger] after[p])
            } else {
                after[p] == name[p]
            } by {
                if !charset.contains(name[p]) {
                    assert(before[p] == name[p]);
                    assert(before[p] != c);
                } else {
                    assert(charset.contains(before[p]));
                }
            }
        }
    }
}

/// The characters of `charset` other than `c`, in order.
pub fn alternatives_of(charset: &Vec<char>, c: char) -> (out: Vec<char>)
    ensures
        out@ == alternatives(charset@, c),
{
    let ghost others = other_than(c);
    let mut out: Vec<char> = Vec::new();
    let mut i: usize = 0;
    proof {
        reveal(Seq::filter);
        assert(charset@.take(0).filter(others) =~= Seq::<char>::empty());
    }
    while i < charset.len()
        invariant
            i <= charset.len(),
            others == other_than(c),
            out@ == charset@.take(i as int).filter(others),
        decreases charset.len() - i,
    {
        proof {
            assert(charset@.take(i + 1) =~= charset@.take(i as int).push(charset@[i as int]));
            charset@.take(i as int).lemma_filter_push(charset@[i as int], others);
        }
        if charset[i] != c {
            out.push(charset[i]);
        }
        i += 1;
    }
    assert(charset@.take(i as int) =~= charset@);
    out
}

fn occurs_before(charset: &Vec<char>, i: usize) -> (out: bool)
    requires
        i < charset.len(),
    ensures
        out == !is_first(charset@, i as int),
{
    let mut j: usize = 0;
    while j < i
        invariant
            j <= i < charset.len(),
            forall|k: int| 0 <= k < j ==> #[trigger] charset@[k] != charset@[i as int],
        decreases i - j,
    {
        if charset[j] == charset[i] {
            return true;
        }
        j += 1;
    }
    false
}

fn swap_all(name: &mut Vec<char>, from: char, to: char)
    ensures
        final(name)@ == swapped(old(name)@, from, to),
{
    let ghost before = name@;
    let mut p: usize = 0;
    while p < name.len()
        invariant
            p <= name.len(),
            name.len() == before.len(),
            forall|q: int| 0 <= q < p ==> #[trigger] name@[q] == swapped(before, from, to)[q],
            forall|q: int| p <= q < name.len() ==> #[trigger] name@[q] == before[q],
        decreases name.len() - p,
    {
        if name[p] == from {
            name.set(p, to);
        }
        p += 1;
    }
    assert(name@ =~= swapped(before, from, to));
}

/// Jumbles `name` with the draws given: one per character of `charset`, a
/// position among that character's alternatives.
pub fn jumble_with(name: &str, charset: &str, draws: &Vec<usize>) -> (out: String)
    requires
        draws_fit(charset@, draws@),
    ensures
        out@ == spec_jumble(name@, charset@, draws@),
{
    let set = chars_of(charset);
    let mut current = chars_of(name);
    let mut i: usize = 0;
    while i < set.len()
        invariant
            i <= set.len(),
            set@ == charset@,
            draws_fit(charset@, draws@),
            current@ == spec_jumble_upto(name@, charset@, draws@, i as nat),
        decreases set.len() - i,
    {
        if !occurs_before(&set, i) {
            let others = alternatives_of(&set, set[i]);
            if others.len() > 0 {
                swap_all(&mut current, set[i], others[draws[i]]);
            }
        }
        i += 1;
    }
    string_of(&current)
}

/// One draw for each character of `charset`, as `jumble_with` asks for them.
pub fn jumble_draws(rng: &mut ThreadRng, charset: &str) -> (draws: Vec<usize>)
    ensures
        draws_fit(charset@, draws@),
{
    let set = chars_of(charset);
    let mut draws: Vec<usize> = Vec::new();
    let mut i: usize = 0;
    while i < set.len()
        invariant
            i <= set.len(),
            set@ == charset@,
            draws@.len() == i,
            forall|k: int|
                0 <= k < i && alternatives(charset@, charset@[k]).len() > 0 ==> #[trigger] draws@[k]
                    < alternatives(charset@, charset@[k]).len(),
        decreases set.len() - i,
    {
        let others = alternatives_of(&set, set[i]);
        if others.len() > 0 {
            draws.push(draw_below(rng, others.len()));
        } else {
            draws.push(0);
        }
        i += 1;
    }
    draws
}

/// Jumbles `name`, drawing from `rng`: the result is what `jumble_with`
/// gives for some draws that fit.
pub fn jumble(name: &str, charset: &str, rng: &mut ThreadRng) -> (out: String)
    ensures
        exists|draws: Seq<usize>|
            draws_fit(charset@, draws) && out@ == #[trigger] spec_jumble(name@, charset@, draws),
        stays_within(name@, out@, charset@),
{
    let draws = jumble_draws(rng, charset);
    proof {
        lemma_jumble_stays_within(name@, charset@, draws@, charset@.len());
    }
    jumble_with(name, charset, &draws)
}

} // verus!
