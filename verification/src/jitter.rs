//! Jitter: the characters of a name, taken in order, are inserted one by one
//! into a growing sequence at a drawn position.
//!
//! With `len` characters placed so far, a draw `u` in `[0, 1)` and an
//! intensity `t` in `[0, 1]`, the next character goes to position
//! `floor(offset + (1 - t) * (len - offset))`, where `offset = u * len`. Here
//! `u` is `draw / DRAW_SCALE` and `t` is a [`Fraction`], so the position is
//! computed exactly, in integers.

use rand::rngs::ThreadRng;
use vstd::prelude::*;
use crate::chance::draw_below;
use crate::fraction::{Fraction, FractionView};
use crate::text::{chars_of, string_of};

verus! {

/// Draws are whole numbers below this scale; a draw `d` stands for the real
/// number `d / DRAW_SCALE`.
pub const DRAW_SCALE: usize = 16_777_216;

/// Where the next character goes, with `len` characters already placed.
pub open spec fn spec_position(len: nat, intensity: FractionView, draw: nat) -> nat {
    ((draw * len * intensity.den + (intensity.den - intensity.num) * (len * DRAW_SCALE - draw
        * len)) / (DRAW_SCALE * intensity.den) as int) as nat
}

/// The sequence after the first `k` characters of `name` have been placed.
pub open spec fn spec_jitter_upto(
    name: Seq<char>,
    intensity: FractionView,
    draws: Seq<usize>,
    k: nat,
) -> Seq<char>
    decreases k,
{
    if k == 0 {
        Seq::empty()
    } else {
        let placed = spec_jitter_upto(name, intensity, draws, (k - 1) as nat);
        placed.insert(
            spec_position((k - 1) as nat, intensity, draws[k - 1] as nat) as int,
            name[k - 1],
        )
    }
}

/// Whether `draws` holds one draw below the scale for each character of a
/// name of `len` characters. A name of fewer than two characters needs none.
pub open spec fn draws_fit(len: nat, draws: Seq<usize>) -> bool {
    len >= 2 ==> {
        &&& draws.len() == len
        &&& forall|i: int| 0 <= i < draws.len() ==> #[trigger] draws[i] < DRAW_SCALE
    }
}

/// The jittered name: a name of fewer than two characters as it is, any
/// other with every character placed.
pub open spec fn spec_jitter(name: Seq<char>, intensity: FractionView, draws: Seq<usize>) -> Seq<
    char,
> {
    if name.len() < 2 {
        name
    } else {
        spec_jitter_upto(name, intensity, draws, name.len())
    }
}

/// A position never lies beyond the characters already placed. At zero
/// intensity it is right behind them; at full intensity it is before the
/// last of them.
pub proof fn lemma_position_range(len: nat, intensity: FractionView, draw: nat)
    requires
        intensity.wf(),
        draw < DRAW_SCALE,
    ensures
        spec_position(len, intensity, draw) <= len,
        intensity.num == 0 ==> spec_position(len, intensity, draw) == len,
        intensity.num == intensity.den && len > 0 ==> spec_position(len, intensity, draw) < len,
{
    let scale = DRAW_SCALE as int;
    let den = intensity.den as int;
    let num = intensity.num as int;
    let l = len as int;
    let d = draw as int;
    let top = d * l * den + (den - num) * (l * scale - d * l);
    let bottom = scale * den;
    assert(bottom > 0) by (nonlinear_arith)
        requires
            scale > 0,
            den > 0,
            bottom == scale * den,
    ;
    assert(0 <= top <= l * bottom) by (nonlinear_arith)
        requires
            0 <= num <= den,
            0 <= d < scale,
            0 <= l,
            top == d * l * den + (den - num) * (l * scale - d * l),
            bottom == scale * den,
    ;
    assert(top / bottom <= l) by (nonlinear_arith)
        requires
            0 <= top <= l * bottom,
            bottom > 0,
    ;
    assert(top / bottom >= 0) by (nonlinear_arith)
        requires
            0 <= top,
            bottom > 0,
    ;
    if num == 0 {
        assert(top == l * bottom) by (nonlinear_arith)
            requires
                num == 0,
                top == d * l * den + (den - num) * (l * scale - d * l),
                bottom == scale * den,
        ;
        assert(top / bottom == l) by (nonlinear_arith)
            requires
                top == l * bottom,
                bottom > 0,
        ;
    }
    if num == den && l > 0 {
        assert(top < l * bottom) by (nonlinear_arith)
            requires
                num == den,
                den > 0,
                0 <= d < scale,
                0 < l,
                top == d * l * den + (den - num) * (l * scale - d * l),
                bottom == scale * den,
        ;
        assert(top / bottom < l) by (nonlinear_arith)
            requires
                0 <= top < l * bottom,
                bottom > 0,
        ;
    }
}

/// Placing the first `k` characters gives `k` characters: those of the
/// name's beginning, in some order.
pub proof fn lemma_jitter_upto(name: Seq<char>, intensity: FractionView, draws: Seq<usize>, k: nat)
    requires
        intensity.wf(),
        k <= name.len(),
        k <= draws.len(),
        forall|i: int| 0 <= i < draws.len() ==> #[trigger] draws[i] < DRAW_SCALE,
    ensures
        spec_jitter_upto(name, intensity, draws, k).len() == k,
        spec_jitter_upto(name, intensity, draws, k).to_multiset() == name.take(
            k as int,
        ).to_multiset(),
    decreases k,
{
    broadcast use vstd::seq_lib::group_to_multiset_ensures;

    if k == 0 {
        assert(name.take(0) =~= Seq::<char>::empty());
    } else {
        let placed = spec_jitter_upto(name, intensity, draws, (k - 1) as nat);
        lemma_jitter_upto(name, intensity, draws, (k - 1) as nat);
        lemma_position_range((k - 1) as nat, intensity, draws[k - 1] as nat);
        let at = spec_position((k - 1) as nat, intensity, draws[k - 1] as nat) as int;
        vstd::seq_lib::to_multiset_insert(placed, at, name[k - 1]);
        assert(name.take(k as int) =~= name.take(k - 1).push(name[k - 1]));
    }
}

/// Jitter moves characters and neither adds nor drops any: the result has
/// the characters of the name, each as often as the name has it.
pub proof fn lemma_jitter_keeps_characters(
    name: Seq<char>,
    intensity: FractionView,
    draws: Seq<usize>,
)
    requires
        intensity.wf(),
        draws_fit(name.len(), draws),
    ensures
        spec_jitter(name, intensity, draws).len() == name.len(),
        spec_jitter(name, intensity, draws).to_multiset() == name.to_multiset(),
{
    if name.len() >= 2 {
        lemma_jitter_upto(name, intensity, draws, name.len());
        assert(name.take(name.len() as int) =~= name);
    }
}

/// At zero intensity every character is placed behind those before it: the
/// name comes back unchanged, whatever is drawn.
pub proof fn lemma_jitter_at_zero(name: Seq<char>, intensity: FractionView, draws: Seq<usize>)
    requires
        intensity.wf(),
        intensity.num == 0,
        draws_fit(name.len(), draws),
    ensures
        spec_jitter(name, intensity, draws) == name,
{
    if name.len() >= 2 {
        lemma_jitter_at_zero_upto(name, intensity, draws, name.len());
        assert(name.take(name.len() as int) =~= name);
    }
}

proof fn lemma_jitter_at_zero_upto(
    name: Seq<char>,
    intensity: FractionView,
    draws: Seq<usize>,
    k: nat,
)
    requires
        intensity.wf(),
        intensity.num == 0,
        k <= name.len(),
        k <= draws.len(),
        forall|i: int| 0 <= i < draws.len() ==> #[trigger] draws[i] < DRAW_SCALE,
    ensures
        spec_jitter_upto(name, intensity, draws, k) == name.take(k as int),
    decreases k,
{
    if k == 0 {
        assert(name.take(0) =~= Seq::<char>::empty());
    } else {
        lemma_jitter_at_zero_upto(name, intensity, draws, (k - 1) as nat);
        lemma_position_range((k - 1) as nat, intensity, draws[k - 1] as nat);
        assert(name.take(k - 1).insert(k - 1, name[k - 1]) =~= name.take(k as int));
    }
}

/// At full intensity every character after the first is placed before the
/// last one placed so far: the first character of the name ends up last.
/// So a name whose first and last characters differ never comes back
/// unchanged at full intensity.
pub proof fn lemma_jitter_at_full(name: Seq<char>, intensity: FractionView, draws: Seq<usize>)
    requires
        intensity.wf(),
        intensity.num == intensity.den,
        name.len() >= 2,
        draws_fit(name.len(), draws),
    ensures
        spec_jitter(name, intensity, draws).len() == name.len(),
        spec_jitter(name, intensity, draws).last() == name[0],
        name[0] != name.last() ==> spec_jitter(name, intensity, draws) != name,
{
    lemma_jitter_at_full_upto(name, intensity, draws, name.len());
}

proof fn lemma_jitter_at_full_upto(
    name: Seq<char>,
    intensity: FractionView,
    draws: Seq<usize>,
    k: nat,
)
    requires
        intensity.wf(),
        intensity.num == intensity.den,
        1 <= k <= name.len(),
        k <= draws.len(),
        forall|i: int| 0 <= i < draws.len() ==> #[trigger] draws[i] < DRAW_SCALE,
    ensures
        spec_jitter_upto(name, intensity, draws, k).len() == k,
        spec_jitter_upto(name, intensity, draws, k).last() == name[0],
    decreases k,
{
    lemma_jitter_upto(name, intensity, draws, k);
    lemma_jitter_upto(name, intensity, draws, (k - 1) as nat);
    lemma_position_range((k - 1) as nat, intensity, draws[k - 1] as nat);
    if k == 1 {
        reveal_with_fuel(spec_jitter_upto, 2);
    } else {
        lemma_jitter_at_full_upto(name, intensity, draws, (k - 1) as nat);
    }
}

/// A name made of one character, repeated, comes back unchanged at every
/// intensity, whatever is drawn.
pub proof fn lemma_jitter_of_one_character(
    name: Seq<char>,
    intensity: FractionView,
    draws: Seq<usize>,
)
    requires
        intensity.wf(),
        draws_fit(name.len(), draws),
        forall|i: int| 0 <= i < name.len() ==> #[trigger] name[i] == name[0],
    ensures
        spec_jitter(name, intensity, draws) == name,
{
    broadcast use vstd::seq_lib::group_to_multiset_ensures;

    lemma_jitter_keeps_characters(name, intensity, draws);
    let out = spec_jitter(name, intensity, draws);
    assert forall|i: int| 0 <= i < out.len() implies out[i] == name[i] by {
        assert(out.to_multiset().count(out[i]) > 0);
        assert(name.to_multiset().count(out[i]) > 0);
        assert(name.contains(out[i]));
    }
    assert(out =~= name);
}

/// Where the next character goes, with `len` characters already placed.
pub fn position(len: usize, intensity: &Fraction, draw: usize) -> (out: usize)
    requires
        intensity.wf(),
        draw < DRAW_SCALE,
    ensures
        out == spec_position(len as nat, intensity@, draw as nat),
        out <= len,
{
    proof {
        lemma_position_range(len as nat, intensity@, draw as nat);
    }
    let l: u128 = len as u128;
    let d: u128 = draw as u128;
    let num: u128 = intensity.num() as u128;
    let den: u128 = intensity.den() as u128;
    let scale: u128 = DRAW_SCALE as u128;
    assert(d * l <= l * scale <= 0x1_0000_0000_0000_0000 * 0x100_0000) by (nonlinear_arith)
        requires
            d < scale,
            scale == 0x100_0000,
            l < 0x1_0000_0000_0000_0000,
    ;
    let offset: u128 = d * l;
    let room: u128 = l * scale - offset;
    assert(offset * den <= 0x1_0000_0000_0000_0000 * 0x100_0000 * 0x1_0000_0000)
        by (nonlinear_arith)
        requires
            offset <= 0x1_0000_0000_0000_0000 * 0x100_0000,
            den < 0x1_0000_0000,
    ;
    assert((den - num) * room <= 0x1_0000_0000_0000_0000 * 0x100_0000 * 0x1_0000_0000)
        by (nonlinear_arith)
        requires
            room <= 0x1_0000_0000_0000_0000 * 0x100_0000,
            0 <= den - num < 0x1_0000_0000,
    ;
    assert(scale * den > 0) by (nonlinear_arith)
        requires
            scale > 0,
            den > 0,
    ;
    ((offset * den + (den - num) * room) / (scale * den)) as usize
}

/// Jitters `name` with the draws given: one per character, each below
/// [`DRAW_SCALE`].
pub fn jitter_with(name: &str, intensity: &Fraction, draws: &Vec<usize>) -> (out: String)
    requires
        intensity.wf(),
        draws_fit(name@.len(), draws@),
    ensures
        out@ == spec_jitter(name@, intensity@, draws@),
{
    let chars = chars_of(name);
    if chars.len() < 2 {
        return name.to_owned();
    }
    let mut placed: Vec<char> = Vec::new();
    let mut k: usize = 0;
    while k < chars.len()
        invariant
            k <= chars.len(),
            chars@ == name@,
            intensity.wf(),
            draws@.len() == chars.len(),
            forall|i: int| 0 <= i < draws@.len() ==> #[trigger] draws@[i] < DRAW_SCALE,
            placed@.len() == k,
            placed@ == spec_jitter_upto(name@, intensity@, draws@, k as nat),
        decreases chars.len() - k,
    {
        let at: usize = position(k, intensity, draws[k]);
        placed.insert(at, chars[k]);
        k += 1;
    }
    string_of(&placed)
}

/// As many draws as `jitter_with` asks for a name of `len` characters.
pub fn jitter_draws(rng: &mut ThreadRng, len: usize) -> (draws: Vec<usize>)
    ensures
        draws_fit(len as nat, draws@),
{
    let mut draws: Vec<usize> = Vec::new();
    if len < 2 {
        return draws;
    }
    let mut i: usize = 0;
    while i < len
        invariant
            i <= len,
            draws@.len() == i,
            forall|k: int| 0 <= k < draws@.len() ==> #[trigger] draws@[k] < DRAW_SCALE,
        decreases len - i,
    {
        draws.push(draw_below(rng, DRAW_SCALE));
        i += 1;
    }
    draws
}

/// Jitters `name`, drawing from `rng`: the result is what `jitter_with`
/// gives for some draws that fit.
pub fn jitter(name: &str, intensity: &Fraction, rng: &mut ThreadRng) -> (out: String)
    requires
        intensity.wf(),
    ensures
        exists|draws: Seq<usize>|
            draws_fit(name@.len(), draws) && out@ == #[trigger] spec_jitter(
                name@,
                intensity@,
                draws,
            ),
{
    let chars = chars_of(name);
    let draws = jitter_draws(rng, chars.len());
    jitter_with(name, intensity, &draws)
}

} // verus!
