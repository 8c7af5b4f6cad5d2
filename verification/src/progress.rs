//! The status line of a run: a spinner, a bar of twelve slots, a percentage
//! and a label, all computed in exact integer arithmetic.

use vstd::prelude::*;
use vstd::string::StringExecFns;

verus! {

/// The number of slots in the bar.
pub const BAR_SLOTS: usize = 12;

/// The character of a filled slot.
pub const SLOT_DONE: char = '\u{2588}';

/// The character of an empty slot.
pub const SLOT_PENDING: char = '\u{2591}';

/// `12 * completed / total`, rounded to the nearest integer, halves upwards.
pub open spec fn spec_filled_slots(completed: nat, total: nat) -> nat {
    (24 * completed + total) / (2 * total)
}

/// `100 * completed / total`, rounded to the nearest integer, halves upwards.
pub open spec fn spec_percent(completed: nat, total: nat) -> nat {
    (200 * completed + total) / (2 * total)
}

/// The spinner turns through three glyphs, one step per processed member.
pub open spec fn spec_spinner(completed: nat) -> char {
    if completed % 3 == 0 {
        '/'
    } else if completed % 3 == 1 {
        '.'
    } else {
        '\\'
    }
}

/// A bar whose first `filled` slots are done and whose other slots are pending.
pub open spec fn spec_bar(filled: nat) -> Seq<char> {
    Seq::new(
        BAR_SLOTS as nat,
        |i: int|
            if i < filled {
                SLOT_DONE
            } else {
                SLOT_PENDING
            },
    )
}

/// The decimal digit `d`, for `d` below ten.
pub open spec fn spec_digit(d: nat) -> char {
    if d == 0 {
        '0'
    } else if d == 1 {
        '1'
    } else if d == 2 {
        '2'
    } else if d == 3 {
        '3'
    } else if d == 4 {
        '4'
    } else if d == 5 {
        '5'
    } else if d == 6 {
        '6'
    } else if d == 7 {
        '7'
    } else if d == 8 {
        '8'
    } else {
        '9'
    }
}

/// `n` written in decimal, without leading zeros.
pub open spec fn spec_decimal(n: nat) -> Seq<char>
    decreases n,
{
    if n < 10 {
        seq![spec_digit(n)]
    } else {
        spec_decimal(n / 10).push(spec_digit(n % 10))
    }
}

/// The label of a member whose rename was refused.
pub open spec fn spec_failure_label(name: Seq<char>) -> Seq<char> {
    "Perhaps I don't have permission to rename **"@ + name + "**?"@
}

/// The label of one progress tick: the member's name, or the explanation
/// that names them when their rename failed.
pub open spec fn spec_label(name: Seq<char>, succeeded: bool) -> Seq<char> {
    if succeeded {
        name
    } else {
        spec_failure_label(name)
    }
}

/// The whole status line after `completed` of `total` members.
pub open spec fn spec_status(completed: nat, total: nat, label: Seq<char>) -> Seq<char> {
    seq![spec_spinner(completed)] + " Nicknaming... "@ + spec_bar(
        spec_filled_slots(completed, total),
    ) + " "@ + spec_decimal(spec_percent(completed, total)) + "% / "@ + label
}

/// The rounded quotients never leave their ranges.
pub proof fn lemma_progress_ranges(completed: nat, total: nat)
    requires
        0 < total,
        completed <= total,
    ensures
        spec_filled_slots(completed, total) <= BAR_SLOTS,
        spec_percent(completed, total) <= 100,
        completed == total ==> spec_filled_slots(completed, total) == BAR_SLOTS,
        completed == total ==> spec_percent(completed, total) == 100,
{
    let t2 = 2 * total;
    assert(24 * completed + total < 13 * t2);
    assert((24 * completed + total) / t2 < 13) by (nonlinear_arith)
        requires
            24 * completed + total < 13 * t2,
            t2 > 0,
    ;
    assert(200 * completed + total < 101 * t2);
    assert((200 * completed + total) / t2 < 101) by (nonlinear_arith)
        requires
            200 * completed + total < 101 * t2,
            t2 > 0,
    ;
    if completed == total {
        assert((24 * completed + total) / t2 >= 12) by (nonlinear_arith)
            requires
                24 * completed + total >= 12 * t2,
                t2 > 0,
        ;
        assert((200 * completed + total) / t2 >= 100) by (nonlinear_arith)
            requires
                200 * completed + total >= 100 * t2,
                t2 > 0,
        ;
    }
}

/// How many slots of the bar are filled after `completed` of `total` members.
pub fn filled_slots(completed: usize, total: usize) -> (filled: usize)
    requires
        0 < total,
        completed <= total,
    ensures
        filled == spec_filled_slots(completed as nat, total as nat),
        filled <= BAR_SLOTS,
{
    proof {
        lemma_progress_ranges(completed as nat, total as nat);
    }
    let c: u128 = completed as u128;
    let t: u128 = total as u128;
    ((24 * c + t) / (2 * t)) as usize
}

/// The percentage shown after `completed` of `total` members.
pub fn percent(completed: usize, total: usize) -> (shown: usize)
    requires
        0 < total,
        completed <= total,
    ensures
        shown == spec_percent(completed as nat, total as nat),
        shown <= 100,
{
    proof {
        lemma_progress_ranges(completed as nat, total as nat);
    }
    let c: u128 = completed as u128;
    let t: u128 = total as u128;
    ((200 * c + t) / (2 * t)) as usize
}

/// The spinner glyph after `completed` members.
pub fn spinner(completed: usize) -> (glyph: char)
    ensures
        glyph == spec_spinner(completed as nat),
{
    let phase: usize = completed % 3;
    if phase == 0 {
        '/'
    } else if phase == 1 {
        '.'
    } else {
        '\\'
    }
}

/// The bar with its first `filled` slots done.
pub fn bar(filled: usize) -> (out: String)
    ensures
        out@ == spec_bar(filled as nat),
{
    let mut out = String::new();
    let mut i: usize = 0;
    while i < BAR_SLOTS
        invariant
            i <= BAR_SLOTS,
            out@ == spec_bar(filled as nat).take(i as int),
        decreases BAR_SLOTS - i,
    {
        if i < filled {
            out.push(SLOT_DONE);
        } else {
            out.push(SLOT_PENDING);
        }
        i += 1;
    }
    out
}

fn digit(d: usize) -> (c: char)
    requires
        d < 10,
    ensures
        c == spec_digit(d as nat),
{
    if d == 0 {
        '0'
    } else if d == 1 {
        '1'
    } else if d == 2 {
        '2'
    } else if d == 3 {
        '3'
    } else if d == 4 {
        '4'
    } else if d == 5 {
        '5'
    } else if d == 6 {
        '6'
    } else if d == 7 {
        '7'
    } else if d == 8 {
        '8'
    } else {
        '9'
    }
}

/// Appends `n` in decimal to `out`.
pub fn push_decimal(out: &mut String, n: usize)
    ensures
        final(out)@ == old(out)@ + spec_decimal(n as nat),
    decreases n,
{
    if n >= 10 {
        push_decimal(out, n / 10);
    }
    out.push(digit(n % 10));
}

/// `n` written in decimal.
pub fn decimal(n: usize) -> (out: String)
    ensures
        out@ == spec_decimal(n as nat),
{
    let mut out = String::new();
    push_decimal(&mut out, n);
    out
}

/// The label shown for a member whose rename was refused.
pub fn failure_label(name: &str) -> (out: String)
    ensures
        out@ == spec_failure_label(name@),
{
    let mut out = String::from_str("Perhaps I don't have permission to rename **");
    out.append(name);
    out.append("**?");
    out
}

/// The status line after `completed` of `total` members, ending in `label`.
pub fn status(completed: usize, total: usize, label: &str) -> (out: String)
    requires
        0 < total,
        completed <= total,
    ensures
        out@ == spec_status(completed as nat, total as nat, label@),
{
    let mut out = String::new();
    out.push(spinner(completed));
    out.append(" Nicknaming... ");
    let slots = bar(filled_slots(completed, total));
    out.append(slots.as_str());
    out.append(" ");
    push_decimal(&mut out, percent(completed, total));
    out.append("% / ");
    out.append(label);
    out
}

/// The line shown when a run is opened.
pub fn loading_text() -> (out: String)
    ensures
        out@ == "Loading..."@,
{
    String::from_str("Loading...")
}

/// The line shown while the members are being looked up.
pub fn retrieving_text() -> (out: String)
    ensures
        out@ == "Retrieving members..."@,
{
    String::from_str("Retrieving members...")
}

/// The line shown once a run is over.
pub fn done_text() -> (out: String)
    ensures
        out@ == "Done!"@,
{
    String::from_str("Done!")
}

/// What a [`Progress`] stands for in contracts.
pub struct ProgressView {
    pub total: nat,
    pub completed: nat,
}

/// The count of processed members of one run, out of a fixed total.
#[derive(Debug)]
pub struct Progress {
    total: usize,
    completed: usize,
}

impl View for Progress {
    type V = ProgressView;

    closed spec fn view(&self) -> ProgressView {
        ProgressView { total: self.total as nat, completed: self.completed as nat }
    }
}

impl Progress {
    /// The count never passes the total.
    pub open spec fn wf(&self) -> bool {
        self@.completed <= self@.total
    }

    /// Nothing processed yet, out of `total`.
    pub fn new(total: usize) -> (out: Self)
        ensures
            out.wf(),
            out@ == (ProgressView { total: total as nat, completed: 0 }),
    {
        Progress { total, completed: 0 }
    }

    /// How many members the run has in all.
    pub fn total(&self) -> (n: usize)
        ensures
            n == self@.total,
    {
        self.total
    }

    /// How many members have been processed.
    pub fn completed(&self) -> (n: usize)
        ensures
            n == self@.completed,
    {
        self.completed
    }

    /// Whether every member has been processed.
    pub fn is_complete(&self) -> (done: bool)
        ensures
            done == (self@.completed >= self@.total),
    {
        self.completed >= self.total
    }

    /// Counts one more processed member and gives the status line for it:
    /// with the member's name where the rename succeeded, with the
    /// explanation that names them where it did not.
    pub fn report(&mut self, member_name: &str, succeeded: bool) -> (line: String)
        requires
            old(self).wf(),
            old(self)@.completed < old(self)@.total,
        ensures
            final(self).wf(),
            final(self)@.total == old(self)@.total,
            final(self)@.completed == old(self)@.completed + 1,
            line@ == spec_status(
                final(self)@.completed,
                final(self)@.total,
                spec_label(member_name@, succeeded),
            ),
    {
        self.completed = self.completed + 1;
        if succeeded {
            status(self.completed, self.total, member_name)
        } else {
            let label = failure_label(member_name);
            status(self.completed, self.total, label.as_str())
        }
    }
}

} // verus!
