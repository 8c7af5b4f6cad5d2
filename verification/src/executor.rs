//! One bulk rename, as a machine that decides and never acts: the caller
//! performs each action on the remote service and hands back what came of it.
//!
//! A run posts its status message, announces the lookup, asks for the
//! targets, and then hands out the members one by one: each is renamed, and
//! its rename is reported in the status message. A rename that fails is
//! counted and reported, and the run goes on. A status edit that fails, or a
//! request to cancel, stops the handing out; renames already handed out are
//! still counted and reported. The last status is always the closing one.
//!
//! Several renames may be under way at once: a caller with a free worker
//! reports `Ready` and is handed the next member, if one is left. Two things
//! are done one at a time: the events are handed in one after the other, and
//! a caller that reports a rename shows the status it is given before any
//! other event is handed in.

use vstd::prelude::*;
use crate::progress::{
    done_text, loading_text, retrieving_text, spec_label, spec_status, Progress, ProgressView,
};
use crate::roster::{member_views, Member, MemberView};

verus! {

/// Where a run stands: what it is waiting for.
#[derive(Clone, Copy, Debug, PartialEq, Eq, Structural)]
pub enum Phase {
    /// Not started.
    Idle,
    /// Waiting for the status message to be posted.
    Opening,
    /// Waiting for the announcement of the lookup to be shown.
    Announcing,
    /// Waiting for the targets.
    Resolving,
    /// Waiting for the renames that are under way.
    Renaming,
    /// Waiting for the progress of the last reported member to be shown.
    Reporting,
    /// Waiting for the closing status to be shown.
    Closing,
    /// Over.
    Finished,
}

/// What the caller reports to a run.
#[derive(Debug)]
pub enum Event {
    /// The command was received.
    Start,
    /// The status message was posted, or could not be.
    Posted(bool),
    /// The status message was edited, or could not be.
    Edited(bool),
    /// The targets of the command, in the order in which to hand them out.
    Resolved(Vec<Member>),
    /// A worker is free to rename another member.
    Ready,
    /// The target at `position` was renamed, or could not be.
    Renamed { position: usize, ok: bool },
}

/// What an [`Event`] stands for in contracts.
pub enum EventView {
    Start,
    Posted(bool),
    Edited(bool),
    Resolved(Seq<MemberView>),
    Ready,
    Renamed { position: nat, ok: bool },
}

impl View for Event {
    type V = EventView;

    open spec fn view(&self) -> EventView {
        match self {
            Event::Start => EventView::Start,
            Event::Posted(ok) => EventView::Posted(*ok),
            Event::Edited(ok) => EventView::Edited(*ok),
            Event::Resolved(targets) => EventView::Resolved(member_views(targets@)),
            Event::Ready => EventView::Ready,
            Event::Renamed { position, ok } => EventView::Renamed {
                position: *position as nat,
                ok: *ok,
            },
        }
    }
}

/// What a run asks of the caller.
#[derive(Debug)]
pub enum Action {
    /// Post a new status message with this text.
    Post(String),
    /// Replace the text of the status message.
    Edit(String),
    /// Work out the targets of the command.
    Resolve,
    /// Give the target at `position`, the member `member` now called
    /// `name`, their new name; then report it under that position.
    Rename { position: usize, member: u64, name: String },
    /// The run is over.
    Stop,
    /// The run could not be opened; nothing was renamed.
    Abort,
    /// Nothing is to be done: the event was not awaited, or no member is
    /// left to hand out.
    Nothing,
}

/// What an [`Action`] stands for in contracts.
pub enum ActionView {
    Post(Seq<char>),
    Edit(Seq<char>),
    Resolve,
    Rename { position: nat, member: u64, name: Seq<char> },
    Stop,
    Abort,
    Nothing,
}

impl View for Action {
    type V = ActionView;

    open spec fn view(&self) -> ActionView {
        match self {
            Action::Post(text) => ActionView::Post(text@),
            Action::Edit(text) => ActionView::Edit(text@),
            Action::Resolve => ActionView::Resolve,
            Action::Rename { position, member, name } => ActionView::Rename {
                position: *position as nat,
                member: *member,
                name: name@,
            },
            Action::Stop => ActionView::Stop,
            Action::Abort => ActionView::Abort,
            Action::Nothing => ActionView::Nothing,
        }
    }
}

/// The counts of a run.
#[derive(Clone, Copy, Debug, PartialEq, Eq, Structural)]
pub struct Outcome {
    /// Members whose rename succeeded.
    pub succeeded: usize,
    /// Members whose rename failed.
    pub failed: usize,
    /// Whether the run was stopped with targets left that were never handed
    /// out.
    pub cancelled: bool,
}

/// What a [`Run`] stands for in contracts.
pub struct RunView {
    pub phase: Phase,
    pub targets: Seq<MemberView>,
    /// How many targets have been handed out.
    pub claimed: nat,
    /// How many of them have been reported, out of how many targets.
    pub progress: ProgressView,
    pub succeeded: nat,
    pub failed: nat,
    /// Whether the handing out has been stopped.
    pub stopping: bool,
    pub aborted: bool,
}

impl RunView {
    /// How many renames have been reported.
    pub open spec fn reported(self) -> nat {
        self.progress.completed
    }

    /// Whether the run was stopped with targets left that were never handed
    /// out.
    pub open spec fn cancelled(self) -> bool {
        self.stopping && self.claimed < self.targets.len()
    }

    /// Whether another target can be handed out.
    pub open spec fn can_claim(self) -> bool {
        !self.stopping && self.claimed < self.targets.len()
    }

    /// Every reported rename is counted once, as a success or as a failure;
    /// no more are reported than were handed out; and a run closes only when
    /// every rename handed out has been reported, and either every target
    /// was handed out or the run was stopped.
    pub open spec fn wf(self) -> bool {
        &&& self.progress.total == self.targets.len()
        &&& self.reported() <= self.claimed <= self.targets.len()
        &&& self.succeeded + self.failed == self.reported()
        &&& self.aborted ==> self.phase == Phase::Finished && self.targets.len() == 0
        &&& match self.phase {
            Phase::Idle | Phase::Opening | Phase::Announcing | Phase::Resolving => self.targets.len()
                == 0,
            Phase::Renaming => self.reported() < self.claimed,
            Phase::Reporting => 1 <= self.reported(),
            Phase::Closing => self.reported() == self.claimed && !self.can_claim(),
            Phase::Finished => self.aborted || (self.reported() == self.claimed
                && !self.can_claim()),
        }
    }

    /// The request to rename the target at position `i`.
    pub open spec fn rename_of(self, i: int) -> ActionView {
        ActionView::Rename {
            position: i as nat,
            member: self.targets[i].id,
            name: self.targets[i].name,
        }
    }

    /// The state after `event`.
    pub open spec fn next(self, event: EventView) -> RunView {
        match (self.phase, event) {
            (Phase::Idle, EventView::Start) => RunView { phase: Phase::Opening, ..self },
            (Phase::Opening, EventView::Posted(true)) => RunView {
                phase: Phase::Announcing,
                ..self
            },
            (Phase::Opening, EventView::Posted(false)) => RunView {
                phase: Phase::Finished,
                aborted: true,
                ..self
            },
            (Phase::Announcing, EventView::Edited(_)) => RunView {
                phase: Phase::Resolving,
                ..self
            },
            (Phase::Resolving, EventView::Resolved(targets)) => {
                if targets.len() == 0 || self.stopping {
                    RunView {
                        phase: Phase::Closing,
                        targets: targets,
                        progress: ProgressView { total: targets.len(), completed: 0 },
                        ..self
                    }
                } else {
                    RunView {
                        phase: Phase::Renaming,
                        targets: targets,
                        progress: ProgressView { total: targets.len(), completed: 0 },
                        claimed: 1,
                        ..self
                    }
                }
            },
            (Phase::Renaming, EventView::Ready) => {
                if self.can_claim() {
                    RunView { claimed: self.claimed + 1, ..self }
                } else {
                    self
                }
            },
            (Phase::Renaming, EventView::Renamed { position, ok }) => {
                if position < self.claimed {
                    RunView {
                        phase: Phase::Reporting,
                        progress: ProgressView {
                            total: self.progress.total,
                            completed: self.progress.completed + 1,
                        },
                        succeeded: if ok {
                            self.succeeded + 1
                        } else {
                            self.succeeded
                        },
                        failed: if ok {
                            self.failed
                        } else {
                            self.failed + 1
                        },
                        ..self
                    }
                } else {
                    self
                }
            },
            (Phase::Reporting, EventView::Edited(ok)) => {
                let seen = RunView { stopping: self.stopping || !ok, ..self };
                if seen.can_claim() {
                    RunView { phase: Phase::Renaming, claimed: seen.claimed + 1, ..seen }
                } else if seen.reported() == seen.claimed {
                    RunView { phase: Phase::Closing, ..seen }
                } else {
                    RunView { phase: Phase::Renaming, ..seen }
                }
            },
            (Phase::Closing, EventView::Edited(_)) => RunView { phase: Phase::Finished, ..self },
            _ => self,
        }
    }

    /// What the run asks for on `event`.
    pub open spec fn action(self, event: EventView) -> ActionView {
        match (self.phase, event) {
            (Phase::Idle, EventView::Start) => ActionView::Post("Loading..."@),
            (Phase::Opening, EventView::Posted(true)) => ActionView::Edit(
                "Retrieving members..."@,
            ),
            (Phase::Opening, EventView::Posted(false)) => ActionView::Abort,
            (Phase::Announcing, EventView::Edited(_)) => ActionView::Resolve,
            (Phase::Resolving, EventView::Resolved(targets)) => {
                if targets.len() == 0 || self.stopping {
                    ActionView::Edit("Done!"@)
                } else {
                    ActionView::Rename { position: 0, member: targets[0].id, name: targets[0].name }
                }
            },
            (Phase::Renaming, EventView::Ready) => {
                if self.can_claim() {
                    self.rename_of(self.claimed as int)
                } else {
                    ActionView::Nothing
                }
            },
            (Phase::Renaming, EventView::Renamed { position, ok }) => {
                if position < self.claimed {
                    ActionView::Edit(
                        spec_status(
                            self.reported() + 1,
                            self.targets.len(),
                            spec_label(self.targets[position as int].name, ok),
                        ),
                    )
                } else {
                    ActionView::Nothing
                }
            },
            (Phase::Reporting, EventView::Edited(ok)) => {
                let seen = RunView { stopping: self.stopping || !ok, ..self };
                if seen.can_claim() {
                    seen.rename_of(seen.claimed as int)
                } else if seen.reported() == seen.claimed {
                    ActionView::Edit("Done!"@)
                } else {
                    ActionView::Nothing
                }
            },
            (Phase::Closing, EventView::Edited(_)) => ActionView::Stop,
            _ => ActionView::Nothing,
        }
    }
}

/// Every step keeps the counts in order.
pub proof fn lemma_step_keeps_wf(run: RunView, event: EventView)
    requires
        run.wf(),
    ensures
        run.next(event).wf(),
{
}

/// The successes and failures of a run never exceed its targets, and add up
/// to all of them once the run is over, unless it was cancelled or could not
/// be opened; a cancelled run has attempted fewer.
pub proof fn lemma_outcome_counts(run: RunView)
    requires
        run.wf(),
    ensures
        run.succeeded + run.failed <= run.targets.len(),
        run.phase == Phase::Finished && !run.cancelled() && !run.aborted ==> run.succeeded
            + run.failed == run.targets.len(),
        run.phase == Phase::Finished && run.cancelled() ==> run.succeeded + run.failed
            < run.targets.len(),
{
}

/// Once the handing out is stopped, no step asks for another rename.
pub proof fn lemma_no_rename_once_stopped(run: RunView, event: EventView)
    requires
        run.wf(),
        run.stopping,
    ensures
        !(run.action(event) is Rename),
        run.next(event).stopping,
        run.next(event).claimed == run.claimed,
{
}

/// Targets are handed out in order, each once: a step asks for a rename
/// exactly when it hands out one more target, and the rename it asks for is
/// that of the next target not yet handed out.
pub proof fn lemma_hands_out_each_once(run: RunView, event: EventView)
    requires
        run.wf(),
    ensures
        run.action(event) is Rename <==> run.next(event).claimed == run.claimed + 1,
        run.action(event) is Rename ==> run.action(event) == run.next(event).rename_of(
            run.claimed as int,
        ),
        !(run.action(event) is Rename) ==> run.next(event).claimed == run.claimed,
        run.phase != Phase::Resolving ==> run.next(event).targets == run.targets,
{
}

/// A rename that fails stops nothing: whether it succeeded or not, a
/// reported rename leaves the handing out as it was.
pub proof fn lemma_failure_is_isolated(run: RunView, position: nat, ok: bool)
    requires
        run.wf(),
    ensures
        run.next(EventView::Renamed { position, ok }).stopping == run.stopping,
        run.next(EventView::Renamed { position, ok }).claimed == run.claimed,
        run.next(EventView::Renamed { position, ok }).targets == run.targets,
        run.next(EventView::Renamed { position, ok }).phase == Phase::Closing ==> run.phase
            == Phase::Closing,
{
}

/// A run closes with its closing status, and ends only after it: the step
/// that closes a run asks for the closing status, and a run is over only
/// after that status was awaited or when it could not be opened.
pub proof fn lemma_done_is_shown_last(run: RunView, event: EventView)
    requires
        run.wf(),
    ensures
        run.phase != Phase::Closing && run.next(event).phase == Phase::Closing ==> run.action(event)
            == ActionView::Edit("Done!"@),
        run.phase != Phase::Finished && run.next(event).phase == Phase::Finished ==> {
            ||| run.phase == Phase::Closing && run.action(event) == ActionView::Stop
            ||| run.phase == Phase::Opening && run.action(event) == ActionView::Abort
        },
{
}

/// No step takes back what was counted: the renames handed out, those
/// reported, the successes and the failures never decrease.
pub proof fn lemma_counts_grow(run: RunView, event: EventView)
    requires
        run.wf(),
    ensures
        run.claimed <= run.next(event).claimed,
        run.reported() <= run.next(event).reported() <= run.reported() + 1,
        run.succeeded <= run.next(event).succeeded,
        run.failed <= run.next(event).failed,
{
}

/// One bulk rename under way.
#[derive(Debug)]
pub struct Run {
    phase: Phase,
    targets: Vec<Member>,
    claimed: usize,
    progress: Progress,
    succeeded: usize,
    failed: usize,
    stopping: bool,
    aborted: bool,
}

impl View for Run {
    type V = RunView;

    closed spec fn view(&self) -> RunView {
        RunView {
            phase: self.phase,
            targets: member_views(self.targets@),
            claimed: self.claimed as nat,
            progress: self.progress@,
            succeeded: self.succeeded as nat,
            failed: self.failed as nat,
            stopping: self.stopping,
            aborted: self.aborted,
        }
    }
}

impl Run {
    /// Whether the counts of the run are in order.
    pub open spec fn wf(&self) -> bool {
        self@.wf()
    }

    /// A run that has not started.
    pub fn new() -> (out: Self)
        ensures
            out.wf(),
            out@ == (RunView {
                phase: Phase::Idle,
                targets: Seq::empty(),
                claimed: 0,
                progress: ProgressView { total: 0, completed: 0 },
                succeeded: 0,
                failed: 0,
                stopping: false,
                aborted: false,
            }),
    {
        let out = Run {
            phase: Phase::Idle,
            targets: Vec::new(),
            claimed: 0,
            progress: Progress::new(0),
            succeeded: 0,
            failed: 0,
            stopping: false,
            aborted: false,
        };
        assert(member_views(out.targets@) =~= Seq::empty());
        out
    }

    /// Where the run stands.
    pub fn phase(&self) -> (phase: Phase)
        ensures
            phase == self@.phase,
    {
        self.phase
    }

    /// Whether the run is over.
    pub fn is_finished(&self) -> (over: bool)
        ensures
            over == (self@.phase == Phase::Finished),
    {
        match self.phase {
            Phase::Finished => true,
            _ => false,
        }
    }

    /// Stops the handing out of members. Renames already handed out are
    /// still counted and reported.
    pub fn cancel(&mut self)
        requires
            old(self).wf(),
        ensures
            final(self).wf(),
            final(self)@ == (RunView { stopping: true, ..old(self)@ }),
    {
        self.stopping = true;
    }

    /// The counts so far.
    pub fn outcome(&self) -> (out: Outcome)
        ensures
            out.succeeded == self@.succeeded,
            out.failed == self@.failed,
            out.cancelled == self@.cancelled(),
    {
        Outcome {
            succeeded: self.succeeded,
            failed: self.failed,
            cancelled: self.stopping && self.claimed < self.targets.len(),
        }
    }

    /// Hands out the next target.
    fn claim(&mut self) -> (action: Action)
        requires
            old(self)@.claimed < old(self)@.targets.len(),
        ensures
            final(self)@ == (RunView { claimed: old(self)@.claimed + 1, ..old(self)@ }),
            action@ == old(self)@.rename_of(old(self)@.claimed as int),
    {
        let at: usize = self.claimed;
        assert(self@.targets[at as int] == self.targets@[at as int]@);
        assert(at < self.targets.len());
        self.claimed = at + 1;
        Action::Rename {
            position: at,
            member: self.targets[at].id,
            name: self.targets[at].display_name.clone(),
        }
    }

    /// Takes in `event`, moves on, and says what to do next.
    pub fn step(&mut self, event: Event) -> (action: Action)
        requires
            old(self).wf(),
        ensures
            final(self).wf(),
            final(self)@ == old(self)@.next(event@),
            action@ == old(self)@.action(event@),
    {
        proof {
            lemma_step_keeps_wf(self@, event@);
        }
        match self.phase {
            Phase::Idle => match event {
                Event::Start => {
                    self.phase = Phase::Opening;
                    Action::Post(loading_text())
                },
                _ => Action::Nothing,
            },
            Phase::Opening => match event {
                Event::Posted(ok) => {
                    if ok {
                        self.phase = Phase::Announcing;
                        Action::Edit(retrieving_text())
                    } else {
                        self.phase = Phase::Finished;
                        self.aborted = true;
                        Action::Abort
                    }
                },
                _ => Action::Nothing,
            },
            Phase::Announcing => match event {
                Event::Edited(_) => {
                    self.phase = Phase::Resolving;
                    Action::Resolve
                },
                _ => Action::Nothing,
            },
            Phase::Resolving => match event {
                Event::Resolved(targets) => {
                    self.progress = Progress::new(targets.len());
                    self.targets = targets;
                    if self.targets.len() == 0 || self.stopping {
                        self.phase = Phase::Closing;
                        Action::Edit(done_text())
                    } else {
                        self.phase = Phase::Renaming;
                        self.claim()
                    }
                },
                _ => Action::Nothing,
            },
            Phase::Renaming => match event {
                Event::Ready => {
                    if !self.stopping && self.claimed < self.targets.len() {
                        self.claim()
                    } else {
                        Action::Nothing
                    }
                },
                Event::Renamed { position, ok } => {
                    if position < self.claimed {
                        assert(self@.targets[position as int] == self.targets@[position as int]@);
                        assert(self.succeeded + self.failed < self.targets.len());
                        let line = self.progress.report(
                            self.targets[position].display_name.as_str(),
                            ok,
                        );
                        if ok {
                            self.succeeded = self.succeeded + 1;
                        } else {
                            self.failed = self.failed + 1;
                        }
                        self.phase = Phase::Reporting;
                        Action::Edit(line)
                    } else {
                        Action::Nothing
                    }
                },
                _ => Action::Nothing,
            },
            Phase::Reporting => match event {
                Event::Edited(ok) => {
                    if !ok {
                        self.stopping = true;
                    }
                    if !self.stopping && self.claimed < self.targets.len() {
                        self.phase = Phase::Renaming;
                        self.claim()
                    } else if self.progress.completed() == self.claimed {
                        self.phase = Phase::Closing;
                        Action::Edit(done_text())
                    } else {
                        self.phase = Phase::Renaming;
                        Action::Nothing
                    }
                },
                _ => Action::Nothing,
            },
            Phase::Closing => match event {
                Event::Edited(_) => {
                    self.phase = Phase::Finished;
                    Action::Stop
                },
                _ => Action::Nothing,
            },
            Phase::Finished => Action::Nothing,
        }
    }
}

} // verus!
