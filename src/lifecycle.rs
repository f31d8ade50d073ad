//! The interaction loop's phases, and when the terminal enters and leaves
//! raw mode: once on entering the loop, once on leaving it, however it ends.
use vstd::prelude::*;
use crate::cycle::Step;

verus! {

/// Where the session stands.
#[derive(Debug, PartialEq, Eq, Structural)]
pub enum Phase {
    /// Setting up the guest; the terminal is as the user left it.
    Starting,
    /// In the loop; the terminal is in raw mode.
    Running,
    /// Done, by a quit or by an error; nothing follows.
    Quitting,
}

/// What the host must do to the terminal after a transition.
#[derive(Debug, PartialEq, Eq, Structural)]
pub enum ModeChange {
    EnterRaw,
    LeaveRaw,
    Keep,
}

/// The session's phase, with a count of the raw-mode changes asked for so
/// far.
pub struct Lifecycle {
    pub phase: Phase,
    pub entered: Ghost<nat>,
    pub left: Ghost<nat>,
}

/// The count of entries after a change.
pub open spec fn entries_after(n: nat, c: ModeChange) -> nat {
    if c == ModeChange::EnterRaw {
        n + 1
    } else {
        n
    }
}

/// The count of exits after a change.
pub open spec fn exits_after(n: nat, c: ModeChange) -> nat {
    if c == ModeChange::LeaveRaw {
        n + 1
    } else {
        n
    }
}

impl Lifecycle {
    /// Raw mode is on exactly while running, and was never entered before.
    pub open spec fn wf(&self) -> bool {
        &&& self.phase == Phase::Running ==> self.entered@ == self.left@ + 1
        &&& self.phase != Phase::Running ==> self.entered@ == self.left@
        &&& self.phase == Phase::Starting ==> self.entered@ == 0
    }

    /// Applies the counts of `c` to `old`, with `phase` as the new phase.
    pub open spec fn moved(&self, old: Lifecycle, phase: Phase, c: ModeChange) -> bool {
        &&& self.phase == phase
        &&& self.entered@ == entries_after(old.entered@, c)
        &&& self.left@ == exits_after(old.left@, c)
    }

    /// A session that has not yet entered the loop.
    pub fn new() -> (r: Self)
        ensures
            r.wf(),
            r.phase == Phase::Starting,
            r.entered@ == 0,
            r.left@ == 0,
    {
        Lifecycle { phase: Phase::Starting, entered: Ghost(0), left: Ghost(0) }
    }

    fn change(&mut self, phase: Phase, c: ModeChange) -> (r: ModeChange)
        ensures
            final(self).moved(*old(self), phase, c),
            r == c,
    {
        self.phase = phase;
        if c == ModeChange::EnterRaw {
            self.entered = Ghost(self.entered@ + 1);
        } else if c == ModeChange::LeaveRaw {
            self.left = Ghost(self.left@ + 1);
        }
        c
    }

    /// Enters the loop, which needs raw mode; only the first time.
    pub fn begin(&mut self) -> (r: ModeChange)
        requires
            old(self).wf(),
        ensures
            final(self).wf(),
            old(self).phase == Phase::Starting ==> r == ModeChange::EnterRaw && final(self).moved(
                *old(self),
                Phase::Running,
                r,
            ),
            old(self).phase != Phase::Starting ==> r == ModeChange::Keep && *final(self) == *old(
                self,
            ),
    {
        if self.phase == Phase::Starting {
            self.change(Phase::Running, ModeChange::EnterRaw)
        } else {
            ModeChange::Keep
        }
    }

    /// Takes the step that handing over an event decided: a quit while
    /// running leaves the loop and raw mode.
    pub fn after_step(&mut self, step: Step) -> (r: ModeChange)
        requires
            old(self).wf(),
        ensures
            final(self).wf(),
            old(self).phase == Phase::Running && step == Step::Quit ==> r == ModeChange::LeaveRaw
                && final(self).moved(*old(self), Phase::Quitting, r),
            !(old(self).phase == Phase::Running && step == Step::Quit) ==> r == ModeChange::Keep
                && *final(self) == *old(self),
    {
        if self.phase == Phase::Running && step == Step::Quit {
            self.change(Phase::Quitting, ModeChange::LeaveRaw)
        } else {
            ModeChange::Keep
        }
    }

    /// Ends the session on a fatal error: raw mode is left if, and only
    /// if, it is on.
    pub fn fail(&mut self) -> (r: ModeChange)
        requires
            old(self).wf(),
        ensures
            final(self).wf(),
            final(self).phase == Phase::Quitting,
            old(self).phase == Phase::Running ==> r == ModeChange::LeaveRaw,
            old(self).phase != Phase::Running ==> r == ModeChange::Keep,
            final(self).moved(*old(self), Phase::Quitting, r),
    {
        if self.phase == Phase::Running {
            self.change(Phase::Quitting, ModeChange::LeaveRaw)
        } else {
            self.change(Phase::Quitting, ModeChange::Keep)
        }
    }
}

/// However the session ended, by a quit or by an error before or after
/// the loop began, raw mode was left as many times as it was entered.
pub proof fn lemma_raw_mode_pairing(s: Lifecycle)
    requires
        s.wf(),
        s.phase == Phase::Quitting,
    ensures
        s.entered@ == s.left@,
{
}

} // verus!
