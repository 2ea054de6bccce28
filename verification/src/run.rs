//! The execution controller: how far a run goes and when it records.
//!
//! The machine executes instructions and talks to the terminal, which this
//! crate does not do. The controller decides: a driver asks it what to do
//! next, does that to the machine, and reports back.

use crate::numeral::{parsed_usize, usize_from_str_radix};
use crate::undo::{
    can_undo,
    lemma_history_is_newest,
    lemma_newest_append,
    pushed,
    pushed_all,
    restored,
    UndoBuffer,
};
use vstd::prelude::*;

verus! {

/// The bit of the machine control register that lets the clock run.
pub const CLOCK_ENABLE: u16 = 0x8000;

/// Whether a machine whose control register reads `mcr` may execute.
pub open spec fn clock_enabled(mcr: u16) -> bool {
    mcr & CLOCK_ENABLE != 0
}

/// Reads the clock enable bit of the machine control register.
pub fn is_clock_enabled(mcr: u16) -> (on: bool)
    ensures
        on == clock_enabled(mcr),
        on == (mcr >= 0x8000),
{
    assert((mcr & 0x8000 != 0) == (mcr >> 15 > 0)) by (bit_vector);
    assert((mcr >> 15 > 0) == (mcr >= 0x8000)) by (bit_vector);
    mcr >> 15 > 0
}

/// The machine control register with its clock enable bit set to `on` and
/// every other bit as in `mcr`.
pub fn with_clock(mcr: u16, on: bool) -> (r: u16)
    ensures
        clock_enabled(r) == on,
        r & 0x7FFF == mcr & 0x7FFF,
        r == (mcr & 0x7FFF) + if on { 0x8000int } else { 0int },
{
    let low: u16 = mcr & 0x7FFF;
    assert(low <= 0x7FFF) by (bit_vector)
        requires
            low == mcr & 0x7FFF,
    ;
    if on {
        let r: u16 = low + 0x8000;
        assert(r & 0x8000 != 0 && r & 0x7FFF == low) by (bit_vector)
            requires
                low <= 0x7FFF,
                r == low + 0x8000,
        ;
        r
    } else {
        assert(low & 0x8000 == 0 && low & 0x7FFF == low) by (bit_vector)
            requires
                low <= 0x7FFF,
        ;
        low
    }
}

/// How many instructions a run may execute.
#[derive(Clone, Copy, Debug, PartialEq, Eq, Structural)]
pub enum RunLimit {
    /// Until the machine stops itself.
    Unbounded,
    /// No more than this many.
    AtMost(usize),
}

/// The limit that the argument of a run command asks for: none without an
/// argument, else the decimal number it holds.
pub open spec fn run_limit_of(body: Option<&str>) -> Option<RunLimit> {
    match body {
        None => Some(RunLimit::Unbounded),
        Some(text) => match parsed_usize(text@, 10) {
            Some(n) => Some(RunLimit::AtMost(n)),
            None => None,
        },
    }
}

/// Reads the bound of a run command before anything is executed.
///
/// Without an argument the run is unbounded. With one, the run is bounded
/// by the non-negative decimal number it holds; anything else is an error,
/// and the caller executes nothing.
pub fn parse_run_limit(body: Option<&str>) -> (r: Result<RunLimit, std::num::ParseIntError>)
    ensures
        match r {
            Ok(limit) => run_limit_of(body) == Some(limit),
            Err(_) => run_limit_of(body) is None,
        },
{
    match body {
        None => Ok(RunLimit::Unbounded),
        Some(text) => match usize_from_str_radix(text, 10) {
            Ok(n) => Ok(RunLimit::AtMost(n)),
            Err(e) => Err(e),
        },
    }
}

/// What the controller asks of its driver.
#[derive(Clone, Copy, Debug, PartialEq, Eq, Structural)]
pub enum RunAction {
    /// Nothing is recorded, so let the machine run by itself, within this
    /// limit, and report how many instructions it executed.
    Delegate(RunLimit),
    /// Record the machine as it is now, then execute one instruction.
    Step,
    /// The run is over; this many instructions were executed.
    Done(usize),
}

/// The state of one run command.
#[derive(Clone, Copy, Debug, PartialEq, Eq, Structural)]
pub struct RunController {
    /// The bound the run was started with.
    pub limit: RunLimit,
    /// Whether a history buffer takes a snapshot before each instruction.
    pub recording: bool,
    /// Instructions executed so far, held at `usize::MAX` once reached.
    pub executed: usize,
    /// Whether a delegated run has reported back.
    pub finished: bool,
}

/// `count + more`, held at `usize::MAX`.
pub open spec fn counted(count: usize, more: usize) -> usize {
    if count + more <= usize::MAX {
        (count + more) as usize
    } else {
        usize::MAX
    }
}

impl RunController {
    /// The controller of a run that has not executed anything yet.
    pub open spec fn started(limit: RunLimit, recording: bool) -> RunController {
        RunController { limit, recording, executed: 0, finished: false }
    }

    /// Whether the limit allows another instruction.
    pub open spec fn within_limit(self) -> bool {
        match self.limit {
            RunLimit::Unbounded => true,
            RunLimit::AtMost(n) => self.executed < n,
        }
    }

    /// What is left of the limit.
    pub open spec fn remaining(self) -> RunLimit {
        match self.limit {
            RunLimit::Unbounded => RunLimit::Unbounded,
            RunLimit::AtMost(n) => RunLimit::AtMost(
                if self.executed < n {
                    (n - self.executed) as usize
                } else {
                    0
                },
            ),
        }
    }

    /// The decision. A run ends once it has reported back from a delegated
    /// run or has used up its limit, whatever the machine's enable flag
    /// says. Otherwise a run without history is delegated whole, and a run
    /// with history goes on, one recorded instruction at a time, while the
    /// machine is enabled.
    pub open spec fn next_action(self, enabled: bool) -> RunAction {
        if self.finished || !self.within_limit() {
            RunAction::Done(self.executed)
        } else if !self.recording {
            RunAction::Delegate(self.remaining())
        } else if enabled {
            RunAction::Step
        } else {
            RunAction::Done(self.executed)
        }
    }

    /// The controller after one more instruction.
    pub open spec fn after_step(self) -> RunController {
        RunController { executed: counted(self.executed, 1), ..self }
    }

    /// The controller after the machine ran `count` instructions by itself.
    pub open spec fn after_delegation(self, count: usize) -> RunController {
        RunController { executed: counted(self.executed, count), finished: true, ..self }
    }

    /// Starts a run: nothing executed, limit and recording as given.
    pub fn start(limit: RunLimit, recording: bool) -> (ctl: RunController)
        ensures
            ctl == RunController::started(limit, recording),
    {
        RunController { limit, recording, executed: 0, finished: false }
    }

    /// Decides what happens next, given the machine's enable flag as it is
    /// now.
    pub fn next(&self, enabled: bool) -> (action: RunAction)
        ensures
            action == self.next_action(enabled),
    {
        let within: bool = match self.limit {
            RunLimit::Unbounded => true,
            RunLimit::AtMost(n) => self.executed < n,
        };
        if self.finished || !within {
            RunAction::Done(self.executed)
        } else if !self.recording {
            match self.limit {
                RunLimit::Unbounded => RunAction::Delegate(RunLimit::Unbounded),
                RunLimit::AtMost(n) => RunAction::Delegate(RunLimit::AtMost(n - self.executed)),
            }
        } else if enabled {
            RunAction::Step
        } else {
            RunAction::Done(self.executed)
        }
    }

    /// Takes the snapshot of a `Step` into the history and counts the
    /// instruction that the driver executes after it.
    pub fn record<T>(&mut self, history: &mut UndoBuffer<T>, snapshot: T)
        requires
            old(history).wf(),
        ensures
            *final(self) == old(self).after_step(),
            final(history).wf(),
            final(history).capacity() == old(history).capacity(),
            final(history)@ == pushed(old(history)@, old(history).capacity() as nat, snapshot),
    {
        history.push(snapshot);
        self.count(1);
    }

    /// Takes in the count of a delegated run, which ends the run.
    pub fn delegated(&mut self, count: usize)
        ensures
            *final(self) == old(self).after_delegation(count),
    {
        self.count(count);
        self.finished = true;
    }

    fn count(&mut self, more: usize)
        ensures
            *final(self) == (RunController { executed: counted(old(self).executed, more), ..*old(self) }),
    {
        self.executed = if more <= usize::MAX - self.executed {
            self.executed + more
        } else {
            usize::MAX
        };
    }
}

/// The count that a recording controller ends on, over a machine whose
/// enable flag reads `flags[i]` once `i` more instructions have been
/// executed; where the flags run out first, the count reached by then.
pub open spec fn recorded_run(ctl: RunController, flags: Seq<bool>) -> usize
    decreases flags.len(),
{
    if flags.len() == 0 {
        ctl.executed
    } else {
        match ctl.next_action(flags[0]) {
            RunAction::Step => recorded_run(ctl.after_step(), flags.skip(1)),
            RunAction::Done(n) => n,
            RunAction::Delegate(_) => ctl.executed,
        }
    }
}

/// The number of steps that a recording controller asks for over these
/// readings of the enable flag.
pub open spec fn steps_taken(ctl: RunController, flags: Seq<bool>) -> nat
    decreases flags.len(),
{
    if flags.len() == 0 {
        0
    } else {
        match ctl.next_action(flags[0]) {
            RunAction::Step => 1 + steps_taken(ctl.after_step(), flags.skip(1)),
            _ => 0,
        }
    }
}

/// The history that a recorded run leaves, over a machine that is in state
/// `states[i]`, with its enable flag reading `flags[i]`, once `i` more
/// instructions have been executed: before each step, the state of the
/// moment is recorded.
pub open spec fn recorded_history<T>(
    ctl: RunController,
    flags: Seq<bool>,
    states: Seq<T>,
    history: Seq<T>,
    capacity: nat,
) -> Seq<T>
    decreases flags.len(),
{
    if flags.len() == 0 || states.len() == 0 {
        history
    } else {
        match ctl.next_action(flags[0]) {
            RunAction::Step => recorded_history(
                ctl.after_step(),
                flags.skip(1),
                states.skip(1),
                pushed(history, capacity, states[0]),
                capacity,
            ),
            _ => history,
        }
    }
}

/// The number of flags at the front of `flags` that are set.
pub open spec fn leading_enabled(flags: Seq<bool>) -> nat
    decreases flags.len(),
{
    if flags.len() == 0 || !flags[0] {
        0
    } else {
        1 + leading_enabled(flags.skip(1))
    }
}

/// A run bounded by zero is over before it starts: the first decision is
/// `Done(0)`, with or without history, whether the machine is enabled or
/// not.
pub proof fn lemma_zero_bound_runs_nothing(recording: bool, enabled: bool)
    ensures
        RunController::started(RunLimit::AtMost(0), recording).next_action(enabled)
            == RunAction::Done(0),
{
}

/// A recorded run bounded by `n` takes one step for each leading enabled
/// reading of the flag, but no more than the bound leaves.
pub proof fn lemma_bounded_run_steps(ctl: RunController, n: usize, flags: Seq<bool>)
    requires
        ctl.limit == RunLimit::AtMost(n),
        ctl.recording,
        !ctl.finished,
        ctl.executed <= n,
    ensures
        steps_taken(ctl, flags) == if leading_enabled(flags) <= n - ctl.executed {
            leading_enabled(flags)
        } else {
            (n - ctl.executed) as nat
        },
    decreases flags.len(),
{
    if flags.len() > 0 && ctl.executed < n && flags[0] {
        lemma_bounded_run_steps(ctl.after_step(), n, flags.skip(1));
    }
}

/// An unbounded recorded run takes one step for each leading enabled
/// reading of the flag.
pub proof fn lemma_unbounded_run_steps(ctl: RunController, flags: Seq<bool>)
    requires
        ctl.limit == RunLimit::Unbounded,
        ctl.recording,
        !ctl.finished,
    ensures
        steps_taken(ctl, flags) == leading_enabled(flags),
    decreases flags.len(),
{
    if flags.len() > 0 && flags[0] {
        lemma_unbounded_run_steps(ctl.after_step(), flags.skip(1));
    }
}

/// A recorded run that comes to its end reports the instructions executed
/// before it and one for each step it took. It comes to its end where the
/// flags reach beyond its last step.
pub proof fn lemma_run_counts_its_steps(ctl: RunController, flags: Seq<bool>)
    requires
        ctl.recording,
        !ctl.finished,
        steps_taken(ctl, flags) < flags.len(),
        ctl.executed + steps_taken(ctl, flags) <= usize::MAX,
    ensures
        recorded_run(ctl, flags) == ctl.executed + steps_taken(ctl, flags),
    decreases flags.len(),
{
    if ctl.next_action(flags[0]) == RunAction::Step {
        lemma_run_counts_its_steps(ctl.after_step(), flags.skip(1));
    }
}

/// A recorded run records the state before each of its steps, in order:
/// the history it leaves is the one it found with those states pushed.
pub proof fn lemma_run_records_states<T>(
    ctl: RunController,
    flags: Seq<bool>,
    states: Seq<T>,
    history: Seq<T>,
    capacity: nat,
)
    requires
        history.len() <= capacity,
        flags.len() <= states.len(),
    ensures
        recorded_history(ctl, flags, states, history, capacity) == pushed_all(
            history,
            capacity,
            states.take(steps_taken(ctl, flags) as int),
        ),
    decreases flags.len(),
{
    let steps = steps_taken(ctl, flags);
    lemma_steps_within_flags(ctl, flags);
    lemma_history_is_newest(history, capacity, states.take(steps as int));
    if flags.len() > 0 && ctl.next_action(flags[0]) == RunAction::Step {
        let after = pushed(history, capacity, states[0]);
        let rest = states.skip(1).take(steps - 1);
        lemma_run_records_states(ctl.after_step(), flags.skip(1), states.skip(1), after, capacity);
        lemma_history_is_newest(after, capacity, rest);
        lemma_newest_append(history.push(states[0]), capacity, rest);
    }
}

/// Undo after a run. Undoing `n` of the steps of a recorded run, no more
/// than the buffer holds, restores the state that the machine was in just
/// before the `n`-th most recent of them.
pub proof fn lemma_undo_after_run<T>(
    ctl: RunController,
    flags: Seq<bool>,
    states: Seq<T>,
    history: Seq<T>,
    capacity: nat,
    n: nat,
)
    requires
        history.len() <= capacity,
        flags.len() <= states.len(),
        1 <= n <= steps_taken(ctl, flags),
        n <= capacity,
    ensures
        can_undo(recorded_history(ctl, flags, states, history, capacity), n),
        restored(recorded_history(ctl, flags, states, history, capacity), n) == states[steps_taken(
            ctl,
            flags,
        ) - n],
{
    let steps = steps_taken(ctl, flags);
    lemma_steps_within_flags(ctl, flags);
    lemma_run_records_states(ctl, flags, states, history, capacity);
    lemma_history_is_newest(history, capacity, states.take(steps as int));
}

/// A run takes no more steps than there are readings of the flag.
pub proof fn lemma_steps_within_flags(ctl: RunController, flags: Seq<bool>)
    ensures
        steps_taken(ctl, flags) <= flags.len(),
    decreases flags.len(),
{
    if flags.len() > 0 && ctl.next_action(flags[0]) == RunAction::Step {
        lemma_steps_within_flags(ctl.after_step(), flags.skip(1));
    }
}

} // verus!
