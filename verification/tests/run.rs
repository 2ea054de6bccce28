use lc3dbg::run::{
    is_clock_enabled, parse_run_limit, with_clock, RunAction, RunController, RunLimit,
    CLOCK_ENABLE,
};
use lc3dbg::undo::UndoBuffer;

/// A machine that counts instructions and clears its enable flag after `halts_after` of them.
struct Machine {
    executed: u32,
    halts_after: u32,
}

impl Machine {
    fn enabled(&self) -> bool {
        self.executed < self.halts_after
    }
}

fn drive(limit: RunLimit, machine: &mut Machine, history: &mut Option<UndoBuffer<u32>>) -> usize {
    let mut ctl = RunController::start(limit, history.is_some());
    loop {
        match ctl.next(machine.enabled()) {
            RunAction::Done(n) => return n,
            RunAction::Step => {
                ctl.record(history.as_mut().unwrap(), machine.executed);
                machine.executed += 1;
            }
            RunAction::Delegate(limit) => {
                let mut count: usize = 0;
                while machine.enabled() && limit != RunLimit::AtMost(count) {
                    machine.executed += 1;
                    count += 1;
                }
                ctl.delegated(count);
            }
        }
    }
}

#[test]
fn run_bounded_by_zero_executes_nothing() {
    for recording in [false, true] {
        for enabled in [false, true] {
            let ctl = RunController::start(RunLimit::AtMost(0), recording);
            assert_eq!(ctl.next(enabled), RunAction::Done(0));
        }
    }
    let mut machine = Machine { executed: 0, halts_after: 5 };
    assert_eq!(drive(RunLimit::AtMost(0), &mut machine, &mut Some(UndoBuffer::new(4))), 0);
    assert_eq!(machine.executed, 0);
    assert_eq!(drive(RunLimit::AtMost(0), &mut machine, &mut None), 0);
    assert_eq!(machine.executed, 0);
}

#[test]
fn recorded_run_stops_at_the_bound() {
    let mut machine = Machine { executed: 0, halts_after: 10 };
    let mut history = Some(UndoBuffer::new(8));
    assert_eq!(drive(RunLimit::AtMost(3), &mut machine, &mut history), 3);
    assert_eq!(machine.executed, 3);
    let mut buffer = history.unwrap();
    assert_eq!(buffer.depth(), 3);
    assert_eq!(buffer.undo(1), Ok(2));
    assert_eq!(buffer.undo(2), Ok(0));
}

#[test]
fn recorded_run_stops_when_the_machine_halts() {
    let mut machine = Machine { executed: 0, halts_after: 2 };
    let mut history = Some(UndoBuffer::new(8));
    assert_eq!(drive(RunLimit::AtMost(5), &mut machine, &mut history), 2);
    assert_eq!(history.unwrap().depth(), 2);
}

#[test]
fn unbounded_recorded_run_stops_when_the_machine_halts() {
    let mut machine = Machine { executed: 0, halts_after: 6 };
    let mut history = Some(UndoBuffer::new(4));
    assert_eq!(drive(RunLimit::Unbounded, &mut machine, &mut history), 6);
    let mut buffer = history.unwrap();
    assert_eq!(buffer.depth(), 4);
    assert_eq!(buffer.undo(4), Ok(2));
}

#[test]
fn run_of_a_disabled_machine_executes_nothing() {
    let mut machine = Machine { executed: 3, halts_after: 3 };
    assert_eq!(drive(RunLimit::Unbounded, &mut machine, &mut Some(UndoBuffer::new(4))), 0);
    assert_eq!(drive(RunLimit::AtMost(9), &mut machine, &mut Some(UndoBuffer::new(4))), 0);
    assert_eq!(drive(RunLimit::Unbounded, &mut machine, &mut None), 0);
}

#[test]
fn run_without_history_is_delegated() {
    let ctl = RunController::start(RunLimit::AtMost(7), false);
    assert_eq!(ctl.next(true), RunAction::Delegate(RunLimit::AtMost(7)));
    assert_eq!(ctl.next(false), RunAction::Delegate(RunLimit::AtMost(7)));
    let free = RunController::start(RunLimit::Unbounded, false);
    assert_eq!(free.next(true), RunAction::Delegate(RunLimit::Unbounded));
    let mut machine = Machine { executed: 0, halts_after: 10 };
    assert_eq!(drive(RunLimit::AtMost(4), &mut machine, &mut None), 4);
    assert_eq!(drive(RunLimit::Unbounded, &mut machine, &mut None), 6);
}

#[test]
fn delegated_run_ends_with_its_count() {
    let mut ctl = RunController::start(RunLimit::AtMost(7), false);
    ctl.delegated(5);
    assert_eq!(ctl.next(true), RunAction::Done(5));
    assert_eq!(ctl.executed, 5);
    assert!(ctl.finished);
}

#[test]
fn recording_counts_and_pushes() {
    let mut ctl = RunController::start(RunLimit::AtMost(2), true);
    let mut history: UndoBuffer<u32> = UndoBuffer::new(4);
    assert_eq!(ctl.next(true), RunAction::Step);
    ctl.record(&mut history, 100);
    assert_eq!(ctl.executed, 1);
    assert_eq!(ctl.next(true), RunAction::Step);
    ctl.record(&mut history, 101);
    assert_eq!(ctl.next(true), RunAction::Done(2));
    assert_eq!(history.depth(), 2);
    assert_eq!(history.undo(1), Ok(101));
}

#[test]
fn count_is_held_at_the_largest_number() {
    let mut ctl = RunController::start(RunLimit::Unbounded, false);
    ctl.delegated(usize::MAX);
    ctl.delegated(1);
    assert_eq!(ctl.executed, usize::MAX);
    let mut stepping = RunController {
        limit: RunLimit::Unbounded,
        recording: true,
        executed: usize::MAX,
        finished: false,
    };
    let mut history: UndoBuffer<u32> = UndoBuffer::new(1);
    stepping.record(&mut history, 0);
    assert_eq!(stepping.executed, usize::MAX);
}

#[test]
fn run_limit_from_the_command() {
    assert_eq!(parse_run_limit(None), Ok(RunLimit::Unbounded));
    assert_eq!(parse_run_limit(Some("5")), Ok(RunLimit::AtMost(5)));
    assert_eq!(parse_run_limit(Some("0")), Ok(RunLimit::AtMost(0)));
    assert_eq!(parse_run_limit(Some("+12")), Ok(RunLimit::AtMost(12)));
}

#[test]
fn malformed_run_limit_is_refused() {
    assert!(parse_run_limit(Some("-1")).is_err());
    assert!(parse_run_limit(Some("abc")).is_err());
    assert!(parse_run_limit(Some("")).is_err());
    assert!(parse_run_limit(Some("x10")).is_err());
    assert!(parse_run_limit(Some("3 ")).is_err());
    assert!(parse_run_limit(Some("99999999999999999999999999")).is_err());
}

#[test]
fn clock_enable_bit() {
    assert_eq!(CLOCK_ENABLE, 0x8000);
    assert!(is_clock_enabled(0x8000));
    assert!(is_clock_enabled(0xFFFF));
    assert!(!is_clock_enabled(0x7FFF));
    assert!(!is_clock_enabled(0));
}

#[test]
fn turning_the_clock_on_and_off() {
    assert_eq!(with_clock(0x0000, true), 0x8000);
    assert_eq!(with_clock(0x8000, true), 0x8000);
    assert_eq!(with_clock(0x1234, true), 0x9234);
    assert_eq!(with_clock(0x9234, false), 0x1234);
    assert_eq!(with_clock(0x7FFF, false), 0x7FFF);
    assert_eq!(with_clock(0xFFFF, false), 0x7FFF);
}
