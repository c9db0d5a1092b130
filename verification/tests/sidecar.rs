//! Helper processes: starting, waiting and stopping, with scripted systems in place of real ones.

use std::path::PathBuf;

use tauri_kit::lines::{
    drain_first, drain_next, line_text, send_first, send_next, DrainAction, DrainEvent, DrainTurn,
    LineAction, LineEvent, LineReadiness, LineTurn, LineWait, NoLines, SendAction, SendEvent,
    SendTurn,
};
use tauri_kit::output::{Output, Sink, Stream};
use tauri_kit::readiness::{Readiness, ReadyAction, ReadyEvent, ReadyTurn, ReadyWait};
use tauri_kit::shutdown::{Shutdown, ShutdownAction, ShutdownEvent, ShutdownTurn};
use tauri_kit::spawn::{Spawn, SpawnAction, SpawnEnd, SpawnEvent, SpawnTurn};
use tauri_kit::timing::{shorter, POLL};
use tauri_kit::tree::{
    adopt_first, adopt_next, child_end, child_kill_outcome, console_flags, group_kill_outcome,
    is_running,
    job_kill_outcome, wait_status, JobStep, JobTurn, ProcessEnd, Watch, CREATE_NO_WINDOW,
};

const MILLI: u128 = 1_000_000;
const SECOND: u128 = 1_000_000_000;

/// Runs a wait against a process that exits with a code at some time, if ever, and a probe that
/// succeeds at its n-th call, if ever. Returns the end, the time and the number of probes.
fn wait_ready(
    deadline: u128,
    interval: u128,
    exit: Option<(u128, i32)>,
    ready_at: Option<u32>,
) -> (Readiness<i32>, u128, u32) {
    let mut wait = ReadyWait::new(deadline, interval);
    let mut now: u128 = 0;
    let mut probes: u32 = 0;
    loop {
        let event: ReadyEvent<i32, u8> = match wait.action {
            ReadyAction::CheckStatus => {
                ReadyEvent::Status(exit.filter(|e| e.0 <= now).map(|e| e.1))
            }
            ReadyAction::Probe => {
                probes += 1;
                ReadyEvent::Probed(Some(probes) == ready_at)
            }
            ReadyAction::ReadClock => ReadyEvent::Clock(now),
            ReadyAction::Sleep(length) => {
                now += length;
                ReadyEvent::Slept
            }
        };
        match wait.next(event) {
            ReadyTurn::Ask(next) => wait = next,
            ReadyTurn::End(end) => return (end, now, probes),
            ReadyTurn::Fail(_) => panic!("no look fails"),
        }
    }
}

#[test]
fn a_crash_during_startup_is_reported_at_once() {
    let (end, now, probes) = wait_ready(30 * SECOND, 50 * MILLI, Some((0, 3)), None);
    assert_eq!(end, Readiness::Exited(3));
    assert_eq!((now, probes), (0, 0));
    let (end, now, _) = wait_ready(30 * SECOND, 50 * MILLI, Some((120 * MILLI, 3)), None);
    assert_eq!(end, Readiness::Exited(3));
    assert_eq!(now, 150 * MILLI);
}

#[test]
fn readiness_is_reported_when_the_probe_succeeds() {
    let (end, now, probes) = wait_ready(10 * SECOND, 10 * MILLI, None, Some(3));
    assert_eq!(end, Readiness::Ready);
    assert_eq!((now, probes), (20 * MILLI, 3));
}

#[test]
fn waiting_stops_at_the_deadline_and_leaves_the_sidecar_running() {
    let (end, now, probes) = wait_ready(200 * MILLI, 20 * MILLI, None, None);
    assert_eq!(end, Readiness::TimedOut);
    assert_eq!((now, probes), (200 * MILLI, 11));
}

#[test]
fn the_last_sleep_is_cut_at_the_deadline() {
    let (end, now, probes) = wait_ready(50 * MILLI, 40 * MILLI, None, None);
    assert_eq!(end, Readiness::TimedOut);
    assert_eq!((now, probes), (50 * MILLI, 3));
}

#[test]
fn a_wait_of_no_time_probes_once() {
    assert_eq!(wait_ready(0, 10, None, Some(1)), (Readiness::Ready, 0, 1));
    assert_eq!(wait_ready(0, 10, None, None), (Readiness::TimedOut, 0, 1));
}

#[test]
fn an_event_out_of_turn_changes_nothing() {
    let wait = ReadyWait::new(5, 1);
    match wait.next(ReadyEvent::<i32, u8>::Probed(true)) {
        ReadyTurn::Ask(next) => assert_eq!(next.action, ReadyAction::CheckStatus),
        _ => panic!("the wait ended"),
    }
}

#[test]
fn a_failed_look_ends_a_wait_with_its_error() {
    let wait = ReadyWait::new(5, 1);
    let failed: ReadyEvent<i32, &str> = ReadyEvent::Failed("gone");
    assert!(matches!(wait.next(failed), ReadyTurn::Fail("gone")));

    let wait: LineWait<i32> = LineWait::new(true, 5).unwrap();
    let failed: LineEvent<i32, &str> = LineEvent::Failed("gone");
    assert!(matches!(wait.next(failed), LineTurn::Fail("gone")));
}

/// Tells a shutdown these events, and returns what it does after the last.
fn after_events(
    grace: u128,
    events: Vec<ShutdownEvent<i32, &'static str>>,
) -> ShutdownTurn<i32, &'static str> {
    let mut turn = ShutdownTurn::Ask(Shutdown::new(grace, None));
    for event in events {
        turn = match turn {
            ShutdownTurn::Ask(shutdown) => shutdown.next(event),
            ended => ended,
        };
    }
    turn
}

#[test]
fn a_failure_ends_a_shutdown_with_its_error() {
    let look = vec![
        ShutdownEvent::StopRequested,
        ShutdownEvent::Clock(0),
        ShutdownEvent::Failed("look"),
    ];
    assert!(matches!(after_events(10, look), ShutdownTurn::Fail("look")));
    let kill = vec![
        ShutdownEvent::StopRequested,
        ShutdownEvent::Clock(10),
        ShutdownEvent::Failed("kill"),
    ];
    assert!(matches!(after_events(10, kill), ShutdownTurn::Fail("kill")));
    let reap = vec![
        ShutdownEvent::StopRequested,
        ShutdownEvent::Clock(10),
        ShutdownEvent::Killed,
        ShutdownEvent::Failed("reap"),
    ];
    assert!(matches!(after_events(10, reap), ShutdownTurn::Fail("reap")));
}

#[test]
fn the_status_that_was_seen_is_the_one_reported() {
    let seen = vec![
        ShutdownEvent::StopRequested,
        ShutdownEvent::Clock(0),
        ShutdownEvent::Status(Some(3)),
        ShutdownEvent::Killed,
        ShutdownEvent::Reaped(9),
    ];
    assert!(matches!(after_events(10, seen), ShutdownTurn::End(3)));
}

/// Runs a shutdown of a process that exits with 3 at some time, if ever, and with 9 when killed.
/// Returns the actions, the status and the time.
fn shut_down(grace: u128, exit_at: Option<u128>) -> (Vec<ShutdownAction>, i32, u128) {
    shut_down_seen(grace, exit_at, None)
}

/// The same for a process that was seen to have exited with this status, if it was.
fn shut_down_seen(
    grace: u128,
    exit_at: Option<u128>,
    seen: Option<i32>,
) -> (Vec<ShutdownAction>, i32, u128) {
    let mut shutdown = Shutdown::new(grace, seen);
    let mut actions = Vec::new();
    let mut now: u128 = 0;
    loop {
        actions.push(shutdown.action);
        let exited = exit_at.filter(|at| *at <= now).map(|_| 3);
        let event: ShutdownEvent<i32, u8> = match shutdown.action {
            ShutdownAction::RequestStop => ShutdownEvent::StopRequested,
            ShutdownAction::ReadClock => ShutdownEvent::Clock(now),
            ShutdownAction::CheckStatus => ShutdownEvent::Status(exited),
            ShutdownAction::Sleep(length) => {
                now += length;
                ShutdownEvent::Slept
            }
            ShutdownAction::KillTree => ShutdownEvent::Killed,
            ShutdownAction::Reap => ShutdownEvent::Reaped(exited.unwrap_or(9)),
        };
        match shutdown.next(event) {
            ShutdownTurn::Ask(next) => shutdown = next,
            ShutdownTurn::End(status) => return (actions, status, now),
            ShutdownTurn::Fail(_) => panic!("no action fails"),
        }
    }
}

#[test]
fn shutdown_stops_what_the_sidecar_started() {
    let (actions, status, now) = shut_down(0, None);
    assert_eq!(
        actions,
        vec![
            ShutdownAction::RequestStop,
            ShutdownAction::ReadClock,
            ShutdownAction::KillTree,
            ShutdownAction::Reap
        ]
    );
    assert_eq!((status, now), (9, 0));
}

#[test]
fn the_tree_is_killed_even_when_the_sidecar_has_exited() {
    let (actions, status, now) = shut_down(2 * SECOND, Some(30 * MILLI));
    assert_eq!(
        actions,
        vec![
            ShutdownAction::RequestStop,
            ShutdownAction::ReadClock,
            ShutdownAction::CheckStatus,
            ShutdownAction::Sleep(20 * MILLI),
            ShutdownAction::ReadClock,
            ShutdownAction::CheckStatus,
            ShutdownAction::Sleep(20 * MILLI),
            ShutdownAction::ReadClock,
            ShutdownAction::CheckStatus,
            ShutdownAction::KillTree,
            ShutdownAction::Reap
        ]
    );
    assert_eq!((status, now), (3, 40 * MILLI));
}

#[test]
fn shutdown_waits_no_longer_than_the_grace_period() {
    let (actions, status, now) = shut_down(50 * MILLI, None);
    assert_eq!((status, now), (9, 50 * MILLI));
    assert!(actions.contains(&ShutdownAction::Sleep(10 * MILLI)));
}

#[test]
fn the_exit_status_is_kept_when_it_is_read_early() {
    // The status is looked at before the tree is killed, and reported after the process is
    // released: looking does not use it up.
    assert_eq!(shut_down(SECOND, Some(0)).1, 3);
    assert_eq!(shut_down(0, Some(0)).1, 3);
    assert_eq!(wait_status(ProcessEnd::Exited(3)), 0x300);
    let exited: Result<Option<i32>, u8> = Ok(Some(3));
    assert!(!is_running(&exited));
    // A process that was seen to have exited before is neither looked at nor waited for.
    let (actions, status, now) = shut_down_seen(SECOND, Some(0), Some(3));
    assert_eq!(
        actions,
        vec![
            ShutdownAction::RequestStop,
            ShutdownAction::ReadClock,
            ShutdownAction::KillTree,
            ShutdownAction::Reap
        ]
    );
    assert_eq!((status, now), (3, 0));
}

#[test]
fn an_exit_is_reported_for_good() {
    let mut watch: Watch<i32> = Watch::new();
    let running: Result<Option<i32>, u8> = watch.report(Ok(None));
    assert!(is_running(&running));
    assert_eq!(watch.report::<u8>(Err(1)), Err(1));
    assert_eq!(watch.report::<u8>(Ok(Some(3))), Ok(Some(3)));
    assert_eq!(watch.seen, Some(3));
    for later in [Ok(None), Err(1), Ok(Some(9))] {
        let look: Result<Option<i32>, u8> = watch.report(later);
        assert_eq!(look, Ok(Some(3)));
        assert!(!is_running(&look));
    }
}

#[test]
fn the_end_of_a_child_is_read_from_what_the_system_says() {
    let end = |pid, code, status| child_end(pid, code, status, 1, 3);
    assert_eq!(end(0, 1, 7), None);
    assert_eq!(end(42, 1, 7), Some(ProcessEnd::Exited(7)));
    assert_eq!(end(42, 2, 9), Some(ProcessEnd::Killed(9)));
    assert_eq!(end(42, 3, 11), Some(ProcessEnd::Dumped(11)));
    // Only the low byte of an exit code is kept.
    assert_eq!(end(42, 1, 0x1_07), Some(ProcessEnd::Exited(7)));
    assert_eq!(end(42, 1, -1), Some(ProcessEnd::Exited(255)));
}

#[test]
fn wait_statuses() {
    assert_eq!(wait_status(ProcessEnd::Exited(0)), 0);
    assert_eq!(wait_status(ProcessEnd::Exited(255)), 0xff00);
    assert_eq!(wait_status(ProcessEnd::Killed(9)), 9);
    assert_eq!(wait_status(ProcessEnd::Dumped(11)), 0x8b);
    // The signal in the low seven bits, the core dump in the next, the code in the second byte.
    for n in 1..127u8 {
        assert_eq!(wait_status(ProcessEnd::Killed(n)) & 0x7f, n as i32);
        assert_eq!(wait_status(ProcessEnd::Killed(n)) & 0x80, 0);
        assert_eq!(wait_status(ProcessEnd::Dumped(n)) & 0xff, n as i32 | 0x80);
        assert_eq!(wait_status(ProcessEnd::Exited(n)) >> 8, n as i32);
        assert_eq!(wait_status(ProcessEnd::Exited(n)) & 0x7f, 0);
    }
}

#[test]
fn running_is_an_ok_look_without_a_status() {
    let running: Result<Option<i32>, u8> = Ok(None);
    let failed: Result<Option<i32>, u8> = Err(1);
    assert!(is_running(&running));
    assert!(!is_running(&failed));
}

/// Runs a wait for a line that starts with a brace. The script holds what taking a line gives, in
/// order, and nothing comes after it; the process exits with 4 at some time, if ever.
fn wait_line(
    deadline: u128,
    script: Vec<LineEvent<i32, u8>>,
    exit_at: Option<u128>,
) -> (LineReadiness<i32>, u128) {
    let mut wait: LineWait<i32> = LineWait::new(true, deadline).unwrap();
    let mut script = script.into_iter();
    let mut now: u128 = 0;
    loop {
        let event = match wait.action {
            LineAction::CheckStatus => {
                LineEvent::Status(exit_at.filter(|at| *at <= now).map(|_| 4))
            }
            LineAction::TakeLine(length) => match script.next() {
                Some(event) => event,
                None => {
                    now += length;
                    LineEvent::NoLine
                }
            },
            LineAction::ReadClock => LineEvent::Clock(now),
            LineAction::Sleep(length) => {
                now += length;
                LineEvent::Slept
            }
        };
        match wait.next(event) {
            LineTurn::Ask(next) => wait = next,
            LineTurn::End(end) => return (end, now),
            LineTurn::Fail(_) => panic!("no look fails"),
        }
    }
}

fn printed(text: &str) -> LineEvent<i32, u8> {
    LineEvent::Line(text.to_string(), text.starts_with('{'))
}

#[test]
fn a_readiness_line_is_returned_as_soon_as_it_is_printed() {
    let script = vec![printed("noise"), printed("{\"port\":51233}")];
    let (end, now) = wait_line(20 * SECOND, script, None);
    assert_eq!(end, LineReadiness::Line("{\"port\":51233}".to_owned()));
    assert_eq!(now, 0);
}

#[test]
fn a_line_printed_before_the_exit_still_counts() {
    let script = vec![printed("noise"), printed("{}")];
    let (end, _) = wait_line(20 * SECOND, script, Some(0));
    assert_eq!(end, LineReadiness::Line("{}".to_owned()));
}

#[test]
fn a_crash_before_the_readiness_line_is_reported_at_once() {
    let (end, now) = wait_line(30 * SECOND, vec![printed("starting")], Some(0));
    assert_eq!(end, LineReadiness::Exited(4));
    assert!(now <= POLL, "waited out the deadline instead");
    let script = vec![printed("starting"), LineEvent::Closed];
    let (end, now) = wait_line(30 * SECOND, script, Some(5 * MILLI));
    assert_eq!(end, LineReadiness::Exited(4));
    assert_eq!(now, POLL);
    let script = vec![printed("starting"), LineEvent::Closed];
    assert_eq!(wait_line(30 * SECOND, script, Some(0)), (LineReadiness::Exited(4), 0));
}

#[test]
fn a_crash_is_reported_soon_even_if_the_output_stays_open() {
    // The process exits at once; one that it started keeps printing, a line every millisecond.
    let mut wait: LineWait<i32> = LineWait::new(true, 30 * SECOND).unwrap();
    let mut now: u128 = 0;
    let end = loop {
        let event: LineEvent<i32, u8> = match wait.action {
            LineAction::CheckStatus => LineEvent::Status(Some(4)),
            LineAction::TakeLine(_) => {
                now += MILLI;
                LineEvent::Line("noise".to_string(), false)
            }
            LineAction::ReadClock => LineEvent::Clock(now),
            LineAction::Sleep(_) => panic!("slept after the exit"),
        };
        match wait.next(event) {
            LineTurn::Ask(next) => wait = next,
            LineTurn::End(end) => break end,
            LineTurn::Fail(_) => panic!("no look fails"),
        }
    };
    assert_eq!(end, LineReadiness::Exited(4));
    assert_eq!(now, POLL);
}

#[test]
fn waiting_for_a_line_stops_at_the_deadline() {
    let (end, now) = wait_line(300 * MILLI, vec![], None);
    assert_eq!(end, LineReadiness::TimedOut);
    assert_eq!(now, 300 * MILLI);
    let (end, now) = wait_line(50 * MILLI, vec![LineEvent::Closed], None);
    assert_eq!(end, LineReadiness::TimedOut);
    assert_eq!(now, 50 * MILLI);
}

#[test]
fn a_wait_on_closed_output_ends_with_the_exit_or_at_the_deadline() {
    let (end, now) = wait_line(SECOND, vec![LineEvent::Closed], Some(30 * MILLI));
    assert_eq!(end, LineReadiness::Exited(4));
    assert_eq!(now, 40 * MILLI);
    let (end, now) = wait_line(SECOND, vec![LineEvent::Closed], None);
    assert_eq!((end, now), (LineReadiness::TimedOut, SECOND));
}

#[test]
fn waiting_for_a_line_needs_lines_output() {
    let refused: Result<LineWait<i32>, NoLines> = LineWait::new(false, 10 * MILLI);
    assert_eq!(refused.unwrap_err(), NoLines);
    assert!(Output::Discard.sinks().stdout.is_none());
    assert!(matches!(
        (Output::Lines { stderr: None }).sinks().stdout,
        Some(Sink::Lines)
    ));
}

#[test]
fn lines_lose_their_ending_only() {
    assert_eq!(line_text(b"ready\n"), "ready");
    assert_eq!(line_text(b"ready\r\n"), "ready");
    assert_eq!(line_text(b"ready"), "ready");
    assert_eq!(line_text(b"a\rb\r"), "a\rb\r");
    assert_eq!(line_text(b"\n"), "");
    assert_eq!(line_text(b""), "");
    assert_eq!(line_text(b"\n\n"), "\n");
    assert_eq!(line_text(b"caf\xc3\xa9\xff!\n"), "caf\u{e9}\u{fffd}!");
}

/// Copies scripted lines; returns the appended texts and whether the rest was dropped.
fn drain(opens: bool, lines: Vec<&[u8]>) -> (Vec<String>, bool) {
    let mut lines = lines.into_iter();
    let mut appended = Vec::new();
    let mut dropped = false;
    let mut action = drain_first();
    loop {
        let event = match &action {
            DrainAction::OpenFile => DrainEvent::Opened(opens),
            DrainAction::ReadLine => match lines.next() {
                Some(line) => DrainEvent::Line(line.to_vec()),
                None => DrainEvent::Finished,
            },
            DrainAction::Append(text) => {
                appended.push(text.clone());
                DrainEvent::Appended
            }
            DrainAction::DropRest => {
                dropped = true;
                DrainEvent::Finished
            }
        };
        match drain_next(action, event) {
            DrainTurn::Ask(next) => action = next,
            DrainTurn::End => return (appended, dropped),
        }
    }
}

#[test]
fn output_is_written_to_files() {
    let (appended, dropped) = drain(true, vec![b"hello\n", b"oo\xffps\n", b"end"]);
    assert_eq!(appended, vec!["hello\n", "oo\u{fffd}ps\n", "end"]);
    assert!(!dropped);
}

#[test]
fn output_without_a_file_is_still_read() {
    let (appended, dropped) = drain(false, vec![b"hello\n"]);
    assert!(appended.is_empty());
    assert!(dropped);
}

/// Hands out scripted lines to a reader that takes the first `wanted` of them; returns those that
/// were handed out and how many were read.
fn hand_out(lines: Vec<&[u8]>, wanted: usize) -> (Vec<String>, usize) {
    let mut lines = lines.into_iter();
    let mut sent = Vec::new();
    let mut read: usize = 0;
    let mut action = send_first();
    loop {
        let event = match &action {
            SendAction::ReadLine { .. } => match lines.next() {
                Some(line) => {
                    read += 1;
                    SendEvent::Line(line.to_vec())
                }
                None => SendEvent::Finished,
            },
            SendAction::Send(text) => {
                sent.push(text.clone());
                SendEvent::Sent(sent.len() <= wanted)
            }
        };
        match send_next(action, event) {
            SendTurn::Ask(next) => action = next,
            SendTurn::End => return (sent, read),
        }
    }
}

#[test]
fn output_after_the_readiness_line_keeps_being_drained() {
    let noise: &[u8] = b"xxxxxxxxxxxxxxxxxxxxxxxxxxxxxxxxxxxxxxxxxxxxxxxx\n";
    let mut lines: Vec<&[u8]> = vec![b"ready\n"];
    lines.extend(std::iter::repeat(noise).take(20000));
    let (sent, read) = hand_out(lines, 1);
    assert_eq!(read, 20001);
    assert_eq!(sent[0], "ready");
    // The line that nobody took is the last that was handed out.
    assert_eq!(sent.len(), 2);
}

#[test]
fn lines_are_handed_out_without_their_ending() {
    let (sent, read) = hand_out(vec![b"a\n", b"b\r\n", b"c\xff"], 3);
    assert_eq!(sent, vec!["a", "b", "c\u{fffd}"]);
    assert_eq!(read, 3);
}

#[test]
fn streams_follow_the_output() {
    let discard = Output::Discard.streams();
    assert_eq!(
        (discard.stdin, discard.stdout, discard.stderr),
        (Stream::Null, Stream::Null, Stream::Null)
    );
    let files = Output::Files { stdout: PathBuf::from("o"), stderr: PathBuf::from("e") };
    let streams = files.streams();
    assert_eq!(
        (streams.stdin, streams.stdout, streams.stderr),
        (Stream::Null, Stream::Piped, Stream::Piped)
    );
    let sinks = files.sinks();
    assert!(matches!(sinks.stdout, Some(Sink::File(p)) if p == PathBuf::from("o")));
    assert!(matches!(sinks.stderr, Some(Sink::File(p)) if p == PathBuf::from("e")));
    let lines = Output::Lines { stderr: None }.streams();
    assert_eq!((lines.stdout, lines.stderr), (Stream::Piped, Stream::Null));
    let both = Output::Lines { stderr: Some(PathBuf::from("e")) };
    assert_eq!(both.streams().stderr, Stream::Piped);
    assert!(matches!(both.sinks().stderr, Some(Sink::File(_))));
}

/// Runs a start in which the actions at these places fail, each with its place as the error;
/// returns the actions and the end.
fn start(output: &Output, failing: &[usize]) -> (Vec<SpawnAction<usize>>, SpawnEnd<usize>) {
    let mut spawn: Spawn<usize> = Spawn::new(output);
    let mut actions = Vec::new();
    loop {
        let at = actions.len();
        actions.push(spawn.action.clone());
        let event = if failing.contains(&at) {
            SpawnEvent::Failed(at)
        } else {
            SpawnEvent::Done
        };
        match spawn.next(event) {
            SpawnTurn::Ask(next) => spawn = next,
            SpawnTurn::End(end) => return (actions, end),
        }
    }
}

#[test]
fn a_start_prepares_then_starts_then_reads() {
    let output = Output::Lines { stderr: None };
    let (actions, end) = start(&output, &[]);
    assert_eq!(
        actions,
        vec![
            SpawnAction::HideConsole,
            SpawnAction::Connect(output.streams()),
            SpawnAction::Prepare,
            SpawnAction::Start,
            SpawnAction::Adopt,
            SpawnAction::ReadPipes
        ]
    );
    assert_eq!(end, SpawnEnd::Running);
}

#[test]
fn a_child_that_cannot_be_adopted_is_killed_and_released() {
    let expected = vec![SpawnAction::Adopt, SpawnAction::KillChild(4), SpawnAction::ReapChild(4)];
    let (actions, end) = start(&Output::Discard, &[4]);
    assert_eq!(end, SpawnEnd::NotAdopted(4));
    assert_eq!(actions[4..].to_vec(), expected);
    // That killing and releasing it fail changes nothing.
    let (actions, end) = start(&Output::Discard, &[4, 5, 6]);
    assert_eq!(end, SpawnEnd::NotAdopted(4));
    assert_eq!(actions[4..].to_vec(), expected);
}

#[test]
fn a_child_that_cannot_be_started_ends_the_start() {
    let (actions, end) = start(&Output::Discard, &[3]);
    assert_eq!((actions.len(), end), (4, SpawnEnd::NotStarted(3)));
}

/// Adopts a child with steps that fail at these places, each with its place as the error; returns
/// the steps and the end.
fn adopt(failing: &[usize]) -> (Vec<JobStep<usize>>, Result<(), usize>) {
    let mut step: JobStep<usize> = adopt_first();
    let mut steps = Vec::new();
    loop {
        let at = steps.len();
        steps.push(step.clone());
        let result = if failing.contains(&at) { Err(at) } else { Ok(()) };
        match adopt_next(step, result) {
            JobTurn::Ask(next) => step = next,
            JobTurn::Adopted => return (steps, Ok(())),
            JobTurn::Failed(error) => return (steps, Err(error)),
        }
    }
}

#[test]
fn a_job_is_closed_when_a_later_step_fails() {
    let all = vec![JobStep::Create, JobStep::LimitToJob, JobStep::Assign];
    assert_eq!(adopt(&[]), (all, Ok(())));
    assert_eq!(adopt(&[0]), (vec![JobStep::Create], Err(0)));
    let closed = vec![JobStep::Create, JobStep::LimitToJob, JobStep::Close(1)];
    assert_eq!(adopt(&[1]), (closed, Err(1)));
    // The error is that of the step that failed first, not that of closing the job.
    let closed = vec![JobStep::Create, JobStep::LimitToJob, JobStep::Assign, JobStep::Close(2)];
    assert_eq!(adopt(&[2, 3]), (closed, Err(2)));
}

#[test]
fn killing_what_is_gone_is_not_an_error() {
    assert_eq!(group_kill_outcome(0, 0, 3), Ok(()));
    assert_eq!(group_kill_outcome(0, 1, 3), Ok(()));
    assert_eq!(group_kill_outcome(-1, 3, 3), Ok(()));
    assert_eq!(group_kill_outcome(-1, 1, 3), Err(1));
    assert_eq!(job_kill_outcome(1, 5), Ok(()));
    assert_eq!(job_kill_outcome(0, 5), Err(5));
    assert_eq!(child_kill_outcome(Err('e'), true), Ok(()));
    assert_eq!(child_kill_outcome(Err('e'), false), Err('e'));
    assert_eq!(child_kill_outcome(Ok::<(), char>(()), false), Ok(()));
}

#[test]
fn the_console_is_hidden_on_windows_only() {
    assert_eq!(CREATE_NO_WINDOW, 0x0800_0000);
    assert_eq!(console_flags(true), Some(0x0800_0000));
    assert_eq!(console_flags(false), None);
    assert_eq!((shorter(1, 2), shorter(2, 1)), (1, 1));
}
