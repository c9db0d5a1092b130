//! Waiting for a helper process to become ready, by probing it.
//!
//! The wait asks for one action at a time and is told what came of it. Times are in nanoseconds;
//! the clock counts from the start of the wait.

use vstd::prelude::*;

use crate::timing::shorter;

verus! {

/// How waiting for a sidecar to become ready ended. `S` is the platform's exit status.
#[derive(Debug, Clone, Copy, PartialEq, Eq)]
pub enum Readiness<S> {
    /// The probe succeeded.
    Ready,
    /// The process exited before the probe succeeded.
    Exited(S),
    /// Neither happened before the deadline. The process is still running.
    TimedOut,
}

/// What a wait asks for.
#[derive(Debug, Clone, Copy, PartialEq, Eq, Structural)]
pub enum ReadyAction {
    /// Find out whether the process has exited, without waiting.
    CheckStatus,
    /// Call the probe.
    Probe,
    /// Read the clock.
    ReadClock,
    /// Sleep this long.
    Sleep(u128),
}

/// What came of an action. `E` is the error of a look at the process.
#[derive(Debug, Clone, Copy)]
pub enum ReadyEvent<S, E> {
    /// The exit status, if the process has exited.
    Status(Option<S>),
    /// The process could not be looked at.
    Failed(E),
    /// What the probe returned.
    Probed(bool),
    /// The time since the wait began.
    Clock(u128),
    /// The sleep is over.
    Slept,
}

/// A wait for readiness.
#[derive(Debug, Clone, Copy)]
pub struct ReadyWait {
    /// How long to wait at most.
    pub deadline: u128,
    /// How long to sleep between two probes.
    pub interval: u128,
    /// What is asked for now.
    pub action: ReadyAction,
}

/// What a wait does next.
#[derive(Debug, Clone, Copy)]
pub enum ReadyTurn<S, E> {
    /// Go on with this wait.
    Ask(ReadyWait),
    /// The wait is over.
    End(Readiness<S>),
    /// The wait ends with this error.
    Fail(E),
}

impl ReadyWait {
    /// The same wait with another action to ask for.
    pub open spec fn asking(self, action: ReadyAction) -> ReadyWait {
        ReadyWait { deadline: self.deadline, interval: self.interval, action }
    }
}

/// What a wait does on an event. An event that does not answer the action changes nothing.
pub open spec fn ready_turn<S, E>(wait: ReadyWait, event: ReadyEvent<S, E>) -> ReadyTurn<S, E> {
    match (wait.action, event) {
        (ReadyAction::CheckStatus, ReadyEvent::Status(Some(status))) => ReadyTurn::End(
            Readiness::Exited(status),
        ),
        (ReadyAction::CheckStatus, ReadyEvent::Status(None)) => ReadyTurn::Ask(
            wait.asking(ReadyAction::Probe),
        ),
        (ReadyAction::CheckStatus, ReadyEvent::Failed(error)) => ReadyTurn::Fail(error),
        (ReadyAction::Probe, ReadyEvent::Probed(true)) => ReadyTurn::End(Readiness::Ready),
        (ReadyAction::Probe, ReadyEvent::Probed(false)) => ReadyTurn::Ask(
            wait.asking(ReadyAction::ReadClock),
        ),
        (ReadyAction::ReadClock, ReadyEvent::Clock(now)) => if now >= wait.deadline {
            ReadyTurn::End(Readiness::TimedOut)
        } else {
            ReadyTurn::Ask(
                wait.asking(
                    ReadyAction::Sleep(
                        crate::timing::shorter_of(wait.interval, (wait.deadline - now) as u128),
                    ),
                ),
            )
        },
        (ReadyAction::Sleep(_), ReadyEvent::Slept) => ReadyTurn::Ask(
            wait.asking(ReadyAction::CheckStatus),
        ),
        _ => ReadyTurn::Ask(wait),
    }
}

/// A wait of at most `deadline`, which probes every `interval`.
pub open spec fn ready_start(deadline: u128, interval: u128) -> ReadyWait {
    ReadyWait { deadline, interval, action: ReadyAction::CheckStatus }
}

impl ReadyWait {
    /// A wait of at most `deadline`, which probes every `interval`. It begins by looking whether the
    /// process has exited.
    pub fn new(deadline: u128, interval: u128) -> (wait: ReadyWait)
        ensures
            wait == ready_start(deadline, interval),
    {
        ReadyWait { deadline, interval, action: ReadyAction::CheckStatus }
    }

    /// What the wait does on an event.
    pub fn next<S, E>(self, event: ReadyEvent<S, E>) -> (turn: ReadyTurn<S, E>)
        ensures
            turn == ready_turn(self, event),
    {
        let ReadyWait { deadline, interval, action } = self;
        match (action, event) {
            (ReadyAction::CheckStatus, ReadyEvent::Status(Some(status))) => ReadyTurn::End(
                Readiness::Exited(status),
            ),
            (ReadyAction::CheckStatus, ReadyEvent::Status(None)) => ReadyTurn::Ask(
                ReadyWait { deadline, interval, action: ReadyAction::Probe },
            ),
            (ReadyAction::CheckStatus, ReadyEvent::Failed(error)) => ReadyTurn::Fail(error),
            (ReadyAction::Probe, ReadyEvent::Probed(ready)) => if ready {
                ReadyTurn::End(Readiness::Ready)
            } else {
                ReadyTurn::Ask(ReadyWait { deadline, interval, action: ReadyAction::ReadClock })
            },
            (ReadyAction::ReadClock, ReadyEvent::Clock(now)) => if now >= deadline {
                ReadyTurn::End(Readiness::TimedOut)
            } else {
                let pause: u128 = shorter(interval, deadline - now);
                ReadyTurn::Ask(ReadyWait { deadline, interval, action: ReadyAction::Sleep(pause) })
            },
            (ReadyAction::Sleep(_), ReadyEvent::Slept) => ReadyTurn::Ask(
                ReadyWait { deadline, interval, action: ReadyAction::CheckStatus },
            ),
            _ => ReadyTurn::Ask(self),
        }
    }
}

/// That an event answers an action.
pub open spec fn ready_answers<S, E>(action: ReadyAction, event: ReadyEvent<S, E>) -> bool {
    match action {
        ReadyAction::CheckStatus => event is Status || event is Failed,
        ReadyAction::Probe => event is Probed,
        ReadyAction::ReadClock => event is Clock,
        ReadyAction::Sleep(_) => event is Slept,
    }
}

/// Where a wait stands after these events.
pub open spec fn ready_run<S, E>(start: ReadyWait, events: Seq<ReadyEvent<S, E>>) -> ReadyTurn<S, E>
    decreases events.len(),
{
    if events.len() == 0 {
        ReadyTurn::Ask(start)
    } else {
        match ready_run(start, events.drop_last()) {
            ReadyTurn::Ask(wait) => ready_turn(wait, events.last()),
            ended => ended,
        }
    }
}

/// That each of the events answers what the wait asked for at that point, so that no event comes
/// after its end.
pub open spec fn ready_history<S, E>(start: ReadyWait, events: Seq<ReadyEvent<S, E>>) -> bool
    decreases events.len(),
{
    events.len() == 0 || (ready_history(start, events.drop_last()) && (ready_run(
        start,
        events.drop_last(),
    ) matches ReadyTurn::Ask(wait) && ready_answers(wait.action, events.last())))
}

/// What a wait asks for depends on how many events there were.
proof fn lemma_ready_cycle<S, E>(deadline: u128, interval: u128, events: Seq<ReadyEvent<S, E>>)
    requires
        ready_history(ready_start(deadline, interval), events),
    ensures
        ready_run(ready_start(deadline, interval), events) matches ReadyTurn::Ask(wait) ==> {
            &&& wait.deadline == deadline
            &&& wait.interval == interval
            &&& wait.action is CheckStatus <==> events.len() % 4 == 0
            &&& wait.action is Probe <==> events.len() % 4 == 1
            &&& wait.action is ReadClock <==> events.len() % 4 == 2
            &&& wait.action is Sleep <==> events.len() % 4 == 3
            &&& wait.action is Probe ==> events.last() == ReadyEvent::<S, E>::Status(None)
            &&& wait.action is ReadClock ==> events.last() == ReadyEvent::<S, E>::Probed(false)
        },
    decreases events.len(),
{
    if events.len() > 0 {
        lemma_ready_cycle(deadline, interval, events.drop_last());
    }
}

/// A history of a wait, cut short, is a history.
proof fn lemma_ready_prefix<S, E>(start: ReadyWait, events: Seq<ReadyEvent<S, E>>, count: int)
    requires
        ready_history(start, events),
        0 <= count <= events.len(),
    ensures
        ready_history(start, events.take(count)),
        count < events.len() ==> (ready_run(start, events.take(count)) matches ReadyTurn::Ask(wait)
            && ready_answers(wait.action, events[count]) && ready_run(
            start,
            events.take(count + 1),
        ) == ready_turn(wait, events[count])),
    decreases events.len() - count,
{
    if count == events.len() {
        assert(events.take(count) =~= events);
    } else {
        lemma_ready_prefix(start, events, count + 1);
        assert(events.take(count + 1).drop_last() =~= events.take(count));
        assert(events.take(count + 1).last() == events[count]);
    }
}

/// The process is looked at right before every probe, and was running then.
pub proof fn law_status_is_checked_before_every_probe<S, E>(
    deadline: u128,
    interval: u128,
    events: Seq<ReadyEvent<S, E>>,
    i: int,
)
    requires
        ready_history(ready_start(deadline, interval), events),
        0 <= i < events.len(),
        events[i] is Probed,
    ensures
        i > 0,
        events[i - 1] == ReadyEvent::<S, E>::Status(None),
{
    let start = ready_start(deadline, interval);
    lemma_ready_prefix(start, events, i);
    lemma_ready_cycle(deadline, interval, events.take(i));
    assert(events.take(i).last() == events[i - 1]);
}

/// A process that has exited is reported at once: the wait ends with the look that found it, and
/// neither probes nor sleeps again.
pub proof fn law_exit_is_reported_at_once<S, E>(
    deadline: u128,
    interval: u128,
    events: Seq<ReadyEvent<S, E>>,
    i: int,
    status: S,
)
    requires
        ready_history(ready_start(deadline, interval), events),
        0 <= i < events.len(),
        events[i] == ReadyEvent::<S, E>::Status(Some(status)),
    ensures
        i == events.len() - 1,
        ready_run(ready_start(deadline, interval), events) == ReadyTurn::<S, E>::End(
            Readiness::Exited(status),
        ),
{
    let start = ready_start(deadline, interval);
    lemma_ready_prefix(start, events, i);
    if i + 1 < events.len() {
        lemma_ready_prefix(start, events, i + 1);
    } else {
        assert(events.take(i + 1) =~= events);
    }
}

/// A successful probe ends the wait at once, and nothing else makes the process ready.
pub proof fn law_ready_is_a_successful_probe<S, E>(
    deadline: u128,
    interval: u128,
    events: Seq<ReadyEvent<S, E>>,
)
    requires
        ready_history(ready_start(deadline, interval), events),
    ensures
        ready_run(ready_start(deadline, interval), events) == ReadyTurn::<S, E>::End(Readiness::Ready)
            <==> events.len() > 0 && events.last() == ReadyEvent::<S, E>::Probed(true),
{
    if events.len() > 0 {
        lemma_ready_cycle(deadline, interval, events.drop_last());
    }
}

/// The wait times out only at a clock reading at or past the deadline, right after a look that
/// found the process running and a probe that failed. So even a wait of no time probes once.
pub proof fn law_time_out_is_past_the_deadline<S, E>(
    deadline: u128,
    interval: u128,
    events: Seq<ReadyEvent<S, E>>,
)
    requires
        ready_history(ready_start(deadline, interval), events),
        ready_run(ready_start(deadline, interval), events) == ReadyTurn::<S, E>::End(
            Readiness::TimedOut,
        ),
    ensures
        events.len() >= 3,
        events.last() matches ReadyEvent::Clock(now) && now >= deadline,
        events[events.len() - 2] == ReadyEvent::<S, E>::Probed(false),
        events[events.len() - 3] == ReadyEvent::<S, E>::Status(None),
{
    let start = ready_start(deadline, interval);
    let n = events.len() as int;
    lemma_ready_cycle(deadline, interval, events.drop_last());
    assert(events.drop_last() =~= events.take(n - 1));
    assert(events.take(n - 1).last() == events[n - 2]);
    law_status_is_checked_before_every_probe(deadline, interval, events, n - 2);
}

/// A sleep is never longer than the interval and never ends past the deadline, measured from the
/// clock reading before it.
pub proof fn law_sleep_stays_within_the_deadline<S, E>(
    deadline: u128,
    interval: u128,
    events: Seq<ReadyEvent<S, E>>,
    wait: ReadyWait,
    pause: u128,
)
    requires
        ready_history(ready_start(deadline, interval), events),
        ready_run(ready_start(deadline, interval), events) == ReadyTurn::<S, E>::Ask(wait),
        wait.action == ReadyAction::Sleep(pause),
    ensures
        pause <= interval,
        events.len() > 0,
        events.last() matches ReadyEvent::Clock(now) && now < deadline && now + pause <= deadline
            && (pause == interval || now + pause == deadline),
{
    lemma_ready_cycle(deadline, interval, events);
    lemma_ready_cycle(deadline, interval, events.drop_last());
}

/// Once the clock has reached the deadline the wait asks for nothing more.
pub proof fn law_deadline_ends_the_wait<S, E>(
    deadline: u128,
    interval: u128,
    events: Seq<ReadyEvent<S, E>>,
    now: u128,
)
    requires
        ready_history(ready_start(deadline, interval), events),
        events.len() > 0,
        events.last() == ReadyEvent::<S, E>::Clock(now),
        now >= deadline,
    ensures
        ready_run(ready_start(deadline, interval), events) == ReadyTurn::<S, E>::End(
            Readiness::TimedOut,
        ),
{
    lemma_ready_cycle(deadline, interval, events.drop_last());
}

/// A look at the process that fails ends the wait at once with its error, and nothing else does:
/// the process is then neither probed nor waited for.
pub proof fn law_failed_look_ends_the_wait<S, E>(
    deadline: u128,
    interval: u128,
    events: Seq<ReadyEvent<S, E>>,
    i: int,
    error: E,
)
    requires
        ready_history(ready_start(deadline, interval), events),
    ensures
        0 <= i < events.len() && events[i] == ReadyEvent::<S, E>::Failed(error) ==> i
            == events.len() - 1 && ready_run(ready_start(deadline, interval), events)
            == ReadyTurn::<S, E>::Fail(error),
        ready_run(ready_start(deadline, interval), events) == ReadyTurn::<S, E>::Fail(error)
            ==> events.len() > 0 && events.last() == ReadyEvent::<S, E>::Failed(error),
{
    let start = ready_start(deadline, interval);
    if 0 <= i < events.len() && events[i] == ReadyEvent::<S, E>::Failed(error) {
        lemma_ready_prefix(start, events, i);
        if i + 1 < events.len() {
            lemma_ready_prefix(start, events, i + 1);
        } else {
            assert(events.take(i + 1) =~= events);
        }
    }
}

/// The wait goes on as long as nothing ends it, and gets on: it begins with a look at the process;
/// a look that shows it running is followed by a probe, a probe that fails by a reading of the
/// clock, a reading before the deadline by a sleep of the interval, or of what is left if that is
/// less, and a sleep by the next look.
pub proof fn law_ready_wait_gets_on<S, E>(
    deadline: u128,
    interval: u128,
    events: Seq<ReadyEvent<S, E>>,
)
    requires
        ready_history(ready_start(deadline, interval), events),
    ensures
        events.len() == 0 ==> (ready_run(
            ready_start(deadline, interval),
            events,
        ) matches ReadyTurn::Ask(wait) && wait.action == ReadyAction::CheckStatus),
        events.len() > 0 && events.last() == ReadyEvent::<S, E>::Status(None) ==> (ready_run(
            ready_start(deadline, interval),
            events,
        ) matches ReadyTurn::Ask(wait) && wait.action == ReadyAction::Probe),
        events.len() > 0 && events.last() == ReadyEvent::<S, E>::Probed(false) ==> (ready_run(
            ready_start(deadline, interval),
            events,
        ) matches ReadyTurn::Ask(wait) && wait.action == ReadyAction::ReadClock),
        events.len() > 0 && (events.last() matches ReadyEvent::Clock(now) && now < deadline) ==> (
        ready_run(ready_start(deadline, interval), events) matches ReadyTurn::Ask(wait)
            && wait.action is Sleep),
        events.len() > 0 ==> (events.last() matches ReadyEvent::Clock(now) ==> (ready_run(
            ready_start(deadline, interval),
            events,
        ) matches ReadyTurn::Ask(wait) ==> wait.action == ReadyAction::Sleep(
            if interval <= deadline - now {
                interval
            } else {
                (deadline - now) as u128
            },
        ))),
        events.len() > 0 && events.last() is Slept ==> (ready_run(
            ready_start(deadline, interval),
            events,
        ) matches ReadyTurn::Ask(wait) && wait.action == ReadyAction::CheckStatus),
{
    if events.len() > 0 {
        lemma_ready_cycle(deadline, interval, events.drop_last());
    }
}

/// The wait ends exactly when the process was seen to have exited, a probe succeeded, the clock was
/// read at or past the deadline, or a look failed; and it ends in just that.
pub proof fn law_ready_wait_ends<S, E>(
    deadline: u128,
    interval: u128,
    events: Seq<ReadyEvent<S, E>>,
    status: S,
    error: E,
)
    requires
        ready_history(ready_start(deadline, interval), events),
        events.len() > 0,
    ensures
        ready_run(ready_start(deadline, interval), events) == ReadyTurn::<S, E>::End(
            Readiness::Exited(status),
        ) <==> events.last() == ReadyEvent::<S, E>::Status(Some(status)),
        ready_run(ready_start(deadline, interval), events) == ReadyTurn::<S, E>::End(
            Readiness::Ready,
        ) <==> events.last() == ReadyEvent::<S, E>::Probed(true),
        ready_run(ready_start(deadline, interval), events) == ReadyTurn::<S, E>::End(
            Readiness::TimedOut,
        ) <==> (events.last() matches ReadyEvent::Clock(now) && now >= deadline),
        ready_run(ready_start(deadline, interval), events) == ReadyTurn::<S, E>::Fail(error)
            <==> events.last() == ReadyEvent::<S, E>::Failed(error),
{
    lemma_ready_cycle(deadline, interval, events.drop_last());
}

/// What was not asked for changes nothing.
pub proof fn law_ready_wait_takes_answers_only<S, E>(wait: ReadyWait, event: ReadyEvent<S, E>)
    requires
        !match wait.action {
            ReadyAction::CheckStatus => event is Status || event is Failed,
            ReadyAction::Probe => event is Probed,
            ReadyAction::ReadClock => event is Clock,
            ReadyAction::Sleep(_) => event is Slept,
        },
    ensures
        ready_turn(wait, event) == ReadyTurn::<S, E>::Ask(wait),
{
}

/// Every wait can be told what it asked for, and then does what [`ReadyWait::next`] does: a history
/// goes on with any answer.
pub proof fn law_ready_history_goes_on<S, E>(
    start: ReadyWait,
    events: Seq<ReadyEvent<S, E>>,
    wait: ReadyWait,
    event: ReadyEvent<S, E>,
)
    requires
        ready_history(start, events),
        ready_run(start, events) == ReadyTurn::<S, E>::Ask(wait),
        match wait.action {
            ReadyAction::CheckStatus => event is Status || event is Failed,
            ReadyAction::Probe => event is Probed,
            ReadyAction::ReadClock => event is Clock,
            ReadyAction::Sleep(_) => event is Slept,
        },
    ensures
        ready_history(start, events.push(event)),
        ready_run(start, events.push(event)) == ready_turn(wait, event),
        ready_history(start, Seq::<ReadyEvent<S, E>>::empty()),
        ready_run(start, Seq::<ReadyEvent<S, E>>::empty()) == ReadyTurn::<S, E>::Ask(start),
{
    assert(events.push(event).drop_last() =~= events);
}

} // verus!
