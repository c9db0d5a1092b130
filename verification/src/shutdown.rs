//! Stopping a helper process and everything it started.
//!
//! The shutdown asks for one action at a time and is told what came of it. Times are in
//! nanoseconds; the clock counts from the moment at which the process was asked to stop.

use vstd::prelude::*;

use crate::timing::{shorter, POLL};

verus! {

/// What a shutdown asks for. An action that fails ends the shutdown with its error.
#[derive(Debug, Clone, Copy, PartialEq, Eq, Structural)]
pub enum ShutdownAction {
    /// Ask the process group to stop, where the platform has a way of asking.
    RequestStop,
    /// Read the clock.
    ReadClock,
    /// Find out whether the process has exited, without waiting and without releasing its id.
    CheckStatus,
    /// Sleep this long.
    Sleep(u128),
    /// Kill the whole tree at once.
    KillTree,
    /// Wait for the process and release its id.
    Reap,
}

/// What came of an action. `S` is the platform's exit status, `E` the error of an action.
#[derive(Debug, Clone, Copy)]
pub enum ShutdownEvent<S, E> {
    /// The process group was asked to stop.
    StopRequested,
    /// The time since it was.
    Clock(u128),
    /// The exit status, if the process has exited.
    Status(Option<S>),
    /// The sleep is over.
    Slept,
    /// The tree was killed.
    Killed,
    /// The process was waited for; it exited with this status.
    Reaped(S),
    /// The process could not be looked at, killed or waited for.
    Failed(E),
}

/// A shutdown.
#[derive(Debug, Clone, Copy)]
pub struct Shutdown<S> {
    /// How long the process may take to exit on its own.
    pub grace: u128,
    /// How much of that was left at the last reading of the clock.
    pub left: u128,
    /// The exit status, once the process was seen to have exited.
    pub seen: Option<S>,
    /// What is asked for now.
    pub action: ShutdownAction,
}

/// What a shutdown does next.
#[derive(Debug, Clone, Copy)]
pub enum ShutdownTurn<S, E> {
    /// Go on with this shutdown.
    Ask(Shutdown<S>),
    /// The tree is stopped; the process exited with this status.
    End(S),
    /// The shutdown ends with this error.
    Fail(E),
}

impl<S> Shutdown<S> {
    /// The same shutdown with another action to ask for.
    pub open spec fn asking(self, action: ShutdownAction) -> Shutdown<S> {
        Shutdown { action, ..self }
    }
}

/// The first action of a shutdown of a process that was seen to have exited with the status `seen`,
/// or was not seen to have exited.
pub open spec fn shutdown_start<S>(grace: u128, seen: Option<S>) -> Shutdown<S> {
    Shutdown { grace, left: grace, seen, action: ShutdownAction::RequestStop }
}

/// What a shutdown does on an event. An event that does not answer the action changes nothing.
pub open spec fn shutdown_turn<S, E>(
    shutdown: Shutdown<S>,
    event: ShutdownEvent<S, E>,
) -> ShutdownTurn<S, E> {
    match (shutdown.action, event) {
        (ShutdownAction::RequestStop, ShutdownEvent::StopRequested) => ShutdownTurn::Ask(
            shutdown.asking(ShutdownAction::ReadClock),
        ),
        (ShutdownAction::ReadClock, ShutdownEvent::Clock(now)) => if now < shutdown.grace
            && shutdown.seen is None {
            ShutdownTurn::Ask(
                Shutdown {
                    left: (shutdown.grace - now) as u128,
                    action: ShutdownAction::CheckStatus,
                    ..shutdown
                },
            )
        } else {
            ShutdownTurn::Ask(shutdown.asking(ShutdownAction::KillTree))
        },
        (ShutdownAction::CheckStatus, ShutdownEvent::Status(Some(status))) => ShutdownTurn::Ask(
            Shutdown { seen: Some(status), action: ShutdownAction::KillTree, ..shutdown },
        ),
        (ShutdownAction::CheckStatus, ShutdownEvent::Status(None)) => ShutdownTurn::Ask(
            shutdown.asking(ShutdownAction::Sleep(crate::timing::shorter_of(POLL, shutdown.left))),
        ),
        (ShutdownAction::Sleep(_), ShutdownEvent::Slept) => ShutdownTurn::Ask(
            shutdown.asking(ShutdownAction::ReadClock),
        ),
        (ShutdownAction::KillTree, ShutdownEvent::Killed) => ShutdownTurn::Ask(
            shutdown.asking(ShutdownAction::Reap),
        ),
        (ShutdownAction::Reap, ShutdownEvent::Reaped(status)) => ShutdownTurn::End(
            match shutdown.seen {
                Some(seen) => seen,
                None => status,
            },
        ),
        (ShutdownAction::CheckStatus, ShutdownEvent::Failed(error)) => ShutdownTurn::Fail(error),
        (ShutdownAction::KillTree, ShutdownEvent::Failed(error)) => ShutdownTurn::Fail(error),
        (ShutdownAction::Reap, ShutdownEvent::Failed(error)) => ShutdownTurn::Fail(error),
        _ => ShutdownTurn::Ask(shutdown),
    }
}

impl<S> Shutdown<S> {
    /// A shutdown that gives the process this long to exit on its own; `seen` is the status that it
    /// was seen to have exited with before, if it was.
    pub fn new(grace: u128, seen: Option<S>) -> (shutdown: Shutdown<S>)
        ensures
            shutdown == shutdown_start(grace, seen),
    {
        Shutdown { grace, left: grace, seen, action: ShutdownAction::RequestStop }
    }

    /// What the shutdown does on an event.
    pub fn next<E>(self, event: ShutdownEvent<S, E>) -> (turn: ShutdownTurn<S, E>)
        ensures
            turn == shutdown_turn(self, event),
    {
        let Shutdown { grace, left, seen, action } = self;
        match (action, event) {
            (ShutdownAction::RequestStop, ShutdownEvent::StopRequested) => ShutdownTurn::Ask(
                Shutdown { grace, left, seen, action: ShutdownAction::ReadClock },
            ),
            (ShutdownAction::ReadClock, ShutdownEvent::Clock(now)) => if now < grace
                && seen.is_none() {
                let action = ShutdownAction::CheckStatus;
                ShutdownTurn::Ask(Shutdown { grace, left: grace - now, seen, action })
            } else {
                ShutdownTurn::Ask(Shutdown { grace, left, seen, action: ShutdownAction::KillTree })
            },
            (ShutdownAction::CheckStatus, ShutdownEvent::Status(Some(status))) => {
                let action = ShutdownAction::KillTree;
                ShutdownTurn::Ask(Shutdown { grace, left, seen: Some(status), action })
            },
            (ShutdownAction::CheckStatus, ShutdownEvent::Status(None)) => {
                let action = ShutdownAction::Sleep(shorter(POLL, left));
                ShutdownTurn::Ask(Shutdown { grace, left, seen, action })
            },
            (ShutdownAction::Sleep(_), ShutdownEvent::Slept) => ShutdownTurn::Ask(
                Shutdown { grace, left, seen, action: ShutdownAction::ReadClock },
            ),
            (ShutdownAction::KillTree, ShutdownEvent::Killed) => ShutdownTurn::Ask(
                Shutdown { grace, left, seen, action: ShutdownAction::Reap },
            ),
            (ShutdownAction::Reap, ShutdownEvent::Reaped(status)) => match seen {
                Some(seen) => ShutdownTurn::End(seen),
                None => ShutdownTurn::End(status),
            },
            (ShutdownAction::CheckStatus, ShutdownEvent::Failed(error)) => ShutdownTurn::Fail(
                error,
            ),
            (ShutdownAction::KillTree, ShutdownEvent::Failed(error)) => ShutdownTurn::Fail(error),
            (ShutdownAction::Reap, ShutdownEvent::Failed(error)) => ShutdownTurn::Fail(error),
            _ => ShutdownTurn::Ask(Shutdown { grace, left, seen, action }),
        }
    }
}

/// That an event answers an action.
pub open spec fn shutdown_answers<S, E>(action: ShutdownAction, event: ShutdownEvent<S, E>) -> bool {
    match action {
        ShutdownAction::RequestStop => event is StopRequested,
        ShutdownAction::ReadClock => event is Clock,
        ShutdownAction::CheckStatus => event is Status || event is Failed,
        ShutdownAction::Sleep(_) => event is Slept,
        ShutdownAction::KillTree => event is Killed || event is Failed,
        ShutdownAction::Reap => event is Reaped || event is Failed,
    }
}

/// Where a shutdown stands after these events.
pub open spec fn shutdown_run<S, E>(
    start: Shutdown<S>,
    events: Seq<ShutdownEvent<S, E>>,
) -> ShutdownTurn<S, E>
    decreases events.len(),
{
    if events.len() == 0 {
        ShutdownTurn::Ask(start)
    } else {
        match shutdown_run(start, events.drop_last()) {
            ShutdownTurn::Ask(shutdown) => shutdown_turn(shutdown, events.last()),
            ended => ended,
        }
    }
}

/// That each of the events answers what the shutdown asked for at that point, so that no event
/// comes after its end.
pub open spec fn shutdown_history<S, E>(
    start: Shutdown<S>,
    events: Seq<ShutdownEvent<S, E>>,
) -> bool
    decreases events.len(),
{
    events.len() == 0 || (shutdown_history(start, events.drop_last()) && (shutdown_run(
        start,
        events.drop_last(),
    ) matches ShutdownTurn::Ask(shutdown) && shutdown_answers(shutdown.action, events.last())))
}

/// What a shutdown asks for, told by the last event, and which events there were.
proof fn lemma_shutdown_stands<S, E>(
    grace: u128,
    seen: Option<S>,
    events: Seq<ShutdownEvent<S, E>>,
)
    requires
        shutdown_history(shutdown_start(grace, seen), events),
    ensures
        shutdown_run(shutdown_start(grace, seen), events) matches ShutdownTurn::Ask(shutdown) ==> {
            &&& shutdown.grace == grace
            &&& shutdown.action is RequestStop <==> events.len() == 0
            &&& events.len() > 0 ==> events[0] is StopRequested
            &&& shutdown.action is CheckStatus ==> shutdown.seen is None && (
            events.last() matches ShutdownEvent::Clock(now) && now < grace && shutdown.left == grace
                - now)
            &&& shutdown.action is Sleep ==> shutdown.seen is None && events.len() >= 2
                && events.last() == ShutdownEvent::<S, E>::Status(None) && (events[events.len()
                - 2] matches ShutdownEvent::Clock(now) && now < grace && shutdown.action
                == ShutdownAction::Sleep(crate::timing::shorter_of(POLL, (grace - now) as u128)))
            &&& shutdown.action is KillTree ==> (events.last() matches ShutdownEvent::Status(
                Some(_),
            ) || (events.last() matches ShutdownEvent::Clock(now) && (now >= grace
                || seen is Some)))
            &&& shutdown.action is Reap <==> events.len() > 0 && events.last() is Killed
            &&& seen is Some ==> shutdown.seen == seen
            &&& shutdown.seen is Some && seen is None ==> shutdown.action is KillTree
                || shutdown.action is Reap
            &&& shutdown.seen is None ==> forall|i: int|
                0 <= i < events.len() ==> !(#[trigger] events[i] matches ShutdownEvent::Status(
                    Some(_),
                ))
            &&& forall|i: int|
                0 <= i < events.len() && (#[trigger] events[i] matches ShutdownEvent::Status(
                    Some(_),
                )) ==> shutdown.seen == events[i]->Status_0 && (shutdown.action is KillTree
                    || shutdown.action is Reap)
        },
        shutdown_run(shutdown_start(grace, seen), events) is Ask ==> forall|i: int|
            0 <= i < events.len() ==> !(#[trigger] events[i] is Reaped) && !(events[i] is Failed),
        shutdown_run(shutdown_start(grace, seen), events) is End <==> events.len() > 0
            && events.last() is Reaped,
        shutdown_run(shutdown_start(grace, seen), events) matches ShutdownTurn::Fail(error)
            ==> events.len() > 0 && events.last() == ShutdownEvent::<S, E>::Failed(error),
        events.len() > 0 ==> (events.last() matches ShutdownEvent::Failed(error) ==> shutdown_run(
            shutdown_start(grace, seen),
            events,
        ) == ShutdownTurn::<S, E>::Fail(error)),
    decreases events.len(),
{
    if events.len() > 0 {
        let earlier = events.drop_last();
        lemma_shutdown_stands(grace, seen, earlier);
        if earlier.len() > 0 {
            assert(earlier[0] == events[0]);
            assert(earlier.last() == events[events.len() - 2]);
        }
        assert(forall|i: int| 0 <= i < earlier.len() ==> #[trigger] events[i] == earlier[i]);
    }
}

/// A history of a shutdown, cut short, is a history.
proof fn lemma_shutdown_prefix<S, E>(
    start: Shutdown<S>,
    events: Seq<ShutdownEvent<S, E>>,
    count: int,
)
    requires
        shutdown_history(start, events),
        0 <= count <= events.len(),
    ensures
        shutdown_history(start, events.take(count)),
        count < events.len() ==> (shutdown_run(
            start,
            events.take(count),
        ) matches ShutdownTurn::Ask(shutdown) && shutdown_answers(shutdown.action, events[count])),
    decreases events.len() - count,
{
    if count == events.len() {
        assert(events.take(count) =~= events);
    } else {
        lemma_shutdown_prefix(start, events, count + 1);
        assert(events.take(count + 1).drop_last() =~= events.take(count));
        assert(events.take(count + 1).last() == events[count]);
    }
}

/// A shutdown that ends has killed the tree, whether the process itself had exited before or not,
/// then released the process, and reports the status it exited with.
pub proof fn law_shutdown_kills_the_tree<S, E>(
    grace: u128,
    seen: Option<S>,
    events: Seq<ShutdownEvent<S, E>>,
    status: S,
)
    requires
        shutdown_history(shutdown_start(grace, seen), events),
        shutdown_run(shutdown_start(grace, seen), events) == ShutdownTurn::<S, E>::End(status),
    ensures
        events.len() >= 2,
        events[events.len() - 2] is Killed,
        events.last() is Reaped,
        events.last() == ShutdownEvent::<S, E>::Reaped(status) || seen == Some(status) || exists|
            i: int,
        |
            0 <= i < events.len() && #[trigger] events[i] == ShutdownEvent::<S, E>::Status(
                Some(status),
            ),
{
    let earlier = events.drop_last();
    lemma_shutdown_stands(grace, seen, events);
    lemma_shutdown_stands(grace, seen, earlier);
    assert(earlier.last() == events[events.len() - 2]);
    lemma_seen_from(grace, seen, earlier);
    let shutdown = shutdown_run(shutdown_start(grace, seen), earlier)->Ask_0;
    if shutdown.seen is Some && seen != Some(status) {
        let i = choose|i: int|
            0 <= i < earlier.len() && #[trigger] earlier[i] == ShutdownEvent::<S, E>::Status(
                Some(status),
            );
        assert(events[i] == earlier[i]);
    }
}

/// A status that a shutdown remembers was given to it or was looked at.
proof fn lemma_seen_from<S, E>(grace: u128, seen: Option<S>, events: Seq<ShutdownEvent<S, E>>)
    requires
        shutdown_history(shutdown_start(grace, seen), events),
    ensures
        shutdown_run(shutdown_start(grace, seen), events) matches ShutdownTurn::Ask(shutdown) ==> (
        shutdown.seen matches Some(status) ==> seen == Some(status) || exists|i: int|
            0 <= i < events.len() && #[trigger] events[i] == ShutdownEvent::<S, E>::Status(
                Some(status),
            )),
    decreases events.len(),
{
    if events.len() > 0 {
        let earlier = events.drop_last();
        lemma_seen_from(grace, seen, earlier);
        let before = shutdown_run(shutdown_start(grace, seen), earlier)->Ask_0;
        if before.seen is Some && before.seen != seen {
            let i = choose|i: int|
                0 <= i < earlier.len() && #[trigger] earlier[i] == ShutdownEvent::<S, E>::Status(
                    before.seen,
                );
            assert(events[i] == earlier[i]);
        }
        assert(events[events.len() - 1] == events.last());
    }
}

/// The process keeps its id until the tree is killed: it is released once, as the very last thing.
pub proof fn law_id_is_kept_until_the_tree_is_killed<S, E>(
    grace: u128,
    seen: Option<S>,
    events: Seq<ShutdownEvent<S, E>>,
    i: int,
)
    requires
        shutdown_history(shutdown_start(grace, seen), events),
        0 <= i < events.len(),
        events[i] is Reaped,
    ensures
        i == events.len() - 1,
        i > 0,
        events[i - 1] is Killed,
{
    let start = shutdown_start(grace, seen);
    if i < events.len() - 1 {
        lemma_shutdown_prefix(start, events, i + 1);
        lemma_shutdown_stands(grace, seen, events.take(i + 1));
        assert(events.take(i + 1)[i] == events[i]);
    }
    lemma_shutdown_prefix(start, events, i);
    lemma_shutdown_stands(grace, seen, events.take(i));
    assert(events.take(i).last() == events[i - 1]);
}

/// The tree is killed only when the process was seen to have exited or the grace period is over.
pub proof fn law_grace_is_given<S, E>(
    grace: u128,
    seen: Option<S>,
    events: Seq<ShutdownEvent<S, E>>,
    i: int,
)
    requires
        shutdown_history(shutdown_start(grace, seen), events),
        0 <= i < events.len(),
        events[i] is Killed,
    ensures
        i > 0,
        seen is Some || events[i - 1] matches ShutdownEvent::Status(Some(_)) || (events[i
            - 1] matches ShutdownEvent::Clock(now) && now >= grace),
{
    let start = shutdown_start(grace, seen);
    lemma_shutdown_prefix(start, events, i);
    lemma_shutdown_stands(grace, seen, events.take(i));
    assert(events.take(i).last() == events[i - 1]);
}

/// A shutdown waits no longer than the grace period: a sleep never ends past it, measured from the
/// clock reading before it, and comes only after a look that showed the process running.
pub proof fn law_sleep_stays_within_the_grace<S, E>(
    grace: u128,
    seen: Option<S>,
    events: Seq<ShutdownEvent<S, E>>,
    shutdown: Shutdown<S>,
    length: u128,
)
    requires
        shutdown_history(shutdown_start(grace, seen), events),
        shutdown_run(shutdown_start(grace, seen), events) == ShutdownTurn::<S, E>::Ask(shutdown),
        shutdown.action == ShutdownAction::Sleep(length),
    ensures
        length <= POLL,
        events.len() >= 2,
        events.last() == ShutdownEvent::<S, E>::Status(None),
        events[events.len() - 2] matches ShutdownEvent::Clock(now) && now + length <= grace,
{
    lemma_shutdown_stands(grace, seen, events);
}

/// The process is asked to stop before anything else.
pub proof fn law_stop_is_requested_first<S, E>(
    grace: u128,
    seen: Option<S>,
    events: Seq<ShutdownEvent<S, E>>,
)
    requires
        shutdown_history(shutdown_start(grace, seen), events),
        events.len() > 0,
    ensures
        events[0] is StopRequested,
{
    lemma_shutdown_prefix(shutdown_start(grace, seen), events, 0);
    assert(events.take(0) =~= Seq::empty());
}

/// Once the process was seen to have exited, before the shutdown or during it, the shutdown neither
/// waits for it nor looks at it again, and the status that it reports is the one that was seen.
pub proof fn law_seen_status_is_reported<S, E>(
    grace: u128,
    seen: Option<S>,
    events: Seq<ShutdownEvent<S, E>>,
    status: S,
)
    requires
        shutdown_history(shutdown_start(grace, seen), events),
        seen == Some(status) || (seen is None && exists|i: int|
            0 <= i < events.len() && #[trigger] events[i] == ShutdownEvent::<S, E>::Status(
                Some(status),
            )),
    ensures
        shutdown_run(shutdown_start(grace, seen), events) matches ShutdownTurn::Ask(shutdown) ==> !(
        shutdown.action is Sleep) && !(shutdown.action is CheckStatus),
        shutdown_run(shutdown_start(grace, seen), events) matches ShutdownTurn::End(reported)
            ==> reported == status,
{
    lemma_shutdown_stands(grace, seen, events);
    if seen is None {
        let i = choose|i: int|
            0 <= i < events.len() && #[trigger] events[i] == ShutdownEvent::<S, E>::Status(
                Some(status),
            );
        assert(events[i] matches ShutdownEvent::Status(Some(_)));
    }
    if events.len() > 0 {
        let earlier = events.drop_last();
        lemma_shutdown_stands(grace, seen, earlier);
        if seen is None && events.last() is Reaped {
            let i = choose|i: int|
                0 <= i < events.len() && #[trigger] events[i] == ShutdownEvent::<S, E>::Status(
                    Some(status),
                );
            assert(earlier[i] == events[i]);
            assert(earlier[i] matches ShutdownEvent::Status(Some(_)));
        }
    }
}

/// An action that fails, a look at the process, killing the tree or waiting for the process, ends
/// the shutdown at once with its error, and nothing else does.
pub proof fn law_failure_ends_the_shutdown<S, E>(
    grace: u128,
    seen: Option<S>,
    events: Seq<ShutdownEvent<S, E>>,
    i: int,
    error: E,
)
    requires
        shutdown_history(shutdown_start(grace, seen), events),
    ensures
        0 <= i < events.len() && events[i] == ShutdownEvent::<S, E>::Failed(error) ==> i
            == events.len() - 1 && shutdown_run(shutdown_start(grace, seen), events)
            == ShutdownTurn::<S, E>::Fail(error),
        shutdown_run(shutdown_start(grace, seen), events) == ShutdownTurn::<S, E>::Fail(error)
            ==> events.len() > 0 && events.last() == ShutdownEvent::<S, E>::Failed(error),
{
    lemma_shutdown_stands(grace, seen, events);
    if 0 <= i < events.len() - 1 && events[i] == ShutdownEvent::<S, E>::Failed(error) {
        lemma_shutdown_prefix(shutdown_start(grace, seen), events, i + 1);
        lemma_shutdown_stands(grace, seen, events.take(i + 1));
        assert(events.take(i + 1)[i] == events[i]);
    }
}

/// A shutdown gets on, whatever it is told, and the tree is killed in the end. Once the process was
/// asked to stop, the clock is read. A reading at or past the grace period is followed by killing
/// the tree, and so is any reading if the process was seen to have exited; an earlier reading is
/// followed by a look at the process. A look that finds it exited is followed by killing the tree,
/// one that shows it running by a sleep and then the next reading. The tree being killed is
/// followed by releasing the process.
pub proof fn law_shutdown_gets_on<S, E>(
    grace: u128,
    seen: Option<S>,
    events: Seq<ShutdownEvent<S, E>>,
)
    requires
        shutdown_history(shutdown_start(grace, seen), events),
    ensures
        events.len() == 0 ==> (shutdown_run(
            shutdown_start(grace, seen),
            events,
        ) matches ShutdownTurn::Ask(shutdown) && shutdown.action == ShutdownAction::RequestStop),
        events.len() > 0 && (events.last() is StopRequested || events.last() is Slept) ==> (
        shutdown_run(shutdown_start(grace, seen), events) matches ShutdownTurn::Ask(shutdown)
            && shutdown.action == ShutdownAction::ReadClock),
        events.len() > 0 && (events.last() matches ShutdownEvent::Clock(now) && (now >= grace
            || seen is Some)) ==> (shutdown_run(
            shutdown_start(grace, seen),
            events,
        ) matches ShutdownTurn::Ask(shutdown) && shutdown.action == ShutdownAction::KillTree),
        events.len() > 0 && (events.last() matches ShutdownEvent::Clock(now) && now < grace)
            && seen is None ==> (shutdown_run(
            shutdown_start(grace, seen),
            events,
        ) matches ShutdownTurn::Ask(shutdown) && shutdown.action == ShutdownAction::CheckStatus),
        events.len() > 0 && (events.last() matches ShutdownEvent::Status(Some(_))) ==> (shutdown_run(
            shutdown_start(grace, seen),
            events,
        ) matches ShutdownTurn::Ask(shutdown) && shutdown.action == ShutdownAction::KillTree),
        events.len() > 0 && events.last() == ShutdownEvent::<S, E>::Status(None) ==> (shutdown_run(
            shutdown_start(grace, seen),
            events,
        ) matches ShutdownTurn::Ask(shutdown) && shutdown.action is Sleep),
        events.len() > 0 && events.last() is Killed ==> (shutdown_run(
            shutdown_start(grace, seen),
            events,
        ) matches ShutdownTurn::Ask(shutdown) && shutdown.action == ShutdownAction::Reap),
        events.len() > 0 && events.last() is Reaped ==> shutdown_run(
            shutdown_start(grace, seen),
            events,
        ) is End,
        events.len() > 0 ==> (events.last() matches ShutdownEvent::Failed(error) ==> shutdown_run(
            shutdown_start(grace, seen),
            events,
        ) == ShutdownTurn::<S, E>::Fail(error)),
{
    lemma_shutdown_stands(grace, seen, events);
    if events.len() > 0 {
        lemma_shutdown_stands(grace, seen, events.drop_last());
    }
}

/// The pause between two looks is the usual one, or what is left of the grace period at the last
/// reading of the clock if that is less.
pub proof fn law_shutdown_pauses<S, E>(
    grace: u128,
    seen: Option<S>,
    events: Seq<ShutdownEvent<S, E>>,
    now: u128,
)
    requires
        shutdown_history(shutdown_start(grace, seen), events),
        events.len() >= 2,
        events.last() == ShutdownEvent::<S, E>::Status(None),
        events[events.len() - 2] == ShutdownEvent::<S, E>::Clock(now),
    ensures
        now < grace,
        shutdown_run(shutdown_start(grace, seen), events) matches ShutdownTurn::Ask(shutdown)
            && shutdown.action == ShutdownAction::Sleep(
            if POLL <= grace - now {
                POLL
            } else {
                (grace - now) as u128
            },
        ),
{
    lemma_shutdown_stands(grace, seen, events);
    lemma_shutdown_stands(grace, seen, events.drop_last());
    assert(events.drop_last().last() == events[events.len() - 2]);
}

/// A process that no look found exited is reported with the status it was released with.
pub proof fn law_unseen_status_is_that_of_the_release<S, E>(
    grace: u128,
    events: Seq<ShutdownEvent<S, E>>,
    status: S,
)
    requires
        shutdown_history(shutdown_start(grace, None::<S>), events),
        events.len() > 0,
        events.last() == ShutdownEvent::<S, E>::Reaped(status),
        forall|i: int|
            0 <= i < events.len() ==> !(#[trigger] events[i] matches ShutdownEvent::Status(Some(_))),
    ensures
        shutdown_run(shutdown_start(grace, None::<S>), events) == ShutdownTurn::<S, E>::End(status),
{
    let earlier = events.drop_last();
    lemma_shutdown_stands(grace, None, events);
    lemma_shutdown_stands(grace, None, earlier);
    lemma_seen_from(grace, None, earlier);
    assert(forall|i: int| 0 <= i < earlier.len() ==> #[trigger] earlier[i] == events[i]);
}

/// What was not asked for changes nothing.
pub proof fn law_shutdown_takes_answers_only<S, E>(
    shutdown: Shutdown<S>,
    event: ShutdownEvent<S, E>,
)
    requires
        !match shutdown.action {
            ShutdownAction::RequestStop => event is StopRequested,
            ShutdownAction::ReadClock => event is Clock,
            ShutdownAction::CheckStatus => event is Status || event is Failed,
            ShutdownAction::Sleep(_) => event is Slept,
            ShutdownAction::KillTree => event is Killed || event is Failed,
            ShutdownAction::Reap => event is Reaped || event is Failed,
        },
    ensures
        shutdown_turn(shutdown, event) == ShutdownTurn::<S, E>::Ask(shutdown),
{
}

/// Every shutdown can be told what it asked for, and then does what [`Shutdown::next`] does: a
/// history goes on with any answer.
pub proof fn law_shutdown_history_goes_on<S, E>(
    start: Shutdown<S>,
    events: Seq<ShutdownEvent<S, E>>,
    shutdown: Shutdown<S>,
    event: ShutdownEvent<S, E>,
)
    requires
        shutdown_history(start, events),
        shutdown_run(start, events) == ShutdownTurn::<S, E>::Ask(shutdown),
        match shutdown.action {
            ShutdownAction::RequestStop => event is StopRequested,
            ShutdownAction::ReadClock => event is Clock,
            ShutdownAction::CheckStatus => event is Status || event is Failed,
            ShutdownAction::Sleep(_) => event is Slept,
            ShutdownAction::KillTree => event is Killed || event is Failed,
            ShutdownAction::Reap => event is Reaped || event is Failed,
        },
    ensures
        shutdown_history(start, events.push(event)),
        shutdown_run(start, events.push(event)) == shutdown_turn(shutdown, event),
        shutdown_history(start, Seq::<ShutdownEvent<S, E>>::empty()),
        shutdown_run(start, Seq::<ShutdownEvent<S, E>>::empty()) == ShutdownTurn::<S, E>::Ask(start),
{
    assert(events.push(event).drop_last() =~= events);
}

} // verus!
