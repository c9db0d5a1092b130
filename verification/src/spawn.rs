//! Starting a helper process.
//!
//! The start asks for one action at a time and is told what came of it.

use vstd::prelude::*;

use crate::output::{Output, Streams};

verus! {

/// What a start asks for. `E` is the error of an action.
#[derive(Debug, Clone, PartialEq, Eq)]
pub enum SpawnAction<E> {
    /// Keep the child from getting a console window of its own.
    HideConsole,
    /// Connect the child's standard streams.
    Connect(Streams),
    /// Have the child placed where its whole tree can be stopped together.
    Prepare,
    /// Start the child.
    Start,
    /// Take hold of the running child's tree.
    Adopt,
    /// Kill the child, whose tree could not be taken hold of because of this error; that killing it
    /// fails is no reason to stop.
    KillChild(E),
    /// Wait for that child and release its id; that it fails is no reason to stop.
    ReapChild(E),
    /// Begin to read the pipes.
    ReadPipes,
}

/// What came of an action.
#[derive(Debug, Clone, PartialEq, Eq)]
pub enum SpawnEvent<E> {
    /// It is done.
    Done,
    /// It failed with this error.
    Failed(E),
}

/// How a start ended.
#[derive(Debug, Clone, PartialEq, Eq)]
pub enum SpawnEnd<E> {
    /// The child is running.
    Running,
    /// The child could not be started; the error is that of the start.
    NotStarted(E),
    /// The child's tree could not be taken hold of; the error is that of the attempt.
    NotAdopted(E),
}

/// A start.
#[derive(Debug, Clone, PartialEq, Eq)]
pub struct Spawn<E> {
    /// What the child's streams are to be connected to.
    pub streams: Streams,
    /// What is asked for now.
    pub action: SpawnAction<E>,
}

/// What a start does next.
#[derive(Debug, Clone, PartialEq, Eq)]
pub enum SpawnTurn<E> {
    /// Go on with this start.
    Ask(Spawn<E>),
    /// The start is over.
    End(SpawnEnd<E>),
}

impl<E> Spawn<E> {
    /// The same start with another action to ask for.
    pub open spec fn asking(self, action: SpawnAction<E>) -> Spawn<E> {
        Spawn { streams: self.streams, action }
    }
}

/// The first action of a start.
pub open spec fn spawn_start<E>(output: Output) -> Spawn<E> {
    Spawn { streams: crate::output::streams_of(output), action: SpawnAction::HideConsole }
}

/// What a start does on an event. Only starting the child and taking hold of its tree can fail.
pub open spec fn spawn_turn<E>(spawn: Spawn<E>, event: SpawnEvent<E>) -> SpawnTurn<E> {
    match spawn.action {
        SpawnAction::HideConsole => SpawnTurn::Ask(
            spawn.asking(SpawnAction::Connect(spawn.streams)),
        ),
        SpawnAction::Connect(_) => SpawnTurn::Ask(spawn.asking(SpawnAction::Prepare)),
        SpawnAction::Prepare => SpawnTurn::Ask(spawn.asking(SpawnAction::Start)),
        SpawnAction::Start => match event {
            SpawnEvent::Done => SpawnTurn::Ask(spawn.asking(SpawnAction::Adopt)),
            SpawnEvent::Failed(error) => SpawnTurn::End(SpawnEnd::NotStarted(error)),
        },
        SpawnAction::Adopt => match event {
            SpawnEvent::Done => SpawnTurn::Ask(spawn.asking(SpawnAction::ReadPipes)),
            SpawnEvent::Failed(error) => SpawnTurn::Ask(
                spawn.asking(SpawnAction::KillChild(error)),
            ),
        },
        SpawnAction::KillChild(error) => SpawnTurn::Ask(spawn.asking(SpawnAction::ReapChild(error))),
        SpawnAction::ReapChild(error) => SpawnTurn::End(SpawnEnd::NotAdopted(error)),
        SpawnAction::ReadPipes => SpawnTurn::End(SpawnEnd::Running),
    }
}

impl<E> Spawn<E> {
    /// A start of a child whose output goes where `output` says.
    pub fn new(output: &Output) -> (spawn: Spawn<E>)
        ensures
            spawn == spawn_start::<E>(*output),
    {
        Spawn { streams: output.streams(), action: SpawnAction::HideConsole }
    }

    /// What the start does on an event.
    pub fn next(self, event: SpawnEvent<E>) -> (turn: SpawnTurn<E>)
        ensures
            turn == spawn_turn(self, event),
    {
        let streams = self.streams;
        let action = match (self.action, event) {
            (SpawnAction::HideConsole, _) => SpawnAction::Connect(streams),
            (SpawnAction::Connect(_), _) => SpawnAction::Prepare,
            (SpawnAction::Prepare, _) => SpawnAction::Start,
            (SpawnAction::Start, SpawnEvent::Done) => SpawnAction::Adopt,
            (SpawnAction::Start, SpawnEvent::Failed(error)) => {
                return SpawnTurn::End(SpawnEnd::NotStarted(error));
            },
            (SpawnAction::Adopt, SpawnEvent::Done) => SpawnAction::ReadPipes,
            (SpawnAction::Adopt, SpawnEvent::Failed(error)) => SpawnAction::KillChild(error),
            (SpawnAction::KillChild(error), _) => SpawnAction::ReapChild(error),
            (SpawnAction::ReapChild(error), _) => {
                return SpawnTurn::End(SpawnEnd::NotAdopted(error));
            },
            (SpawnAction::ReadPipes, _) => {
                return SpawnTurn::End(SpawnEnd::Running);
            },
        };
        SpawnTurn::Ask(Spawn { streams, action })
    }
}

/// Where a start stands after these events.
pub open spec fn spawn_run<E>(output: Output, events: Seq<SpawnEvent<E>>) -> SpawnTurn<E>
    decreases events.len(),
{
    if events.len() == 0 {
        SpawnTurn::Ask(spawn_start(output))
    } else {
        match spawn_run(output, events.drop_last()) {
            SpawnTurn::Ask(spawn) => spawn_turn(spawn, events.last()),
            SpawnTurn::End(end) => SpawnTurn::End(end),
        }
    }
}

/// That none of the events comes after the end of the start.
pub open spec fn spawn_history<E>(output: Output, events: Seq<SpawnEvent<E>>) -> bool
    decreases events.len(),
{
    events.len() == 0 || (spawn_history(output, events.drop_last()) && spawn_run(
        output,
        events.drop_last(),
    ) is Ask)
}

/// The actions that these events are the outcomes of, in order.
pub open spec fn spawn_actions<E>(output: Output, events: Seq<SpawnEvent<E>>) -> Seq<SpawnAction<E>>
    decreases events.len(),
{
    if events.len() == 0 {
        Seq::empty()
    } else {
        spawn_actions(output, events.drop_last()).push(
            spawn_run(output, events.drop_last())->Ask_0.action,
        )
    }
}

/// The actions up to the attempt to take hold of the child's tree.
pub open spec fn spawn_first_actions<E>(output: Output) -> Seq<SpawnAction<E>> {
    seq![
        SpawnAction::HideConsole,
        SpawnAction::Connect(crate::output::streams_of(output)),
        SpawnAction::Prepare,
        SpawnAction::Start,
        SpawnAction::Adopt,
    ]
}

/// Where a start stands, told by the actions.
proof fn lemma_spawn_stands<E>(output: Output, events: Seq<SpawnEvent<E>>)
    requires
        spawn_history(output, events),
    ensures
        spawn_run(output, events) matches SpawnTurn::Ask(spawn) ==> {
            let actions = spawn_actions(output, events);
            let n = events.len() as int;
            let first = spawn_first_actions::<E>(output);
            &&& spawn.streams == crate::output::streams_of(output)
            &&& n <= 6
            &&& n <= 4 ==> actions =~= first.take(n) && spawn.action == first[n]
            &&& n >= 4 ==> events[3] is Done
            &&& n == 5 ==> actions =~= first && match events[4] {
                SpawnEvent::Done => spawn.action is ReadPipes,
                SpawnEvent::Failed(error) => spawn.action == SpawnAction::KillChild(error),
            }
            &&& n == 6 ==> (events[4] matches SpawnEvent::Failed(error) && actions =~= first.push(
                SpawnAction::KillChild(error),
            ) && spawn.action == SpawnAction::ReapChild(error))
        },
    decreases events.len(),
{
    if events.len() > 0 {
        lemma_spawn_stands(output, events.drop_last());
    }
}

/// The actions of every start, in full: the console is hidden, the streams are connected and the
/// tree is prepared before the child is started; a child whose tree could not be taken hold of is
/// killed and released before the error is reported, and its pipes are not read. The error that is
/// reported is that of the start, or of the attempt to take hold of the tree, whatever became of
/// killing and releasing the child.
pub proof fn law_spawn_in_full<E>(output: Output, events: Seq<SpawnEvent<E>>, end: SpawnEnd<E>)
    requires
        spawn_history(output, events),
        spawn_run(output, events) == SpawnTurn::End(end),
    ensures
        spawn_actions(output, events) == match end {
            SpawnEnd::NotStarted(_) => spawn_first_actions(output).drop_last(),
            SpawnEnd::NotAdopted(error) => spawn_first_actions(output).push(
                SpawnAction::KillChild(error),
            ).push(SpawnAction::ReapChild(error)),
            SpawnEnd::Running => spawn_first_actions(output).push(SpawnAction::ReadPipes),
        },
        match end {
            SpawnEnd::NotStarted(error) => events[3] == SpawnEvent::Failed(error),
            SpawnEnd::NotAdopted(error) => events[3] is Done && events[4] == SpawnEvent::Failed(
                error,
            ),
            SpawnEnd::Running => events[3] is Done && events[4] is Done,
        },
{
    lemma_spawn_stands(output, events.drop_last());
}

/// A start gets on, and ends. Its actions are, one after the other, hiding the console, connecting
/// the streams as the output says, preparing the tree, starting the child and taking hold of its
/// tree; none of the first three can end it. A child that could not be started ends it with that
/// error. After the child was started and its tree taken hold of, the pipes are read, and the start
/// ends with the child running; if the tree could not be taken hold of, the child is killed, then
/// released, and the start ends with the error of the attempt.
pub proof fn law_spawn_gets_on<E>(output: Output, events: Seq<SpawnEvent<E>>)
    requires
        spawn_history(output, events),
    ensures
        events.len() <= 7,
        events.len() == 0 ==> (spawn_run(output, events) matches SpawnTurn::Ask(spawn)
            && spawn.action is HideConsole),
        events.len() == 1 ==> (spawn_run(output, events) matches SpawnTurn::Ask(spawn)
            && spawn.action == SpawnAction::<E>::Connect(crate::output::streams_of(output))),
        events.len() == 2 ==> (spawn_run(output, events) matches SpawnTurn::Ask(spawn)
            && spawn.action is Prepare),
        events.len() == 3 ==> (spawn_run(output, events) matches SpawnTurn::Ask(spawn)
            && spawn.action is Start),
        events.len() == 4 ==> match events[3] {
            SpawnEvent::Done => spawn_run(output, events) matches SpawnTurn::Ask(spawn)
                && spawn.action is Adopt,
            SpawnEvent::Failed(error) => spawn_run(output, events) == SpawnTurn::End(
                SpawnEnd::NotStarted(error),
            ),
        },
        events.len() == 5 ==> match events[4] {
            SpawnEvent::Done => spawn_run(output, events) matches SpawnTurn::Ask(spawn)
                && spawn.action is ReadPipes,
            SpawnEvent::Failed(error) => spawn_run(output, events) matches SpawnTurn::Ask(spawn)
                && spawn.action == SpawnAction::KillChild(error),
        },
        events.len() == 6 ==> match events[4] {
            SpawnEvent::Done => spawn_run(output, events) == SpawnTurn::<E>::End(SpawnEnd::Running),
            SpawnEvent::Failed(error) => spawn_run(output, events) matches SpawnTurn::Ask(spawn)
                && spawn.action == SpawnAction::ReapChild(error),
        },
        events.len() == 7 ==> (events[4] matches SpawnEvent::Failed(error) && spawn_run(
            output,
            events,
        ) == SpawnTurn::End(SpawnEnd::NotAdopted(error))),
{
    lemma_spawn_stands(output, events);
    if events.len() > 0 {
        lemma_spawn_stands(output, events.drop_last());
    }
}

/// Every start can be told what came of its action, and then does what [`Spawn::next`] does.
pub proof fn law_spawn_history_goes_on<E>(
    output: Output,
    events: Seq<SpawnEvent<E>>,
    spawn: Spawn<E>,
    event: SpawnEvent<E>,
)
    requires
        spawn_history(output, events),
        spawn_run(output, events) == SpawnTurn::Ask(spawn),
    ensures
        spawn_history(output, events.push(event)),
        spawn_run(output, events.push(event)) == spawn_turn(spawn, event),
        spawn_history(output, Seq::<SpawnEvent<E>>::empty()),
        spawn_run(output, Seq::<SpawnEvent<E>>::empty()) == SpawnTurn::Ask(spawn_start::<E>(output)),
{
    assert(events.push(event).drop_last() =~= events);
}

} // verus!
