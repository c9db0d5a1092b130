//! The output of a helper process, line by line: copying it to a file, handing it out, and waiting
//! for the line that says that the process is ready.

use vstd::prelude::*;

use crate::timing::{shorter, POLL};

verus! {

/// The text of some bytes, with what is not valid UTF-8 replaced.
pub uninterp spec fn lossy_text(bytes: Seq<u8>) -> Seq<char>;

/// `String::from_utf8_lossy`. The contract claims that the text depends on the bytes alone, and
/// that bytes that are valid UTF-8 are decoded.
#[verifier::external_body]
fn from_utf8_lossy(bytes: &[u8]) -> (text: String)
    ensures
        text@ == lossy_text(bytes@),
        vstd::utf8::valid_utf8(bytes@) ==> text@ == vstd::utf8::decode_utf8(bytes@),
{
    String::from_utf8_lossy(bytes).into_owned()
}

/// A line without its ending: a line feed, or a carriage return and a line feed.
pub open spec fn without_ending(line: Seq<u8>) -> Seq<u8> {
    if line.len() >= 2 && line[line.len() - 1] == 0x0a && line[line.len() - 2] == 0x0d {
        line.take(line.len() - 2)
    } else if line.len() >= 1 && line[line.len() - 1] == 0x0a {
        line.take(line.len() - 1)
    } else {
        line
    }
}

/// The text of a line, without its ending, with what is not valid UTF-8 replaced.
pub fn line_text(line: &[u8]) -> (text: String)
    ensures
        text@ == lossy_text(without_ending(line@)),
        vstd::utf8::valid_utf8(without_ending(line@)) ==> text@ == vstd::utf8::decode_utf8(
            without_ending(line@),
        ),
{
    let len: usize = line.len();
    let end: usize = if len >= 2 && line[len - 1] == 0x0a && line[len - 2] == 0x0d {
        len - 2
    } else if len >= 1 && line[len - 1] == 0x0a {
        len - 1
    } else {
        len
    };
    let body = vstd::slice::slice_subrange(line, 0, end);
    assert(body@ =~= without_ending(line@));
    from_utf8_lossy(body)
}

/// What copying a stream to a file asks for.
#[derive(Debug)]
pub enum DrainAction {
    /// Open the file for appending, creating it if it is missing.
    OpenFile,
    /// Read the stream up to the end of a line.
    ReadLine,
    /// Append this text to the file; that it fails is no reason to stop.
    Append(String),
    /// Read the rest of the stream and drop it, so that the process never blocks on a full pipe.
    DropRest,
}

/// What came of an action.
#[derive(Debug)]
pub enum DrainEvent {
    /// Whether the file is open.
    Opened(bool),
    /// A line, with its ending if it has one.
    Line(Vec<u8>),
    /// The stream is at its end, or cannot be read any more.
    Finished,
    /// The text was appended, or could not be.
    Appended,
}

/// What copying a stream does next.
#[derive(Debug)]
pub enum DrainTurn {
    Ask(DrainAction),
    End,
}

/// What copying a stream asks for, over the text it appends.
pub enum DrainAsk {
    OpenFile,
    ReadLine,
    Append(Seq<char>),
    DropRest,
}

/// What came of an action, over the bytes of a line.
pub enum DrainTold {
    Opened(bool),
    Line(Seq<u8>),
    Finished,
    Appended,
}

impl View for DrainAction {
    type V = DrainAsk;

    open spec fn view(&self) -> DrainAsk {
        match *self {
            DrainAction::OpenFile => DrainAsk::OpenFile,
            DrainAction::ReadLine => DrainAsk::ReadLine,
            DrainAction::Append(text) => DrainAsk::Append(text@),
            DrainAction::DropRest => DrainAsk::DropRest,
        }
    }
}

impl View for DrainEvent {
    type V = DrainTold;

    open spec fn view(&self) -> DrainTold {
        match *self {
            DrainEvent::Opened(open) => DrainTold::Opened(open),
            DrainEvent::Line(line) => DrainTold::Line(line@),
            DrainEvent::Finished => DrainTold::Finished,
            DrainEvent::Appended => DrainTold::Appended,
        }
    }
}

impl View for DrainTurn {
    type V = Option<DrainAsk>;

    /// What is asked for next; nothing at the end.
    open spec fn view(&self) -> Option<DrainAsk> {
        match *self {
            DrainTurn::Ask(action) => Some(action@),
            DrainTurn::End => None,
        }
    }
}

/// What copying a stream asks for after an event. An event that does not answer the action changes
/// nothing.
pub open spec fn drain_turn(ask: DrainAsk, told: DrainTold) -> Option<DrainAsk> {
    match (ask, told) {
        (DrainAsk::OpenFile, DrainTold::Opened(open)) => if open {
            Some(DrainAsk::ReadLine)
        } else {
            Some(DrainAsk::DropRest)
        },
        (DrainAsk::ReadLine, DrainTold::Line(line)) => Some(DrainAsk::Append(lossy_text(line))),
        (DrainAsk::ReadLine, DrainTold::Finished) => None,
        (DrainAsk::Append(_), DrainTold::Appended) => Some(DrainAsk::ReadLine),
        (DrainAsk::DropRest, DrainTold::Finished) => None,
        _ => Some(ask),
    }
}

/// What copying a stream asks for first.
pub fn drain_first() -> (action: DrainAction)
    ensures
        action@ == DrainAsk::OpenFile,
{
    DrainAction::OpenFile
}

/// What copying a stream does on an event.
pub fn drain_next(action: DrainAction, event: DrainEvent) -> (turn: DrainTurn)
    ensures
        turn@ == drain_turn(action@, event@),
        // A line that is valid UTF-8 is appended as it is.
        action@ is ReadLine ==> (event@ matches DrainTold::Line(line) ==> (vstd::utf8::valid_utf8(
            line,
        ) ==> turn@ == Some(DrainAsk::Append(vstd::utf8::decode_utf8(line))))),
{
    match (action, event) {
        (DrainAction::OpenFile, DrainEvent::Opened(open)) => if open {
            DrainTurn::Ask(DrainAction::ReadLine)
        } else {
            DrainTurn::Ask(DrainAction::DropRest)
        },
        (DrainAction::ReadLine, DrainEvent::Line(line)) => DrainTurn::Ask(
            DrainAction::Append(from_utf8_lossy(line.as_slice())),
        ),
        (DrainAction::ReadLine, DrainEvent::Finished) => DrainTurn::End,
        (DrainAction::Append(_), DrainEvent::Appended) => DrainTurn::Ask(DrainAction::ReadLine),
        (DrainAction::DropRest, DrainEvent::Finished) => DrainTurn::End,
        (other, _) => DrainTurn::Ask(other),
    }
}

/// That an event answers an action.
pub open spec fn drain_answers(ask: DrainAsk, told: DrainTold) -> bool {
    match ask {
        DrainAsk::OpenFile => told is Opened,
        DrainAsk::ReadLine => told is Line || told is Finished,
        DrainAsk::Append(_) => told is Appended,
        DrainAsk::DropRest => told is Finished,
    }
}

/// What copying a stream asks for after these events; nothing once it is over.
pub open spec fn drain_run(events: Seq<DrainTold>) -> Option<DrainAsk>
    decreases events.len(),
{
    if events.len() == 0 {
        Some(DrainAsk::OpenFile)
    } else {
        match drain_run(events.drop_last()) {
            Some(ask) => drain_turn(ask, events.last()),
            None => None,
        }
    }
}

/// That each of the events answers what was asked for at that point.
pub open spec fn drain_history(events: Seq<DrainTold>) -> bool
    decreases events.len(),
{
    events.len() == 0 || (drain_history(events.drop_last()) && (drain_run(
        events.drop_last(),
    ) matches Some(ask) && drain_answers(ask, events.last())))
}

/// A stream is read to its end, whatever becomes of the file, so the process never blocks on a full
/// pipe: copying is over exactly when the stream is.
pub proof fn law_stream_is_read_to_its_end(events: Seq<DrainTold>)
    requires
        drain_history(events),
    ensures
        drain_run(events) is None <==> events.len() > 0 && events.last() is Finished,
    decreases events.len(),
{
    if events.len() > 0 {
        law_stream_is_read_to_its_end(events.drop_last());
    }
}

/// Every line that is read is appended, as its text, before the next one is read; nothing else is.
pub proof fn law_every_line_is_appended(events: Seq<DrainTold>, text: Seq<char>)
    requires
        drain_history(events),
    ensures
        drain_run(events) == Some(DrainAsk::Append(text)) <==> events.len() > 0 && (
        events.last() matches DrainTold::Line(line) && text == lossy_text(line)),
    decreases events.len(),
{
    if events.len() > 0 {
        law_every_line_is_appended(events.drop_last(), text);
    }
}

/// What handing out the lines of a stream asks for.
#[derive(Debug)]
pub enum SendAction {
    /// Read the stream up to the end of a line, whether or not its lines are still wanted.
    ReadLine { wanted: bool },
    /// Hand out this line.
    Send(String),
}

/// What came of an action.
#[derive(Debug)]
pub enum SendEvent {
    /// A line, with its ending if it has one.
    Line(Vec<u8>),
    /// The stream is at its end, or cannot be read any more.
    Finished,
    /// Whether the line was taken; if not, nobody wants the lines any more.
    Sent(bool),
}

/// What handing out the lines of a stream does next.
#[derive(Debug)]
pub enum SendTurn {
    Ask(SendAction),
    End,
}

/// What handing out the lines asks for, over the text of a line.
pub enum SendAsk {
    ReadLine { wanted: bool },
    Send(Seq<char>),
}

/// What came of an action, over the bytes of a line.
pub enum SendTold {
    Line(Seq<u8>),
    Finished,
    Sent(bool),
}

impl View for SendAction {
    type V = SendAsk;

    open spec fn view(&self) -> SendAsk {
        match *self {
            SendAction::ReadLine { wanted } => SendAsk::ReadLine { wanted },
            SendAction::Send(text) => SendAsk::Send(text@),
        }
    }
}

impl View for SendEvent {
    type V = SendTold;

    open spec fn view(&self) -> SendTold {
        match *self {
            SendEvent::Line(line) => SendTold::Line(line@),
            SendEvent::Finished => SendTold::Finished,
            SendEvent::Sent(taken) => SendTold::Sent(taken),
        }
    }
}

impl View for SendTurn {
    type V = Option<SendAsk>;

    /// What is asked for next; nothing at the end.
    open spec fn view(&self) -> Option<SendAsk> {
        match *self {
            SendTurn::Ask(action) => Some(action@),
            SendTurn::End => None,
        }
    }
}

/// What handing out the lines asks for after an event. An event that does not answer the action
/// changes nothing.
pub open spec fn send_turn(ask: SendAsk, told: SendTold) -> Option<SendAsk> {
    match (ask, told) {
        (SendAsk::ReadLine { wanted }, SendTold::Line(line)) => if wanted {
            Some(SendAsk::Send(lossy_text(without_ending(line))))
        } else {
            Some(SendAsk::ReadLine { wanted })
        },
        (SendAsk::ReadLine { .. }, SendTold::Finished) => None,
        (SendAsk::Send(_), SendTold::Sent(taken)) => Some(SendAsk::ReadLine { wanted: taken }),
        _ => Some(ask),
    }
}

/// What handing out the lines asks for first: they are wanted until one is not taken.
pub fn send_first() -> (action: SendAction)
    ensures
        action@ == (SendAsk::ReadLine { wanted: true }),
{
    SendAction::ReadLine { wanted: true }
}

/// What handing out the lines does on an event.
pub fn send_next(action: SendAction, event: SendEvent) -> (turn: SendTurn)
    ensures
        turn@ == send_turn(action@, event@),
        // A line that is valid UTF-8 is handed out as it is, without its ending.
        action@ == (SendAsk::ReadLine { wanted: true }) ==> (event@ matches SendTold::Line(line)
            ==> (vstd::utf8::valid_utf8(without_ending(line)) ==> turn@ == Some(
            SendAsk::Send(vstd::utf8::decode_utf8(without_ending(line))),
        ))),
{
    match (action, event) {
        (SendAction::ReadLine { wanted }, SendEvent::Line(line)) => if wanted {
            SendTurn::Ask(SendAction::Send(line_text(line.as_slice())))
        } else {
            SendTurn::Ask(SendAction::ReadLine { wanted })
        },
        (SendAction::ReadLine { .. }, SendEvent::Finished) => SendTurn::End,
        (SendAction::Send(_), SendEvent::Sent(taken)) => SendTurn::Ask(
            SendAction::ReadLine { wanted: taken },
        ),
        (other, _) => SendTurn::Ask(other),
    }
}

/// That an event answers an action.
pub open spec fn send_answers(ask: SendAsk, told: SendTold) -> bool {
    match ask {
        SendAsk::ReadLine { .. } => told is Line || told is Finished,
        SendAsk::Send(_) => told is Sent,
    }
}

/// What handing out the lines asks for after these events; nothing once it is over.
pub open spec fn send_run(events: Seq<SendTold>) -> Option<SendAsk>
    decreases events.len(),
{
    if events.len() == 0 {
        Some(SendAsk::ReadLine { wanted: true })
    } else {
        match send_run(events.drop_last()) {
            Some(ask) => send_turn(ask, events.last()),
            None => None,
        }
    }
}

/// That each of the events answers what was asked for at that point.
pub open spec fn send_history(events: Seq<SendTold>) -> bool
    decreases events.len(),
{
    events.len() == 0 || (send_history(events.drop_last()) && (send_run(
        events.drop_last(),
    ) matches Some(ask) && send_answers(ask, events.last())))
}

/// That every line that was handed out was taken.
pub open spec fn lines_wanted(events: Seq<SendTold>) -> bool {
    forall|i: int| 0 <= i < events.len() ==> #[trigger] events[i] != SendTold::Sent(false)
}

/// A stream is read to its end, whether or not anybody takes its lines, so the process never blocks
/// on a full pipe: handing out lines is over exactly when the stream is.
pub proof fn law_output_keeps_being_read(events: Seq<SendTold>)
    requires
        send_history(events),
    ensures
        send_run(events) is None <==> events.len() > 0 && events.last() is Finished,
    decreases events.len(),
{
    if events.len() > 0 {
        law_output_keeps_being_read(events.drop_last());
    }
}

/// Every line is handed out without its ending, before the next one is read, as long as the lines
/// are taken; once one is not, no more are. Nothing else is ever handed out.
pub proof fn law_lines_are_handed_out(events: Seq<SendTold>, text: Seq<char>)
    requires
        send_history(events),
    ensures
        send_run(events) == Some(SendAsk::Send(text)) <==> lines_wanted(events) && events.len() > 0
            && (events.last() matches SendTold::Line(line) && text == lossy_text(
            without_ending(line),
        )),
        send_run(events) matches Some(SendAsk::ReadLine { wanted }) ==> wanted == lines_wanted(
            events,
        ),
    decreases events.len(),
{
    if events.len() > 0 {
        let earlier = events.drop_last();
        match send_run(earlier) {
            Some(SendAsk::Send(sent)) => law_lines_are_handed_out(earlier, sent),
            _ => law_lines_are_handed_out(earlier, text),
        }
        assert(forall|i: int| 0 <= i < earlier.len() ==> #[trigger] earlier[i] == events[i]);
        assert(forall|i: int|
            0 <= i < events.len() ==> #[trigger] events[i] == events.last() || events[i]
                == earlier[i]);
        assert(lines_wanted(events) <==> lines_wanted(earlier) && events.last() != SendTold::Sent(
            false,
        ));
    }
}

/// How waiting for a line ended. `S` is the platform's exit status.
#[derive(Debug, Clone, PartialEq, Eq)]
pub enum LineReadiness<S> {
    /// The process printed this line, which is the one that was waited for.
    Line(String),
    /// The process exited without having printed it.
    Exited(S),
    /// Neither happened before the deadline. The process is still running.
    TimedOut,
}

/// There are no lines to wait for: the output is not kept line by line.
#[derive(Debug, Clone, Copy, PartialEq, Eq, Structural)]
pub struct NoLines;

/// What a wait for a line asks for.
#[derive(Debug, Clone, Copy, PartialEq, Eq, Structural)]
pub enum LineAction {
    /// Find out whether the process has exited, without waiting.
    CheckStatus,
    /// Take the next line, waiting for it at most this long.
    TakeLine(u128),
    /// Read the clock.
    ReadClock,
    /// Sleep this long.
    Sleep(u128),
}

/// What came of an action. `E` is the error of a look at the process.
#[derive(Debug)]
pub enum LineEvent<S, E> {
    /// The exit status, if the process has exited.
    Status(Option<S>),
    /// The process could not be looked at.
    Failed(E),
    /// A line, and whether it is the one that is waited for.
    Line(String, bool),
    /// No line came in time.
    NoLine,
    /// The output is closed: no line will come any more.
    Closed,
    /// The time since the wait began.
    Clock(u128),
    /// The sleep is over.
    Slept,
}

/// A wait for a line.
#[derive(Debug)]
pub struct LineWait<S> {
    /// The time at which the wait ends; once the process was seen to have exited, the time at which
    /// the last look at its lines ends.
    pub deadline: u128,
    /// The last reading of the clock.
    pub clock: u128,
    /// The exit status, once the process was seen to have exited.
    pub exited: Option<S>,
    /// Whether the output is closed.
    pub closed: bool,
    /// What is asked for now.
    pub action: LineAction,
}

/// What a wait for a line does next.
#[derive(Debug)]
pub enum LineTurn<S, E> {
    /// Go on with this wait.
    Ask(LineWait<S>),
    /// The wait is over.
    End(LineReadiness<S>),
    /// The wait ends with this error.
    Fail(E),
}

impl<S> LineWait<S> {
    /// The same wait with another action to ask for.
    pub open spec fn asking(self, action: LineAction) -> LineWait<S> {
        LineWait { action, ..self }
    }

    /// How long to wait for the next line, or for the next look at the process.
    pub open spec fn pause(self) -> u128 {
        if self.clock < self.deadline {
            crate::timing::shorter_of(POLL, (self.deadline - self.clock) as u128)
        } else {
            0
        }
    }

    /// The same wait once the process was seen to have exited: what is left is one pause from the
    /// last reading of the clock, for the lines that are at hand.
    pub open spec fn after_exit(self, status: S) -> LineWait<S> {
        LineWait {
            deadline: if self.clock < self.deadline {
                (self.clock + self.pause()) as u128
            } else {
                self.deadline
            },
            exited: Some(status),
            action: LineAction::TakeLine(self.pause()),
            ..self
        }
    }
}

/// The first action of a wait for a line.
pub open spec fn line_start<S>(deadline: u128) -> LineWait<S> {
    LineWait {
        deadline,
        clock: 0,
        exited: None,
        closed: false,
        action: LineAction::CheckStatus,
    }
}

/// What a wait for a line does on an event. An event that does not answer the action changes
/// nothing.
///
/// A process that has exited may still have printed the line: the lines that are at hand are looked
/// at, for one pause at most, before the exit is reported. A process that left its output open to
/// another one is thus reported all the same.
pub open spec fn line_turn<S, E>(wait: LineWait<S>, event: LineEvent<S, E>) -> LineTurn<S, E> {
    match (wait.action, event) {
        (LineAction::CheckStatus, LineEvent::Status(Some(status))) => if wait.closed {
            LineTurn::End(LineReadiness::Exited(status))
        } else {
            LineTurn::Ask(wait.after_exit(status))
        },
        (LineAction::CheckStatus, LineEvent::Status(None)) => if wait.closed {
            LineTurn::Ask(wait.asking(LineAction::Sleep(wait.pause())))
        } else {
            LineTurn::Ask(wait.asking(LineAction::TakeLine(wait.pause())))
        },
        (LineAction::CheckStatus, LineEvent::Failed(error)) => LineTurn::Fail(error),
        (LineAction::TakeLine(_), LineEvent::Line(text, matches)) => if matches {
            LineTurn::End(LineReadiness::Line(text))
        } else {
            LineTurn::Ask(wait.asking(LineAction::ReadClock))
        },
        (LineAction::TakeLine(_), LineEvent::NoLine) => match wait.exited {
            Some(status) => LineTurn::End(LineReadiness::Exited(status)),
            None => LineTurn::Ask(wait.asking(LineAction::ReadClock)),
        },
        (LineAction::TakeLine(_), LineEvent::Closed) => match wait.exited {
            Some(status) => LineTurn::End(LineReadiness::Exited(status)),
            None => LineTurn::Ask(
                LineWait { closed: true, action: LineAction::CheckStatus, ..wait },
            ),
        },
        (LineAction::ReadClock, LineEvent::Clock(now)) => if now >= wait.deadline {
            match wait.exited {
                Some(status) => LineTurn::End(LineReadiness::Exited(status)),
                None => LineTurn::End(LineReadiness::TimedOut),
            }
        } else {
            let later = LineWait { clock: now, ..wait };
            match wait.exited {
                Some(_) => LineTurn::Ask(later.asking(LineAction::TakeLine(later.pause()))),
                None => LineTurn::Ask(later.asking(LineAction::CheckStatus)),
            }
        },
        (LineAction::Sleep(_), LineEvent::Slept) => LineTurn::Ask(
            wait.asking(LineAction::ReadClock),
        ),
        _ => LineTurn::Ask(wait),
    }
}

impl<S> LineWait<S> {
    /// A wait of at most `deadline`. Without lines to wait for there is none.
    pub fn new(has_lines: bool, deadline: u128) -> (res: Result<LineWait<S>, NoLines>)
        ensures
            res == if has_lines {
                Ok::<LineWait<S>, NoLines>(line_start(deadline))
            } else {
                Err(NoLines)
            },
    {
        if has_lines {
            Ok(
                LineWait {
                    deadline,
                    clock: 0,
                    exited: None,
                    closed: false,
                    action: LineAction::CheckStatus,
                },
            )
        } else {
            Err(NoLines)
        }
    }

    /// What the wait does on an event.
    pub fn next<E>(self, event: LineEvent<S, E>) -> (turn: LineTurn<S, E>)
        ensures
            turn == line_turn(self, event),
    {
        let LineWait { deadline, clock, exited, closed, action } = self;
        let pause: u128 = if clock < deadline {
            shorter(POLL, deadline - clock)
        } else {
            0
        };
        match (action, event) {
            (LineAction::CheckStatus, LineEvent::Status(Some(status))) => {
                if closed {
                    LineTurn::End(LineReadiness::Exited(status))
                } else {
                    let deadline: u128 = if clock < deadline {
                        clock + pause
                    } else {
                        deadline
                    };
                    let action = LineAction::TakeLine(pause);
                    LineTurn::Ask(LineWait { deadline, clock, exited: Some(status), closed, action })
                }
            },
            (LineAction::CheckStatus, LineEvent::Status(None)) => {
                let action = if closed {
                    LineAction::Sleep(pause)
                } else {
                    LineAction::TakeLine(pause)
                };
                LineTurn::Ask(LineWait { deadline, clock, exited, closed, action })
            },
            (LineAction::CheckStatus, LineEvent::Failed(error)) => LineTurn::Fail(error),
            (LineAction::TakeLine(_), LineEvent::Line(text, matches)) => {
                if matches {
                    LineTurn::End(LineReadiness::Line(text))
                } else {
                    let action = LineAction::ReadClock;
                    LineTurn::Ask(LineWait { deadline, clock, exited, closed, action })
                }
            },
            (LineAction::TakeLine(_), LineEvent::NoLine) => match exited {
                Some(status) => LineTurn::End(LineReadiness::Exited(status)),
                None => {
                    let action = LineAction::ReadClock;
                    LineTurn::Ask(LineWait { deadline, clock, exited: None, closed, action })
                },
            },
            (LineAction::TakeLine(_), LineEvent::Closed) => match exited {
                Some(status) => LineTurn::End(LineReadiness::Exited(status)),
                None => {
                    let action = LineAction::CheckStatus;
                    LineTurn::Ask(LineWait { deadline, clock, exited: None, closed: true, action })
                },
            },
            (LineAction::ReadClock, LineEvent::Clock(now)) => {
                if now >= deadline {
                    match exited {
                        Some(status) => LineTurn::End(LineReadiness::Exited(status)),
                        None => LineTurn::End(LineReadiness::TimedOut),
                    }
                } else {
                    let action = match exited {
                        Some(_) => LineAction::TakeLine(shorter(POLL, deadline - now)),
                        None => LineAction::CheckStatus,
                    };
                    LineTurn::Ask(LineWait { deadline, clock: now, exited, closed, action })
                }
            },
            (LineAction::Sleep(_), LineEvent::Slept) => {
                let action = LineAction::ReadClock;
                LineTurn::Ask(LineWait { deadline, clock, exited, closed, action })
            },
            _ => LineTurn::Ask(LineWait { deadline, clock, exited, closed, action }),
        }
    }
}

/// That an event answers an action.
pub open spec fn line_answers<S, E>(action: LineAction, event: LineEvent<S, E>) -> bool {
    match action {
        LineAction::CheckStatus => event is Status || event is Failed,
        LineAction::TakeLine(_) => event is Line || event is NoLine || event is Closed,
        LineAction::ReadClock => event is Clock,
        LineAction::Sleep(_) => event is Slept,
    }
}

/// Where a wait for a line stands after these events.
pub open spec fn line_run<S, E>(deadline: u128, events: Seq<LineEvent<S, E>>) -> LineTurn<S, E>
    decreases events.len(),
{
    if events.len() == 0 {
        LineTurn::Ask(line_start(deadline))
    } else {
        match line_run(deadline, events.drop_last()) {
            LineTurn::Ask(wait) => line_turn(wait, events.last()),
            ended => ended,
        }
    }
}

/// That each of the events answers what the wait asked for at that point, so that no event comes
/// after its end.
pub open spec fn line_history<S, E>(deadline: u128, events: Seq<LineEvent<S, E>>) -> bool
    decreases events.len(),
{
    events.len() == 0 || (line_history(deadline, events.drop_last()) && (line_run(
        deadline,
        events.drop_last(),
    ) matches LineTurn::Ask(wait) && line_answers(wait.action, events.last())))
}

/// The last reading of the clock; the wait begins at zero.
pub open spec fn last_clock<S, E>(events: Seq<LineEvent<S, E>>) -> u128
    decreases events.len(),
{
    if events.len() == 0 {
        0
    } else {
        match events.last() {
            LineEvent::Clock(now) => now,
            _ => last_clock(events.drop_last()),
        }
    }
}

/// That the process was seen to have exited with this status.
pub open spec fn exit_seen<S, E>(events: Seq<LineEvent<S, E>>, status: S) -> bool {
    exists|i: int| 0 <= i < events.len() && #[trigger] events[i] == LineEvent::<S, E>::Status(Some(status))
}

/// That the process was never seen to have exited.
pub open spec fn no_exit_seen<S, E>(events: Seq<LineEvent<S, E>>) -> bool {
    forall|i: int|
        0 <= i < events.len() && (#[trigger] events[i] is Status) ==> events[i]
            == LineEvent::<S, E>::Status(None)
}

/// Where a wait stands, told by the events.
proof fn lemma_line_stands<S, E>(deadline: u128, events: Seq<LineEvent<S, E>>)
    requires
        line_history(deadline, events),
    ensures
        line_run(deadline, events) matches LineTurn::Ask(wait) ==> {
            &&& wait.deadline <= deadline
            &&& wait.clock == last_clock(events)
            &&& wait.clock <= wait.deadline
            &&& match wait.exited {
                Some(status) => exit_seen(events, status) && (wait.action is TakeLine
                    || wait.action is ReadClock),
                None => no_exit_seen(events) && wait.deadline == deadline,
            }
            &&& wait.action matches LineAction::TakeLine(length) ==> length == wait.pause()
            &&& wait.action matches LineAction::Sleep(length) ==> length == wait.pause()
            &&& forall|i: int|
                0 <= i < events.len() ==> !(#[trigger] events[i] matches LineEvent::Line(_, true))
        },
        line_run(deadline, events) matches LineTurn::End(readiness) ==> {
            &&& events.len() > 0
            &&& match readiness {
                LineReadiness::Line(text) => events.last() == LineEvent::<S, E>::Line(text, true),
                LineReadiness::Exited(status) => exit_seen(events, status) && !(
                events.last() matches LineEvent::Line(_, true)),
                LineReadiness::TimedOut => no_exit_seen(events) && (
                events.last() matches LineEvent::Clock(now) && now >= deadline),
            }
        },
        line_run(deadline, events) matches LineTurn::Fail(error) ==> events.len() > 0
            && events.last() == LineEvent::<S, E>::Failed(error),
    decreases events.len(),
{
    if events.len() > 0 {
        let earlier = events.drop_last();
        lemma_line_stands(deadline, earlier);
        assert(forall|i: int| 0 <= i < earlier.len() ==> #[trigger] events[i] == earlier[i]);
        assert(forall|i: int|
            0 <= i < events.len() ==> #[trigger] events[i] == events.last() || events[i]
                == earlier[i]);
        let before = line_run(deadline, earlier)->Ask_0;
        if let Some(status) = before.exited {
            let i = choose|i: int|
                0 <= i < earlier.len() && #[trigger] earlier[i] == LineEvent::<S, E>::Status(Some(status));
            assert(events[i] == LineEvent::<S, E>::Status(Some(status)));
        }
        if let LineEvent::Status(Some(status)) = events.last() {
            assert(events[events.len() - 1] == LineEvent::<S, E>::Status(Some(status)));
        }
    }
}

/// A history of a wait for a line, cut short, is a history.
proof fn lemma_line_prefix<S, E>(deadline: u128, events: Seq<LineEvent<S, E>>, count: int)
    requires
        line_history(deadline, events),
        0 <= count <= events.len(),
    ensures
        line_history(deadline, events.take(count)),
        count < events.len() ==> (line_run(deadline, events.take(count)) matches LineTurn::Ask(wait)
            && line_answers(wait.action, events[count])),
        count < events.len() ==> events.take(count + 1).drop_last() == events.take(count)
            && events.take(count + 1).last() == events[count],
    decreases events.len() - count,
{
    if count == events.len() {
        assert(events.take(count) =~= events);
    } else {
        lemma_line_prefix(deadline, events, count + 1);
        assert(events.take(count + 1).drop_last() =~= events.take(count));
        assert(events.take(count + 1).last() == events[count]);
    }
}

/// The line that is waited for is returned as soon as it comes, word for word, and no other line
/// ever is.
pub proof fn law_line_is_returned_at_once<S, E>(
    deadline: u128,
    events: Seq<LineEvent<S, E>>,
    i: int,
    text: String,
)
    requires
        line_history(deadline, events),
    ensures
        0 <= i < events.len() && events[i] == LineEvent::<S, E>::Line(text, true) ==> i
            == events.len() - 1 && line_run(deadline, events) == LineTurn::<S, E>::End(
            LineReadiness::Line(text),
        ),
        line_run(deadline, events) == LineTurn::<S, E>::End(LineReadiness::Line(text)) ==> events.len()
            > 0 && events.last() == LineEvent::<S, E>::Line(text, true),
{
    lemma_line_stands(deadline, events);
    if 0 <= i < events.len() && events[i] == LineEvent::<S, E>::Line(text, true) {
        if i < events.len() - 1 {
            lemma_line_prefix(deadline, events, i + 1);
            lemma_line_stands(deadline, events.take(i + 1));
            assert(events.take(i + 1)[i] == events[i]);
        }
        lemma_line_stands(deadline, events.drop_last());
    }
}

/// An exit is reported only when it was seen, with the status that was seen.
pub proof fn law_exit_was_seen<S, E>(deadline: u128, events: Seq<LineEvent<S, E>>, status: S)
    requires
        line_history(deadline, events),
        line_run(deadline, events) == LineTurn::<S, E>::End(LineReadiness::Exited(status)),
    ensures
        exit_seen(events, status),
{
    lemma_line_stands(deadline, events);
}

/// Once the process was seen to have exited, the wait only looks at the lines that are still at
/// hand: it never sleeps and never looks at the process again, and it ends as soon as there is no
/// line, or at its deadline.
pub proof fn law_exit_ends_the_wait<S, E>(
    deadline: u128,
    events: Seq<LineEvent<S, E>>,
    wait: LineWait<S>,
    status: S,
    event: LineEvent<S, E>,
)
    requires
        line_history(deadline, events),
        line_run(deadline, events) == LineTurn::<S, E>::Ask(wait),
        exit_seen(events, status),
        line_answers(wait.action, event),
    ensures
        wait.action is TakeLine || wait.action is ReadClock,
        event is NoLine || event is Closed || (event matches LineEvent::Clock(now) && now
            >= wait.deadline) ==> exists|seen: S| #[trigger]
            exit_seen(events, seen) && line_turn(wait, event) == LineTurn::<S, E>::End(
                LineReadiness::Exited(seen),
            ),
{
    lemma_line_stands(deadline, events);
    let i = choose|i: int|
        0 <= i < events.len() && #[trigger] events[i] == LineEvent::<S, E>::Status(Some(status));
    assert(events[i] is Status);
    let seen = wait.exited->Some_0;
    if event is NoLine || event is Closed || (event matches LineEvent::Clock(now) && now
        >= wait.deadline) {
        assert(exit_seen(events, seen));
        assert(line_turn(wait, event) == LineTurn::<S, E>::End(LineReadiness::Exited(seen)));
    }
}

/// The wait times out only at a clock reading at or past the deadline, and only if the process was
/// never seen to have exited.
pub proof fn law_line_time_out_is_past_the_deadline<S, E>(deadline: u128, events: Seq<LineEvent<S, E>>)
    requires
        line_history(deadline, events),
        line_run(deadline, events) == LineTurn::<S, E>::End(LineReadiness::TimedOut),
    ensures
        events.len() > 0,
        events.last() matches LineEvent::Clock(now) && now >= deadline,
        no_exit_seen(events),
{
    lemma_line_stands(deadline, events);
}

/// The wait never waits for a line, nor sleeps, past the deadline, measured from the last reading of
/// the clock.
pub proof fn law_line_wait_stays_within_the_deadline<S, E>(
    deadline: u128,
    events: Seq<LineEvent<S, E>>,
    wait: LineWait<S>,
    length: u128,
)
    requires
        line_history(deadline, events),
        line_run(deadline, events) == LineTurn::<S, E>::Ask(wait),
        wait.action == LineAction::TakeLine(length) || wait.action == LineAction::Sleep(length),
    ensures
        length <= POLL,
        last_clock(events) + length <= deadline,
{
    lemma_line_stands(deadline, events);
}

/// Where a wait stands after the exit was seen at event `i`: its deadline is within one pause of the
/// clock reading before it.
proof fn lemma_line_exit<S, E>(
    deadline: u128,
    events: Seq<LineEvent<S, E>>,
    i: int,
    status: S,
    wait: LineWait<S>,
)
    requires
        line_history(deadline, events),
        0 <= i < events.len(),
        events[i] == LineEvent::<S, E>::Status(Some(status)),
        line_run(deadline, events) == LineTurn::<S, E>::Ask(wait),
    ensures
        wait.exited == Some(status),
        wait.deadline <= last_clock(events.take(i)) + POLL,
    decreases events.len(),
{
    let earlier = events.drop_last();
    lemma_line_stands(deadline, earlier);
    let before = line_run(deadline, earlier)->Ask_0;
    if i == events.len() - 1 {
        assert(events.take(i) =~= earlier);
    } else {
        assert(earlier[i] == events[i]);
        assert(earlier.take(i) =~= events.take(i));
        lemma_line_exit(deadline, earlier, i, status, before);
    }
}

/// A process that was seen to have exited is reported soon, whoever keeps its output open: from the
/// clock reading at which the exit was seen, the wait for lines lasts one pause at most, and the
/// first reading after that ends the wait with the status that was seen.
pub proof fn law_exit_is_reported_soon<S, E>(
    deadline: u128,
    events: Seq<LineEvent<S, E>>,
    i: int,
    status: S,
    wait: LineWait<S>,
    now: u128,
)
    requires
        line_history(deadline, events),
        0 <= i < events.len(),
        events[i] == LineEvent::<S, E>::Status(Some(status)),
        line_run(deadline, events) == LineTurn::<S, E>::Ask(wait),
    ensures
        wait.action matches LineAction::TakeLine(length) ==> last_clock(events) + length
            <= last_clock(events.take(i)) + POLL,
        wait.action is ReadClock && now >= last_clock(events.take(i)) + POLL ==> line_turn(
            wait,
            LineEvent::<S, E>::Clock(now),
        ) == LineTurn::<S, E>::End(LineReadiness::Exited(status)),
{
    lemma_line_stands(deadline, events);
    lemma_line_exit(deadline, events, i, status, wait);
}

/// A look at the process that fails ends the wait at once with its error, and nothing else does.
pub proof fn law_failed_look_ends_the_line_wait<S, E>(
    deadline: u128,
    events: Seq<LineEvent<S, E>>,
    i: int,
    error: E,
)
    requires
        line_history(deadline, events),
    ensures
        0 <= i < events.len() && events[i] == LineEvent::<S, E>::Failed(error) ==> i == events.len()
            - 1 && line_run(deadline, events) == LineTurn::<S, E>::Fail(error),
        line_run(deadline, events) == LineTurn::<S, E>::Fail(error) ==> events.len() > 0
            && events.last() == LineEvent::<S, E>::Failed(error),
{
    lemma_line_stands(deadline, events);
    if 0 <= i < events.len() && events[i] == LineEvent::<S, E>::Failed(error) {
        lemma_line_prefix(deadline, events, i);
        if i + 1 < events.len() {
            lemma_line_prefix(deadline, events, i + 1);
        } else {
            assert(events.take(i + 1) =~= events);
        }
    }
}

/// A line loses its ending and nothing else: a line feed, with the carriage return before it if
/// there is one. A line without a line feed stays as it is.
pub proof fn law_only_the_ending_is_lost(body: Seq<u8>)
    ensures
        without_ending(body + seq![0x0du8, 0x0au8]) == body,
        !(body.len() > 0 && body.last() == 0x0d) ==> without_ending(body + seq![0x0au8]) == body,
        !(body.len() > 0 && body.last() == 0x0a) ==> without_ending(body) == body,
{
    let crlf = body + seq![0x0du8, 0x0au8];
    let lf = body + seq![0x0au8];
    assert(crlf.take(crlf.len() - 2) =~= body);
    assert(lf.take(lf.len() - 1) =~= body);
    if body.len() > 0 {
        assert(lf[lf.len() - 2] == body.last());
    }
}

/// Actions, events and turns of copying and of handing out are told by what they hold: the file is
/// given the very text that was asked for, and a line is read as the bytes that came.
pub proof fn law_lines_are_told_by_what_they_hold(
    append: DrainAction,
    line: DrainEvent,
    send: SendAction,
    told: SendEvent,
    text: Seq<char>,
    bytes: Seq<u8>,
    flag: bool,
)
    ensures
        append@ == DrainAsk::Append(text) <==> (append matches DrainAction::Append(t) && t@ == text),
        append@ is OpenFile <==> append is OpenFile,
        append@ is ReadLine <==> append is ReadLine,
        append@ is DropRest <==> append is DropRest,
        line@ == DrainTold::Line(bytes) <==> (line matches DrainEvent::Line(l) && l@ == bytes),
        line@ == DrainTold::Opened(flag) <==> line == DrainEvent::Opened(flag),
        line@ is Finished <==> line is Finished,
        line@ is Appended <==> line is Appended,
        send@ == SendAsk::Send(text) <==> (send matches SendAction::Send(t) && t@ == text),
        send@ == (SendAsk::ReadLine { wanted: flag }) <==> send == (SendAction::ReadLine {
            wanted: flag,
        }),
        told@ == SendTold::Line(bytes) <==> (told matches SendEvent::Line(l) && l@ == bytes),
        told@ == SendTold::Sent(flag) <==> told == SendEvent::Sent(flag),
        told@ is Finished <==> told is Finished,
        DrainTurn::Ask(append)@ == Some(append@),
        DrainTurn::End@ is None,
        SendTurn::Ask(send)@ == Some(send@),
        SendTurn::End@ is None,
{
}

/// Copying gets on. It begins by opening the file. A file that opened is read for line after line: it
/// is never given up, and once a line was appended the next one is read. A file that did not open
/// has the stream read to its end, and dropped.
pub proof fn law_copying_gets_on(events: Seq<DrainTold>)
    requires
        drain_history(events),
    ensures
        events.len() == 0 ==> drain_run(events) == Some(DrainAsk::OpenFile),
        events.len() > 0 ==> events[0] is Opened,
        events.len() > 0 && events[0] == DrainTold::Opened(true) ==> !(drain_run(events) matches Some(
            DrainAsk::DropRest,
        )) && (!(events.last() is Line) && !(events.last() is Finished) ==> drain_run(events)
            == Some(DrainAsk::ReadLine)),
        events.len() > 0 && events[0] == DrainTold::Opened(false) && !(events.last() is Finished)
            ==> drain_run(events) == Some(DrainAsk::DropRest),
        events.len() > 0 ==> (events.last() matches DrainTold::Line(line) ==> drain_run(events)
            == Some(DrainAsk::Append(lossy_text(line)))),
        events.len() > 0 && events.last() is Finished ==> drain_run(events) is None,
    decreases events.len(),
{
    if events.len() > 0 {
        let earlier = events.drop_last();
        law_copying_gets_on(earlier);
        if earlier.len() > 0 {
            assert(earlier[0] == events[0]);
        }
    }
}

/// The lines of a stream that were read, first to last.
pub open spec fn lines_read(events: Seq<DrainTold>) -> Seq<Seq<u8>>
    decreases events.len(),
{
    if events.len() == 0 {
        Seq::empty()
    } else {
        match events.last() {
            DrainTold::Line(line) => lines_read(events.drop_last()).push(line),
            _ => lines_read(events.drop_last()),
        }
    }
}

/// The texts that were given to the file, first to last.
pub open spec fn texts_given(events: Seq<DrainTold>) -> Seq<Seq<char>>
    decreases events.len(),
{
    if events.len() == 0 {
        Seq::empty()
    } else {
        match (drain_run(events.drop_last()), events.last()) {
            (Some(DrainAsk::Append(text)), DrainTold::Appended) => texts_given(
                events.drop_last(),
            ).push(text),
            _ => texts_given(events.drop_last()),
        }
    }
}

/// A file that opened is given every line of the stream, as its text, in order and once: all that
/// were read when the stream is at its end. A file that did not open is given nothing.
pub proof fn law_file_holds_every_line(events: Seq<DrainTold>)
    requires
        drain_history(events),
        events.len() > 0,
        !(events.last() is Line),
    ensures
        texts_given(events) == lines_read(events).map_values(|line: Seq<u8>| lossy_text(line)),
        events[0] == DrainTold::Opened(false) ==> texts_given(events).len() == 0,
{
    lemma_texts_given(events);
}

/// The texts that were given to the file, and the one that is about to be.
proof fn lemma_texts_given(events: Seq<DrainTold>)
    requires
        drain_history(events),
    ensures
        ({
            let texts = lines_read(events).map_values(|line: Seq<u8>| lossy_text(line));
            if events.len() > 0 && events.last() is Line {
                texts.len() > 0 && texts_given(events) == texts.drop_last()
            } else {
                texts_given(events) == texts
            }
        }),
        events.len() > 0 && events[0] == DrainTold::Opened(false) ==> texts_given(events).len() == 0
            && lines_read(events).len() == 0,
    decreases events.len(),
{
    law_copying_gets_on(events);
    if events.len() > 0 {
        let earlier = events.drop_last();
        lemma_texts_given(earlier);
        law_copying_gets_on(earlier);
        law_every_line_is_appended(earlier, Seq::empty());
        let decode = |line: Seq<u8>| lossy_text(line);
        if earlier.len() > 0 {
            assert(earlier[0] == events[0]);
        }
        match events.last() {
            DrainTold::Line(line) => {
                assert(lines_read(events).map_values(decode).drop_last() =~= lines_read(
                    earlier,
                ).map_values(decode));
            },
            DrainTold::Appended => {
                let text = drain_run(earlier)->Some_0->Append_0;
                law_every_line_is_appended(earlier, text);
                assert(earlier.last() is Line);
                let texts = lines_read(earlier).map_values(decode);
                assert(texts.last() == text);
                assert(texts.drop_last().push(text) =~= texts);
            },
            _ => {},
        }
    }
}

/// A copy can be told anything that it asked for, and then does what [`drain_next`] does.
pub proof fn law_copying_goes_on(events: Seq<DrainTold>, ask: DrainAsk, told: DrainTold)
    requires
        drain_history(events),
        drain_run(events) == Some(ask),
        match ask {
            DrainAsk::OpenFile => told is Opened,
            DrainAsk::ReadLine => told is Line || told is Finished,
            DrainAsk::Append(_) => told is Appended,
            DrainAsk::DropRest => told is Finished,
        },
    ensures
        drain_history(events.push(told)),
        drain_run(events.push(told)) == drain_turn(ask, told),
        drain_history(Seq::<DrainTold>::empty()),
        drain_run(Seq::<DrainTold>::empty()) == Some(DrainAsk::OpenFile),
{
    assert(events.push(told).drop_last() =~= events);
}

/// Handing out lines gets on: it reads a line at the beginning and after every line that was handed
/// out or is not wanted any more, and hands out each line that is wanted.
pub proof fn law_handing_out_gets_on(events: Seq<SendTold>)
    requires
        send_history(events),
    ensures
        events.len() == 0 ==> send_run(events) == Some(SendAsk::ReadLine { wanted: true }),
        events.len() > 0 && events.last() is Sent ==> send_run(events) == Some(
            SendAsk::ReadLine { wanted: lines_wanted(events) },
        ),
        events.len() > 0 ==> (events.last() matches SendTold::Line(line) ==> send_run(events)
            == Some(
            if lines_wanted(events) {
                SendAsk::Send(lossy_text(without_ending(line)))
            } else {
                SendAsk::ReadLine { wanted: false }
            },
        )),
        events.len() > 0 && events.last() is Finished ==> send_run(events) is None,
        lines_wanted(events) <==> !events.contains(SendTold::Sent(false)),
{
    law_lines_are_handed_out(events, Seq::empty());
    if events.len() > 0 {
        let earlier = events.drop_last();
        assert(forall|i: int| 0 <= i < earlier.len() ==> #[trigger] earlier[i] == events[i]);
        assert(forall|i: int|
            0 <= i < events.len() ==> #[trigger] events[i] == events.last() || events[i]
                == earlier[i]);
        assert(lines_wanted(events) <==> lines_wanted(earlier) && events.last() != SendTold::Sent(
            false,
        ));
        match send_run(earlier) {
            Some(SendAsk::Send(text)) => law_lines_are_handed_out(earlier, text),
            _ => law_lines_are_handed_out(earlier, Seq::empty()),
        }
    }
}

/// Handing out can be told anything that it asked for, and then does what [`send_next`] does.
pub proof fn law_handing_out_goes_on(events: Seq<SendTold>, ask: SendAsk, told: SendTold)
    requires
        send_history(events),
        send_run(events) == Some(ask),
        match ask {
            SendAsk::ReadLine { .. } => told is Line || told is Finished,
            SendAsk::Send(_) => told is Sent,
        },
    ensures
        send_history(events.push(told)),
        send_run(events.push(told)) == send_turn(ask, told),
        send_history(Seq::<SendTold>::empty()),
        send_run(Seq::<SendTold>::empty()) == Some(SendAsk::ReadLine { wanted: true }),
{
    assert(events.push(told).drop_last() =~= events);
}

/// That the output was seen to be closed.
pub open spec fn closed_seen<S, E>(events: Seq<LineEvent<S, E>>) -> bool {
    exists|i: int| 0 <= i < events.len() && #[trigger] events[i] is Closed
}

/// Whether a wait knows that the output is closed is told by the events.
proof fn lemma_line_closed<S, E>(deadline: u128, events: Seq<LineEvent<S, E>>)
    requires
        line_history(deadline, events),
    ensures
        line_run(deadline, events) matches LineTurn::Ask(wait) ==> (wait.closed <==> closed_seen(
            events,
        )) && (wait.closed ==> wait.exited is None && !(wait.action is TakeLine)),
    decreases events.len(),
{
    if events.len() > 0 {
        let earlier = events.drop_last();
        lemma_line_closed(deadline, earlier);
        lemma_line_stands(deadline, earlier);
        let before = line_run(deadline, earlier)->Ask_0;
        assert(forall|i: int| 0 <= i < earlier.len() ==> #[trigger] events[i] == earlier[i]);
        assert(forall|i: int|
            0 <= i < events.len() ==> #[trigger] events[i] == events.last() || events[i]
                == earlier[i]);
        if before.closed {
            let i = choose|i: int| 0 <= i < earlier.len() && #[trigger] earlier[i] is Closed;
            assert(events[i] is Closed);
        }
        if events.last() is Closed {
            assert(events[events.len() - 1] is Closed);
        }
    }
}

/// The shorter of the usual pause and what is left between two times.
pub open spec fn pause_between(now: int, end: int) -> int {
    if POLL <= end - now {
        POLL as int
    } else {
        end - now
    }
}

/// While the output is open a wait keeps taking lines. It begins with a look at the process. A look
/// that shows it running is followed by taking a line as long as the output was not seen to be
/// closed, and by a sleep after that and only then; both last the usual pause, or what is left until
/// the deadline if that is less. A line that is not the one waited for, or none, or a sleep, is
/// followed by a reading of the clock, and a reading before the deadline by the next look.
pub proof fn law_line_wait_gets_on<S, E>(deadline: u128, events: Seq<LineEvent<S, E>>)
    requires
        line_history(deadline, events),
        no_exit_seen(events),
    ensures
        events.len() == 0 ==> (line_run(deadline, events) matches LineTurn::Ask(wait) && wait.action
            == LineAction::CheckStatus),
        events.len() > 0 && events.last() == LineEvent::<S, E>::Status(None) ==> (line_run(
            deadline,
            events,
        ) matches LineTurn::Ask(wait) && if closed_seen(events) {
            wait.action matches LineAction::Sleep(length) && length == pause_between(
                last_clock(events) as int,
                deadline as int,
            )
        } else {
            wait.action matches LineAction::TakeLine(length) && length == pause_between(
                last_clock(events) as int,
                deadline as int,
            )
        }),
        events.len() > 0 && (events.last() matches LineEvent::Line(_, false)) ==> (line_run(
            deadline,
            events,
        ) matches LineTurn::Ask(wait) && wait.action == LineAction::ReadClock),
        events.len() > 0 && (events.last() is NoLine || events.last() is Slept) ==> (line_run(
            deadline,
            events,
        ) matches LineTurn::Ask(wait) && wait.action == LineAction::ReadClock),
        events.len() > 0 && events.last() is Closed ==> (line_run(
            deadline,
            events,
        ) matches LineTurn::Ask(wait) && wait.action == LineAction::CheckStatus),
        events.len() > 0 && (events.last() matches LineEvent::Clock(now) && now < deadline) ==> (
        line_run(deadline, events) matches LineTurn::Ask(wait) && wait.action
            == LineAction::CheckStatus),
        events.len() > 0 && (events.last() matches LineEvent::Clock(now) && now >= deadline)
            ==> line_run(deadline, events) == LineTurn::<S, E>::End(LineReadiness::TimedOut),
        events.len() > 0 ==> (events.last() matches LineEvent::Line(text, true) ==> line_run(
            deadline,
            events,
        ) == LineTurn::<S, E>::End(LineReadiness::Line(text))),
        line_run(deadline, events) matches LineTurn::Ask(wait) ==> (wait.action is Sleep
            ==> closed_seen(events)),
{
    lemma_line_stands(deadline, events);
    lemma_line_closed(deadline, events);
    if events.len() > 0 {
        let earlier = events.drop_last();
        lemma_line_stands(deadline, earlier);
        lemma_line_closed(deadline, earlier);
        assert(forall|i: int| 0 <= i < earlier.len() ==> #[trigger] events[i] == earlier[i]);
        let before = line_run(deadline, earlier)->Ask_0;
        if let Some(status) = before.exited {
            let i = choose|i: int|
                0 <= i < earlier.len() && #[trigger] earlier[i] == LineEvent::<S, E>::Status(
                    Some(status),
                );
            assert(events[i] is Status);
        }
    }
}

/// Once the process was seen to have exited, at event `i`, with the output open, the lines that are
/// at hand are still taken, for one pause from the clock reading before that look, or until the
/// deadline if that is sooner. A line that is not the one waited for is followed by a reading of the
/// clock, and that by taking the next line for what is left, or by the end of the wait if nothing
/// is. No line, or the output being closed, ends the wait. It ends with the line or the status that
/// was seen. With the output closed the look itself ends the wait.
pub proof fn law_exited_line_wait_gets_on<S, E>(
    deadline: u128,
    events: Seq<LineEvent<S, E>>,
    i: int,
    status: S,
)
    requires
        line_history(deadline, events),
        0 <= i < events.len(),
        events[i] == LineEvent::<S, E>::Status(Some(status)),
    ensures
        ({
            let seen_at = last_clock(events.take(i)) as int;
            let end = seen_at + pause_between(seen_at, deadline as int);
            let run = line_run(deadline, events);
            &&& closed_seen(events.take(i)) ==> i == events.len() - 1 && run == LineTurn::<S, E>::End(
                LineReadiness::Exited(status),
            )
            &&& !closed_seen(events.take(i)) && i == events.len() - 1 ==> (
            run matches LineTurn::Ask(wait) && (wait.action matches LineAction::TakeLine(length)
                && length == end - seen_at))
            &&& i < events.len() - 1 ==> match events.last() {
                LineEvent::Line(text, found) => if found {
                    run == LineTurn::<S, E>::End(LineReadiness::Line(text))
                } else {
                    run matches LineTurn::Ask(wait) && wait.action == LineAction::ReadClock
                },
                LineEvent::NoLine | LineEvent::Closed => run == LineTurn::<S, E>::End(
                    LineReadiness::Exited(status),
                ),
                LineEvent::Clock(now) => if now >= end {
                    run == LineTurn::<S, E>::End(LineReadiness::Exited(status))
                } else {
                    run matches LineTurn::Ask(wait) && (wait.action matches LineAction::TakeLine(
                        length,
                    ) && length == pause_between(now as int, end))
                },
                _ => false,
            }
        }),
{
    lemma_line_prefix(deadline, events, i);
    lemma_line_stands(deadline, events.take(i));
    lemma_line_closed(deadline, events.take(i));
    let earlier = events.drop_last();
    if i == events.len() - 1 {
        assert(events.take(i) =~= earlier);
    } else {
        lemma_line_prefix(deadline, events, events.len() - 1);
        assert(events.take(events.len() - 1) =~= earlier);
        let before = line_run(deadline, earlier)->Ask_0;
        lemma_line_prefix(deadline, events, i + 1);
        lemma_line_after_exit(deadline, earlier, i, status, before);
        assert(earlier.take(i) =~= events.take(i));
    }
}

/// Where a wait stands after the exit was seen at event `i`, to the moment.
proof fn lemma_line_after_exit<S, E>(
    deadline: u128,
    events: Seq<LineEvent<S, E>>,
    i: int,
    status: S,
    wait: LineWait<S>,
)
    requires
        line_history(deadline, events),
        0 <= i < events.len(),
        events[i] == LineEvent::<S, E>::Status(Some(status)),
        line_run(deadline, events) == LineTurn::<S, E>::Ask(wait),
    ensures
        wait.exited == Some(status),
        wait.deadline == last_clock(events.take(i)) + pause_between(
            last_clock(events.take(i)) as int,
            deadline as int,
        ),
        wait.action is TakeLine || wait.action is ReadClock,
        !closed_seen(events.take(i)),
    decreases events.len(),
{
    let earlier = events.drop_last();
    lemma_line_stands(deadline, earlier);
    lemma_line_closed(deadline, earlier);
    let before = line_run(deadline, earlier)->Ask_0;
    if i == events.len() - 1 {
        assert(events.take(i) =~= earlier);
    } else {
        assert(earlier[i] == events[i]);
        assert(earlier.take(i) =~= events.take(i));
        lemma_line_after_exit(deadline, earlier, i, status, before);
    }
}

/// Every wait can be told what it asked for, and then does what [`LineWait::next`] does: a history
/// goes on with any answer.
pub proof fn law_line_history_goes_on<S, E>(
    deadline: u128,
    events: Seq<LineEvent<S, E>>,
    wait: LineWait<S>,
    event: LineEvent<S, E>,
)
    requires
        line_history(deadline, events),
        line_run(deadline, events) == LineTurn::<S, E>::Ask(wait),
        match wait.action {
            LineAction::CheckStatus => event is Status || event is Failed,
            LineAction::TakeLine(_) => event is Line || event is NoLine || event is Closed,
            LineAction::ReadClock => event is Clock,
            LineAction::Sleep(_) => event is Slept,
        },
    ensures
        line_history(deadline, events.push(event)),
        line_run(deadline, events.push(event)) == line_turn(wait, event),
        line_history(deadline, Seq::<LineEvent<S, E>>::empty()),
        line_run(deadline, Seq::<LineEvent<S, E>>::empty()) == LineTurn::<S, E>::Ask(
            line_start(deadline),
        ),
{
    assert(events.push(event).drop_last() =~= events);
}

/// The shorter of the usual pause and what is left is one of the two, and no longer than either.
pub proof fn law_pause_is_the_shorter(now: int, end: int)
    ensures
        pause_between(now, end) <= POLL,
        pause_between(now, end) <= end - now,
        pause_between(now, end) == POLL || pause_between(now, end) == end - now,
{
}

/// What was not asked for changes nothing: neither a wait for a line, nor copying, nor handing out.
pub proof fn law_lines_take_answers_only<S, E>(
    wait: LineWait<S>,
    event: LineEvent<S, E>,
    copying: DrainAsk,
    copied: DrainTold,
    handing: SendAsk,
    handed: SendTold,
)
    ensures
        !match wait.action {
            LineAction::CheckStatus => event is Status || event is Failed,
            LineAction::TakeLine(_) => event is Line || event is NoLine || event is Closed,
            LineAction::ReadClock => event is Clock,
            LineAction::Sleep(_) => event is Slept,
        } ==> line_turn(wait, event) == LineTurn::<S, E>::Ask(wait),
        !match copying {
            DrainAsk::OpenFile => copied is Opened,
            DrainAsk::ReadLine => copied is Line || copied is Finished,
            DrainAsk::Append(_) => copied is Appended,
            DrainAsk::DropRest => copied is Finished,
        } ==> drain_turn(copying, copied) == Some(copying),
        !match handing {
            SendAsk::ReadLine { .. } => handed is Line || handed is Finished,
            SendAsk::Send(_) => handed is Sent,
        } ==> send_turn(handing, handed) == Some(handing),
{
}

} // verus!
