//! The process tree of a helper: how it is set up, how it is stopped, and how a process ended.

use vstd::prelude::*;

verus! {

/// The creation flag that keeps a child from getting a console window of its own on Windows.
pub const CREATE_NO_WINDOW: u32 = 0x0800_0000;

/// The creation flags that hide the console of a child: none where there is no such console.
pub fn console_flags(windows: bool) -> (flags: Option<u32>)
    ensures
        flags == if windows {
            Some(CREATE_NO_WINDOW)
        } else {
            None
        },
{
    if windows {
        Some(CREATE_NO_WINDOW)
    } else {
        None
    }
}

/// A step of putting a running child into a job of its own. `E` is the error of a step.
#[derive(Debug, Clone, PartialEq, Eq)]
pub enum JobStep<E> {
    /// Create the job.
    Create,
    /// Let the system terminate everything in the job when the job is closed.
    LimitToJob,
    /// Put the child into the job.
    Assign,
    /// Close the job, because a step failed with this error; that closing fails is no reason to
    /// report another.
    Close(E),
}

/// What adopting a child does next.
#[derive(Debug, Clone, PartialEq, Eq)]
pub enum JobTurn<E> {
    /// Take this step.
    Ask(JobStep<E>),
    /// The child is in the job, which stays open.
    Adopted,
    /// There is no job, because of this error.
    Failed(E),
}

/// What adopting a child does once a step ended in `result`.
pub open spec fn job_turn<E>(step: JobStep<E>, result: Result<(), E>) -> JobTurn<E> {
    match (step, result) {
        (JobStep::Create, Ok(_)) => JobTurn::Ask(JobStep::LimitToJob),
        (JobStep::Create, Err(error)) => JobTurn::Failed(error),
        (JobStep::LimitToJob, Ok(_)) => JobTurn::Ask(JobStep::Assign),
        (JobStep::LimitToJob, Err(error)) => JobTurn::Ask(JobStep::Close(error)),
        (JobStep::Assign, Ok(_)) => JobTurn::Adopted,
        (JobStep::Assign, Err(error)) => JobTurn::Ask(JobStep::Close(error)),
        (JobStep::Close(error), _) => JobTurn::Failed(error),
    }
}

/// The first step of adopting a child.
pub fn adopt_first<E>() -> (step: JobStep<E>)
    ensures
        step is Create,
{
    JobStep::Create
}

/// What adopting a child does once a step ended in `result`.
pub fn adopt_next<E>(step: JobStep<E>, result: Result<(), E>) -> (turn: JobTurn<E>)
    ensures
        turn == job_turn(step, result),
{
    match (step, result) {
        (JobStep::Create, Ok(_)) => JobTurn::Ask(JobStep::LimitToJob),
        (JobStep::Create, Err(error)) => JobTurn::Failed(error),
        (JobStep::LimitToJob, Ok(_)) => JobTurn::Ask(JobStep::Assign),
        (JobStep::LimitToJob, Err(error)) => JobTurn::Ask(JobStep::Close(error)),
        (JobStep::Assign, Ok(_)) => JobTurn::Adopted,
        (JobStep::Assign, Err(error)) => JobTurn::Ask(JobStep::Close(error)),
        (JobStep::Close(error), _) => JobTurn::Failed(error),
    }
}

/// Where adopting a child stands once its steps, first to last, ended in `results`.
pub open spec fn job_run<E>(results: Seq<Result<(), E>>) -> JobTurn<E>
    decreases results.len(),
{
    if results.len() == 0 {
        JobTurn::Ask(JobStep::Create)
    } else {
        match job_run(results.drop_last()) {
            JobTurn::Ask(step) => job_turn(step, results.last()),
            end => end,
        }
    }
}

/// That `results` are those of the steps that were taken, so that none comes after the end.
pub open spec fn job_history<E>(results: Seq<Result<(), E>>) -> bool
    decreases results.len(),
{
    results.len() == 0 || (job_history(results.drop_last()) && job_run(results.drop_last()) is Ask)
}

/// A child is adopted exactly if the job was created, limited and given the child. Otherwise the
/// error is that of the first step that failed, whatever became of closing the job; and a job that
/// was created is closed again whenever a later step fails, and only then.
pub proof fn law_failed_adoption_closes_the_job<E>(results: Seq<Result<(), E>>)
    requires
        job_history(results),
    ensures
        job_run(results) is Adopted <==> results.len() == 3 && results[0] is Ok && results[1] is Ok
            && results[2] is Ok,
        job_run(results) matches JobTurn::Failed(error) ==> exists|i: int|
            0 <= i < results.len() && #[trigger] results[i] == Err::<(), E>(error) && (forall|k: int|
                0 <= k < i ==> (#[trigger] results[k]) is Ok) && results.len() == if i == 0 {
                1int
            } else {
                i + 2
            },
        job_run(results) matches JobTurn::Ask(JobStep::Close(error)) ==> 2 <= results.len() <= 3
            && results.last() == Err::<(), E>(error) && (forall|k: int|
            0 <= k < results.len() - 1 ==> (#[trigger] results[k]) is Ok),
        results.len() == 1 && results[0] is Err ==> job_run(results) is Failed,
        2 <= results.len() <= 3 && results.last() is Err && (forall|k: int|
            0 <= k < results.len() - 1 ==> (#[trigger] results[k]) is Ok) ==> job_run(
            results,
        ) matches JobTurn::Ask(JobStep::Close(_)),
{
    lemma_job_stands(results);
    if results.len() > 0 {
        let earlier = results.drop_last();
        lemma_job_stands(earlier);
        if let JobTurn::Failed(error) = job_run(results) {
            if results.len() == 1 {
                assert(results[0] == Err::<(), E>(error));
            } else {
                assert(results[results.len() - 2] == Err::<(), E>(error));
            }
        }
    }
}

/// Where adopting a child stands, told by the results.
proof fn lemma_job_stands<E>(results: Seq<Result<(), E>>)
    requires
        job_history(results),
    ensures
        match job_run(results) {
            JobTurn::Ask(JobStep::Create) => results.len() == 0,
            JobTurn::Ask(JobStep::LimitToJob) => results.len() == 1 && results[0] is Ok,
            JobTurn::Ask(JobStep::Assign) => results.len() == 2 && results[0] is Ok
                && results[1] is Ok,
            JobTurn::Ask(JobStep::Close(error)) => 2 <= results.len() <= 3 && results[0] is Ok && (
            results.len() == 3 ==> results[1] is Ok) && results.last() == Err::<(), E>(error),
            JobTurn::Adopted => results.len() == 3 && results[0] is Ok && results[1] is Ok
                && results[2] is Ok,
            JobTurn::Failed(error) => if results.len() == 1 {
                results[0] == Err::<(), E>(error)
            } else {
                &&& 3 <= results.len() <= 4
                &&& results[results.len() - 2] == Err::<(), E>(error)
                &&& results[0] is Ok
                &&& results.len() == 4 ==> results[1] is Ok
            },
        },
    decreases results.len(),
{
    if results.len() > 0 {
        let earlier = results.drop_last();
        lemma_job_stands(earlier);
        assert(forall|k: int| 0 <= k < earlier.len() ==> #[trigger] results[k] == earlier[k]);
    }
}

/// Whether a process group is stopped, from what signalling it returned: zero, or the system's
/// error. A group that is gone already is stopped.
pub fn group_kill_outcome(returned: i32, error: i32, no_such_process: i32) -> (res: Result<(), i32>)
    ensures
        res == if returned == 0 || error == no_such_process {
            Ok::<(), i32>(())
        } else {
            Err(error)
        },
{
    if returned != 0 && error != no_such_process {
        Err(error)
    } else {
        Ok(())
    }
}

/// Whether a job is terminated, from what terminating it returned: zero if it failed, with the
/// system's error.
pub fn job_kill_outcome(returned: i32, error: i32) -> (res: Result<(), i32>)
    ensures
        res == if returned != 0 {
            Ok::<(), i32>(())
        } else {
            Err(error)
        },
{
    if returned != 0 {
        Ok(())
    } else {
        Err(error)
    }
}

/// Whether a child is stopped, from how killing it ended: an error that says that there was nothing
/// to kill is none.
pub fn child_kill_outcome<E>(killed: Result<(), E>, invalid_input: bool) -> (res: Result<(), E>)
    ensures
        res == match killed {
            Err(error) => if invalid_input {
                Ok::<(), E>(())
            } else {
                Err(error)
            },
            Ok(_) => Ok(()),
        },
{
    match killed {
        Err(error) => if invalid_input {
            Ok(())
        } else {
            Err(error)
        },
        Ok(_) => Ok(()),
    }
}

/// That a look at a process shows it running. A look that failed does not.
pub open spec fn shows_running<S, E>(look: Result<Option<S>, E>) -> bool {
    look matches Ok(None)
}

/// Whether a process is still running, from a look at its status. A look that failed does not show
/// that it is.
pub fn is_running<S, E>(status: &Result<Option<S>, E>) -> (running: bool)
    ensures
        running == shows_running(*status),
        running == (*status matches Ok(None)),
{
    match status {
        Ok(None) => true,
        _ => false,
    }
}

/// What is known of the end of a process: the status that a look at it found first.
#[derive(Debug, Clone, Copy)]
pub struct Watch<S> {
    /// The exit status, once a look found it.
    pub seen: Option<S>,
}

/// What a look at a process is reported as, and what is known of it afterwards, given what was
/// known before and what the look found.
pub open spec fn reported_look<S, E>(seen: Option<S>, found: Result<Option<S>, E>) -> (
    Result<Option<S>, E>,
    Option<S>,
) {
    match (seen, found) {
        (Some(status), _) => (Ok(Some(status)), Some(status)),
        (None, Ok(now)) => (Ok(now), now),
        (None, Err(error)) => (Err(error), None),
    }
}

impl<S: Copy> Watch<S> {
    /// Nothing is known of the end of the process.
    pub fn new() -> (watch: Watch<S>)
        ensures
            watch.seen is None,
    {
        Watch { seen: None }
    }

    /// What a look at the process is reported as: what it found, or the status that an earlier look
    /// found, which stays.
    pub fn report<E>(&mut self, found: Result<Option<S>, E>) -> (look: Result<Option<S>, E>)
        ensures
            (look, final(self).seen) == reported_look(old(self).seen, found),
    {
        match self.seen {
            Some(status) => Ok(Some(status)),
            None => match found {
                Ok(now) => {
                    self.seen = now;
                    Ok(now)
                },
                Err(error) => Err(error),
            },
        }
    }
}

/// What is known of a process after looks that found this, first to last.
pub open spec fn seen_after<S, E>(found: Seq<Result<Option<S>, E>>) -> Option<S>
    decreases found.len(),
{
    if found.len() == 0 {
        None
    } else {
        reported_look(seen_after(found.drop_last()), found.last()).1
    }
}

/// What look `i` of these is reported as.
pub open spec fn look_at<S, E>(found: Seq<Result<Option<S>, E>>, i: int) -> Result<Option<S>, E> {
    reported_look(seen_after(found.take(i)), found[i]).0
}

/// A process that was once reported as exited stays so, with the same status, whatever later looks
/// find; it is never reported as running again.
pub proof fn law_exit_is_for_good<S, E>(
    found: Seq<Result<Option<S>, E>>,
    i: int,
    j: int,
    status: S,
)
    requires
        0 <= i <= j < found.len(),
        look_at(found, i) == Ok::<Option<S>, E>(Some(status)),
    ensures
        look_at(found, j) == Ok::<Option<S>, E>(Some(status)),
        !shows_running(look_at(found, j)),
        seen_after(found) == Some(status),
    decreases found.len() - i, j - i,
{
    assert(found.take(i + 1).drop_last() =~= found.take(i));
    assert(found.take(i + 1).last() == found[i]);
    assert(seen_after(found.take(i + 1)) == Some(status));
    if i + 1 == found.len() {
        assert(found.take(i + 1) =~= found);
    } else {
        assert(look_at(found, i + 1) == Ok::<Option<S>, E>(Some(status)));
        law_exit_is_for_good(found, i + 1, if j > i { j } else { i + 1 }, status);
    }
}

/// How a process ended.
#[derive(Debug, Clone, Copy, PartialEq, Eq, Structural)]
pub enum ProcessEnd {
    /// It exited with this code.
    Exited(u8),
    /// A signal killed it.
    Killed(u8),
    /// A signal killed it, and it left a core dump.
    Dumped(u8),
}

/// How a child ended, from what the system says of it: no child while it is running, otherwise a
/// code for the way it ended, and the exit code or the signal in the low byte of `status`.
/// `exited` and `dumped` are the system's codes for an exit and for a core dump.
pub fn child_end(pid: i32, code: i32, status: i32, exited: i32, dumped: i32) -> (end: Option<
    ProcessEnd,
>)
    ensures
        end == if pid == 0 {
            None
        } else if code == exited {
            Some(ProcessEnd::Exited((status as int % 256) as u8))
        } else if code == dumped {
            Some(ProcessEnd::Dumped((status as int % 256) as u8))
        } else {
            Some(ProcessEnd::Killed((status as int % 256) as u8))
        },
{
    if pid == 0 {
        return None;
    }
    let low: u8 = (status & 0xff) as u8;
    assert(low == status as int % 256) by {
        assert((status & 0xff) as u8 == status % 256) by (bit_vector);
    }
    if code == exited {
        Some(ProcessEnd::Exited(low))
    } else if code == dumped {
        Some(ProcessEnd::Dumped(low))
    } else {
        Some(ProcessEnd::Killed(low))
    }
}

/// How a process ended, read from a Unix wait status: the low seven bits are the signal, the next
/// one says whether there is a core dump, and the second byte is the exit code.
pub open spec fn end_of_wait_status(status: int) -> ProcessEnd {
    if status % 128 == 0 {
        ProcessEnd::Exited((status / 256 % 256) as u8)
    } else if status / 128 % 2 == 1 {
        ProcessEnd::Dumped((status % 128) as u8)
    } else {
        ProcessEnd::Killed((status % 128) as u8)
    }
}

/// The Unix wait status of a process that ended like this.
pub open spec fn wait_status_of(end: ProcessEnd) -> int {
    match end {
        ProcessEnd::Exited(code) => code as int * 256,
        ProcessEnd::Killed(signal) => signal as int % 128,
        ProcessEnd::Dumped(signal) => signal as int % 128 + 128,
    }
}

/// The Unix wait status of a process that ended like this.
pub fn wait_status(end: ProcessEnd) -> (status: i32)
    ensures
        status == wait_status_of(end),
        match end {
            ProcessEnd::Exited(code) => status == 256 * code,
            ProcessEnd::Killed(signal) => status == signal as int % 128,
            ProcessEnd::Dumped(signal) => status == signal as int % 128 + 128,
        },
{
    match end {
        ProcessEnd::Exited(code) => code as i32 * 256,
        ProcessEnd::Killed(signal) => (signal % 128) as i32,
        ProcessEnd::Dumped(signal) => (signal % 128) as i32 + 128,
    }
}

/// The wait status keeps how the process ended, for every exit code and every signal number.
pub proof fn law_wait_status_keeps_the_end(end: ProcessEnd)
    requires
        match end {
            ProcessEnd::Exited(_) => true,
            ProcessEnd::Killed(signal) | ProcessEnd::Dumped(signal) => 0 < signal < 128,
        },
    ensures
        end_of_wait_status(wait_status_of(end)) == end,
{
}

/// The steps of an adoption come in order: the job is created, then limited, then given the child,
/// each only once the one before has succeeded; and every step can be told how it ended.
pub proof fn law_adoption_gets_on<E>(
    results: Seq<Result<(), E>>,
    step: JobStep<E>,
    result: Result<(), E>,
)
    requires
        job_history(results),
    ensures
        results.len() == 0 ==> job_run(results) == JobTurn::<E>::Ask(JobStep::Create),
        results.len() == 1 && results[0] is Ok ==> job_run(results) == JobTurn::<E>::Ask(
            JobStep::LimitToJob,
        ),
        results.len() == 2 && results[0] is Ok && results[1] is Ok ==> job_run(results)
            == JobTurn::<E>::Ask(JobStep::Assign),
        job_run(results) == JobTurn::Ask(step) ==> job_history(results.push(result)) && job_run(
            results.push(result),
        ) == job_turn(step, result),
        results.len() <= 4,
        results.len() == 3 && results[1] is Err ==> job_run(results) is Failed,
        results.len() == 4 ==> job_run(results) is Failed,
{
    lemma_job_stands(results);
    if results.len() > 0 {
        lemma_job_stands(results.drop_last());
    }
    assert(results.push(result).drop_last() =~= results);
}

/// As long as no look found the process exited, each is reported as it is; the first that does is
/// reported too.
pub proof fn law_looks_are_reported_as_found<S, E>(found: Seq<Result<Option<S>, E>>, i: int)
    requires
        0 <= i < found.len(),
        forall|k: int| 0 <= k < i ==> !(#[trigger] found[k] matches Ok(Some(_))),
    ensures
        look_at(found, i) == found[i],
        shows_running(look_at(found, i)) <==> (found[i] matches Ok(None)),
{
    lemma_nothing_seen(found.take(i));
}

/// Looks that found no exit leave nothing known.
proof fn lemma_nothing_seen<S, E>(found: Seq<Result<Option<S>, E>>)
    requires
        forall|k: int| 0 <= k < found.len() ==> !(#[trigger] found[k] matches Ok(Some(_))),
    ensures
        seen_after(found) is None,
    decreases found.len(),
{
    if found.len() > 0 {
        let earlier = found.drop_last();
        assert(forall|k: int| 0 <= k < earlier.len() ==> #[trigger] earlier[k] == found[k]);
        lemma_nothing_seen(earlier);
        assert(found[found.len() - 1] == found.last());
    }
}

/// What [`Watch::report`] does, call after call, is what [`look_at`] says of each.
pub proof fn law_looks_go_on<S, E>(
    found: Seq<Result<Option<S>, E>>,
    next: Result<Option<S>, E>,
)
    ensures
        look_at(found.push(next), found.len() as int) == reported_look(seen_after(found), next).0,
        seen_after(found.push(next)) == reported_look(seen_after(found), next).1,
        seen_after(Seq::<Result<Option<S>, E>>::empty()) is None,
{
    assert(found.push(next).take(found.len() as int) =~= found);
    assert(found.push(next).drop_last() =~= found);
}

/// A wait status has the exit code in its second byte, and the signal in its low seven bits with a
/// core dump in the next; no signal means an exit.
pub proof fn law_wait_status_in_full(code: u8, signal: u8)
    requires
        0 < signal < 128,
    ensures
        wait_status_of(ProcessEnd::Exited(code)) == 256 * code,
        wait_status_of(ProcessEnd::Killed(signal)) == signal,
        wait_status_of(ProcessEnd::Dumped(signal)) == signal + 128,
        end_of_wait_status(256 * code) == ProcessEnd::Exited(code),
        end_of_wait_status(signal as int) == ProcessEnd::Killed(signal),
        end_of_wait_status(signal + 128) == ProcessEnd::Dumped(signal),
{
}

} // verus!
