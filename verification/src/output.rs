//! Where the output of a helper process goes.

use vstd::prelude::*;

verus! {

/// Where the sidecar's stdout and stderr go.
#[derive(Debug, Clone)]
#[allow(inconsistent_fields)]
pub enum Output {
    /// Discarded.
    Discard,
    /// Appended line by line to these files, so that the child never blocks on a full pipe. Bytes
    /// that are not valid UTF-8 are replaced rather than dropping the line.
    Files { stdout: std::path::PathBuf, stderr: std::path::PathBuf },
    /// stdout is read line by line, for a wait for the line that says that the child is ready, and
    /// goes on being read after it. stderr is appended to a file, or discarded.
    Lines { stderr: Option<std::path::PathBuf> },
}

/// What a standard stream of the child is connected to.
#[derive(Debug, Clone, Copy, PartialEq, Eq, Structural)]
pub enum Stream {
    /// Nothing.
    Null,
    /// A pipe to the app.
    Piped,
}

/// What the standard streams of the child are connected to.
#[derive(Debug, Clone, Copy, PartialEq, Eq, Structural)]
pub struct Streams {
    pub stdin: Stream,
    pub stdout: Stream,
    pub stderr: Stream,
}

/// Where the app puts what comes through a pipe.
#[derive(Debug)]
pub enum Sink {
    /// It is appended to this file, line by line.
    File(std::path::PathBuf),
    /// Its lines are handed to a wait for a line.
    Lines,
}

/// Where the app puts the child's output.
#[derive(Debug)]
pub struct Sinks {
    pub stdout: Option<Sink>,
    pub stderr: Option<Sink>,
}

/// What the streams are connected to.
pub open spec fn streams_of(output: Output) -> Streams {
    Streams {
        stdin: Stream::Null,
        stdout: match output {
            Output::Discard => Stream::Null,
            _ => Stream::Piped,
        },
        stderr: match output {
            Output::Discard | Output::Lines { stderr: None } => Stream::Null,
            _ => Stream::Piped,
        },
    }
}

/// Where the output is put.
pub open spec fn sinks_of(output: Output) -> Sinks {
    match output {
        Output::Discard => Sinks { stdout: None, stderr: None },
        Output::Files { stdout, stderr } => Sinks {
            stdout: Some(Sink::File(stdout)),
            stderr: Some(Sink::File(stderr)),
        },
        Output::Lines { stderr } => Sinks {
            stdout: Some(Sink::Lines),
            stderr: match stderr {
                Some(path) => Some(Sink::File(path)),
                None => None,
            },
        },
    }
}

impl Output {
    /// What the child's streams are connected to. It never reads from the app.
    pub fn streams(&self) -> (streams: Streams)
        ensures
            streams == streams_of(*self),
    {
        let (stdout, stderr) = match self {
            Output::Discard => (Stream::Null, Stream::Null),
            Output::Files { .. } => (Stream::Piped, Stream::Piped),
            Output::Lines { stderr: Some(_) } => (Stream::Piped, Stream::Piped),
            Output::Lines { stderr: None } => (Stream::Piped, Stream::Null),
        };
        Streams { stdin: Stream::Null, stdout, stderr }
    }

    /// Where the app puts what comes through the pipes.
    pub fn sinks(self) -> (sinks: Sinks)
        ensures
            sinks == sinks_of(self),
    {
        match self {
            Output::Discard => Sinks { stdout: None, stderr: None },
            Output::Files { stdout, stderr } => Sinks {
                stdout: Some(Sink::File(stdout)),
                stderr: Some(Sink::File(stderr)),
            },
            Output::Lines { stderr } => {
                let stderr = match stderr {
                    Some(path) => Some(Sink::File(path)),
                    None => None,
                };
                Sinks { stdout: Some(Sink::Lines), stderr }
            },
        }
    }
}

/// Every pipe is read: a stream is piped exactly if there is a place for what comes through it.
pub proof fn law_every_pipe_is_read(output: Output)
    ensures
        streams_of(output).stdout == Stream::Piped <==> sinks_of(output).stdout is Some,
        streams_of(output).stderr == Stream::Piped <==> sinks_of(output).stderr is Some,
        streams_of(output).stdin == Stream::Null,
{
}

/// There are lines to wait for exactly if the output is kept line by line.
pub proof fn law_lines_are_kept_for_lines_output(output: Output)
    ensures
        sinks_of(output).stdout matches Some(Sink::Lines) <==> output is Lines,
{
}

/// The output goes where it was said to go: nowhere, each stream to its own file, or stdout line by
/// line and stderr to its file if there is one. What goes nowhere has no pipe.
pub proof fn law_output_goes_where_it_is_said(
    stdout: std::path::PathBuf,
    stderr: std::path::PathBuf,
)
    ensures
        sinks_of(Output::Discard).stdout is None,
        sinks_of(Output::Discard).stderr is None,
        sinks_of(Output::Files { stdout, stderr }).stdout == Some(Sink::File(stdout)),
        sinks_of(Output::Files { stdout, stderr }).stderr == Some(Sink::File(stderr)),
        sinks_of(Output::Lines { stderr: Some(stderr) }).stdout == Some(Sink::Lines),
        sinks_of(Output::Lines { stderr: Some(stderr) }).stderr == Some(Sink::File(stderr)),
        sinks_of(Output::Lines { stderr: None }).stdout == Some(Sink::Lines),
        sinks_of(Output::Lines { stderr: None }).stderr is None,
        streams_of(Output::Discard).stdout == Stream::Null,
        streams_of(Output::Discard).stderr == Stream::Null,
        streams_of(Output::Files { stdout, stderr }).stdout == Stream::Piped,
        streams_of(Output::Files { stdout, stderr }).stderr == Stream::Piped,
        streams_of(Output::Lines { stderr: Some(stderr) }).stdout == Stream::Piped,
        streams_of(Output::Lines { stderr: Some(stderr) }).stderr == Stream::Piped,
        streams_of(Output::Lines { stderr: None }).stdout == Stream::Piped,
        streams_of(Output::Lines { stderr: None }).stderr == Stream::Null,
{
}

} // verus!
