//! Running a command through the shell interpreter, as a sequence of
//! decisions.
//!
//! Nothing here starts a process. A `Request` is led through its stages by
//! the caller, who does what each stage asks for and reports how it went:
//! the interpreter is looked up, then started, then fed the command, then
//! waited for. Each report either leads to the next stage or ends the run
//! with its error, and the last one gives the run's result. A stage can be
//! had from the stage before it alone, so none is skipped.

use crate::text::{lemma_trimmed_end_unique, trimmed_end};
use std::path::PathBuf;
use std::string::FromUtf8Error;
use vstd::prelude::*;
use vstd::string::StrSliceExecFns;
use vstd::utf8::{decode_utf8, encode_utf8, valid_utf8};

verus! {

/// `std::io::Error`: why an operation of the operating system failed. It
/// is handed on as it came; nothing is known of what it holds.
#[verifier::external_type_specification]
#[verifier::external_body]
pub struct ExIoError(std::io::Error);

/// `std::path::PathBuf`: a path of the file system. It is handed on as it
/// came; nothing is known of what it holds.
#[verifier::external_type_specification]
#[verifier::external_body]
pub struct ExPathBuf(PathBuf);

/// The name under which the interpreter is looked up on the search path.
pub const INTERPRETER: &'static str = "bash";

/// The name of the environment variable that selects the mode.
pub const CAPTURE_SETTING: &'static str = "RUN_CAPTURE_IO";

/// Why a run did not succeed.
#[derive(Debug)]
pub enum Error {
    /// The command ended with a code other than 0 while its output was
    /// captured; `stderr` is what it wrote to its error stream.
    FailedToRun { cmd: String, code: i32, stderr: String },
    /// The command ended with this code, which is not 0, while its output
    /// went to the caller's own streams.
    ExitCode(i32),
    /// The search path holds no interpreter.
    NoBashInPath,
    /// Starting the interpreter, writing to it or waiting for it failed.
    Io(std::io::Error),
    /// The child process has no input stream to write the command to.
    NoStdin,
    /// The child process has no output stream to capture.
    NoStdout,
    /// The child process has no error stream to capture.
    NoStderr,
    /// The child process ended without an exit code.
    NoExitCode,
    /// What the command wrote is not UTF-8.
    FromUtf8Error(FromUtf8Error),
}

/// An error as a mathematical value. Of bytes that are not UTF-8 it keeps
/// only that they were met.
pub enum ErrorView {
    FailedToRun { cmd: Seq<char>, code: i32, stderr: Seq<char> },
    ExitCode(i32),
    NoBashInPath,
    Io(std::io::Error),
    NoStdin,
    NoStdout,
    NoStderr,
    NoExitCode,
    FromUtf8Error,
}

impl View for Error {
    type V = ErrorView;

    open spec fn view(&self) -> ErrorView {
        match *self {
            Error::FailedToRun { cmd, code, stderr } => ErrorView::FailedToRun {
                cmd: cmd@,
                code,
                stderr: stderr@,
            },
            Error::ExitCode(code) => ErrorView::ExitCode(code),
            Error::NoBashInPath => ErrorView::NoBashInPath,
            Error::Io(error) => ErrorView::Io(error),
            Error::NoStdin => ErrorView::NoStdin,
            Error::NoStdout => ErrorView::NoStdout,
            Error::NoStderr => ErrorView::NoStderr,
            Error::NoExitCode => ErrorView::NoExitCode,
            Error::FromUtf8Error(_) => ErrorView::FromUtf8Error,
        }
    }
}

/// Where the output of the command goes.
#[derive(Debug, Clone, Copy, PartialEq, Eq, Structural)]
pub enum Mode {
    /// The output is collected and handed to the caller.
    Captured,
    /// The output goes to the caller's own output and error streams.
    Inherited,
}

/// The mode that a value of the environment variable selects; `None`
/// stands for a variable that is not set.
pub open spec fn mode_of(setting: Option<Seq<char>>) -> Mode {
    match setting {
        None => Mode::Inherited,
        Some(text) => if text == seq!['0'] {
            Mode::Inherited
        } else {
            Mode::Captured
        },
    }
}

impl Mode {
    /// The mode that the environment variable selects: inherited where it
    /// is not set or is `0`, captured for any other value.
    pub fn from_setting(setting: Option<&str>) -> (mode: Mode)
        ensures
            mode == mode_of(
                match setting {
                    Some(text) => Some(text@),
                    None => None,
                },
            ),
    {
        match setting {
            None => Mode::Inherited,
            Some(text) => {
                if text.unicode_len() == 1 && text.get_char(0) == '0' {
                    assert(text@ =~= seq!['0']);
                    Mode::Inherited
                } else {
                    Mode::Captured
                }
            },
        }
    }
}

/// What a run that succeeded hands to the caller.
#[derive(Debug)]
pub enum Output {
    /// What the command wrote to its output stream, without the whitespace
    /// at its end.
    Captured(String),
    /// Nothing: the output went to the caller's own streams.
    Inherited,
}

/// An output as a mathematical value.
pub enum OutputView {
    Captured(Seq<char>),
    Inherited,
}

impl View for Output {
    type V = OutputView;

    open spec fn view(&self) -> OutputView {
        match *self {
            Output::Captured(text) => OutputView::Captured(text@),
            Output::Inherited => OutputView::Inherited,
        }
    }
}

/// The mathematical value of a run's result.
pub open spec fn result_view(result: Result<Output, Error>) -> Result<OutputView, ErrorView> {
    match result {
        Ok(output) => Ok(output@),
        Err(error) => Err(error@),
    }
}

/// How a child process ended: its exit code, if it has one, and what it
/// wrote to the streams that were captured.
#[derive(Debug)]
pub struct Exit {
    pub code: Option<i32>,
    pub stdout: Vec<u8>,
    pub stderr: Vec<u8>,
}

/// What the end of the child process means for the run of `command`.
pub open spec fn interpretation(
    command: Seq<char>,
    mode: Mode,
    code: Option<i32>,
    stdout: Seq<u8>,
    stderr: Seq<u8>,
) -> Result<OutputView, ErrorView> {
    match mode {
        Mode::Inherited => match code {
            None => Err(ErrorView::NoExitCode),
            Some(code) => if code == 0 {
                Ok(OutputView::Inherited)
            } else {
                Err(ErrorView::ExitCode(code))
            },
        },
        Mode::Captured => if !valid_utf8(stdout) {
            Err(ErrorView::FromUtf8Error)
        } else {
            match code {
                None => Err(ErrorView::NoExitCode),
                Some(code) => if code == 0 {
                    Ok(OutputView::Captured(trimmed_end(decode_utf8(stdout))))
                } else if !valid_utf8(stderr) {
                    Err(ErrorView::FromUtf8Error)
                } else {
                    Err(ErrorView::FailedToRun { cmd: command, code, stderr: decode_utf8(stderr) })
                },
            }
        },
    }
}

/// Turns the end of the child process into the result of the run. Code 0
/// is success, any other code a failure that carries the code, and no code
/// a failure of its own kind. In captured mode the output is decoded, and
/// trimmed at its end, before the code is looked at; the error stream is
/// decoded only for a failure.
pub fn interpret(command: &str, mode: Mode, exit: Exit) -> (result: Result<Output, Error>)
    ensures
        result_view(result) == interpretation(
            command@,
            mode,
            exit.code,
            exit.stdout@,
            exit.stderr@,
        ),
{
    match mode {
        Mode::Inherited => match exit.code {
            None => Err(Error::NoExitCode),
            Some(code) => if code == 0 {
                Ok(Output::Inherited)
            } else {
                Err(Error::ExitCode(code))
            },
        },
        Mode::Captured => {
            let decoded = match String::from_utf8(exit.stdout) {
                Ok(text) => text,
                Err(error) => { return Err(Error::FromUtf8Error(error)); },
            };
            match exit.code {
                None => Err(Error::NoExitCode),
                Some(code) => if code == 0 {
                    let kept = decoded.as_str().trim_end();
                    proof {
                        lemma_trimmed_end_unique(decoded@, kept@);
                    }
                    Ok(Output::Captured(kept.to_owned()))
                } else {
                    match String::from_utf8(exit.stderr) {
                        Ok(stderr) => Err(
                            Error::FailedToRun { cmd: command.to_owned(), code, stderr },
                        ),
                        Err(error) => Err(Error::FromUtf8Error(error)),
                    }
                },
            }
        },
    }
}

/// A command to run: the text for the interpreter, the directory to run it
/// in, and where its output goes.
#[derive(Debug)]
pub struct Request {
    pub command: String,
    pub cwd: PathBuf,
    pub mode: Mode,
}

/// Which of its three streams a child process offers to its parent.
#[derive(Debug, Clone, Copy)]
pub struct Streams {
    pub stdin: bool,
    pub stdout: bool,
    pub stderr: bool,
}

/// Where one of the three streams of the child process is connected.
#[derive(Debug, Clone, Copy, PartialEq, Eq, Structural)]
pub enum Redirect {
    /// To a pipe whose other end the caller holds.
    Piped,
    /// To the caller's own stream.
    Inherited,
}

/// How the interpreter is started: where each of its streams goes, and
/// whether the directory it runs in is first made absolute and free of
/// symbolic links. The interpreter gets no arguments.
#[derive(Debug, Clone, Copy)]
pub struct Plan {
    pub stdin: Redirect,
    pub stdout: Redirect,
    pub stderr: Redirect,
    pub canonicalize_cwd: bool,
}

/// The plan of a mode. The command always reaches the interpreter through
/// a pipe. Captured output comes back through pipes; inherited output goes
/// to the caller's own streams, and then the directory is made canonical.
pub open spec fn plan_of(mode: Mode) -> Plan {
    match mode {
        Mode::Captured => Plan {
            stdin: Redirect::Piped,
            stdout: Redirect::Piped,
            stderr: Redirect::Piped,
            canonicalize_cwd: false,
        },
        Mode::Inherited => Plan {
            stdin: Redirect::Piped,
            stdout: Redirect::Inherited,
            stderr: Redirect::Inherited,
            canonicalize_cwd: true,
        },
    }
}

/// The first stream, in the order input, output, error, that the plan
/// connects to a pipe and the child process does not offer, as the error
/// that names it.
pub open spec fn missing_stream(plan: Plan, streams: Streams) -> Option<ErrorView> {
    if plan.stdin == Redirect::Piped && !streams.stdin {
        Some(ErrorView::NoStdin)
    } else if plan.stdout == Redirect::Piped && !streams.stdout {
        Some(ErrorView::NoStdout)
    } else if plan.stderr == Redirect::Piped && !streams.stderr {
        Some(ErrorView::NoStderr)
    } else {
        None
    }
}

/// The stage in which the interpreter is started.
#[derive(Debug)]
pub struct Launch {
    request: Request,
    program: PathBuf,
}

/// The stage in which the command is written to the interpreter.
#[derive(Debug)]
pub struct Feed {
    request: Request,
}

/// The stage in which the interpreter is waited for.
#[derive(Debug)]
pub struct Wait {
    request: Request,
}

/// `pathsearch::find_executable_in_path`: the first executable file of that
/// name in the directories that the `PATH` environment variable lists, if
/// there is one. Nothing is claimed of what it gives: that depends on the
/// environment and on the file system.
#[verifier::external_body]
fn find_executable_in_path(name: &str) -> (found: Option<PathBuf>) {
    pathsearch::find_executable_in_path(name)
}

impl Request {
    /// Looks the interpreter up on the search path and enters the first
    /// stage with what was found.
    pub fn locate(self) -> (result: Result<Launch, Error>)
        ensures
            result matches Err(error) ==> error@ == ErrorView::NoBashInPath,
            result matches Ok(launch) ==> launch.request() == self,
    {
        let found = find_executable_in_path(INTERPRETER);
        self.located(found)
    }

    /// The first stage: the interpreter was looked up on the search path,
    /// and `interpreter` is where it was found. Without an interpreter the
    /// run ends here, before any process is started.
    pub fn located(self, interpreter: Option<PathBuf>) -> (result: Result<Launch, Error>)
        ensures
            match interpreter {
                None => result matches Err(error) && error@ == ErrorView::NoBashInPath,
                Some(program) => result matches Ok(launch) && launch.request() == self
                    && launch.interpreter() == program,
            },
    {
        match interpreter {
            None => Err(Error::NoBashInPath),
            Some(program) => Ok(Launch { request: self, program }),
        }
    }
}

impl Launch {
    /// The request that is being run.
    pub closed spec fn request(self) -> Request {
        self.request
    }

    /// The interpreter that was found.
    pub closed spec fn interpreter(self) -> PathBuf {
        self.program
    }

    /// The program to start: the interpreter that was found.
    pub fn program(&self) -> (program: &PathBuf)
        ensures
            *program == self.interpreter(),
    {
        &self.program
    }

    /// The directory of the request.
    pub fn cwd(&self) -> (cwd: &PathBuf)
        ensures
            *cwd == self.request().cwd,
    {
        &self.request.cwd
    }

    /// How the interpreter is to be started.
    pub fn plan(&self) -> (plan: Plan)
        ensures
            plan == plan_of(self.request().mode),
    {
        match self.request.mode {
            Mode::Captured => Plan {
                stdin: Redirect::Piped,
                stdout: Redirect::Piped,
                stderr: Redirect::Piped,
                canonicalize_cwd: false,
            },
            Mode::Inherited => Plan {
                stdin: Redirect::Piped,
                stdout: Redirect::Inherited,
                stderr: Redirect::Inherited,
                canonicalize_cwd: true,
            },
        }
    }

    /// The second stage: the interpreter was started, and `child` says
    /// which streams the child process offers, or why there is none. A
    /// stream that is needed and not offered ends the run with the error
    /// that names it.
    pub fn spawned(self, child: Result<Streams, std::io::Error>) -> (result: Result<Feed, Error>)
        ensures
            match child {
                Err(failure) => result matches Err(error) && error@ == ErrorView::Io(failure),
                Ok(streams) => match missing_stream(plan_of(self.request().mode), streams) {
                    Some(missing) => result matches Err(error) && error@ == missing,
                    None => result matches Ok(feed) && feed.request() == self.request(),
                },
            },
    {
        match child {
            Err(failure) => Err(Error::Io(failure)),
            Ok(streams) => {
                let plan = self.plan();
                if plan.stdin == Redirect::Piped && !streams.stdin {
                    Err(Error::NoStdin)
                } else if plan.stdout == Redirect::Piped && !streams.stdout {
                    Err(Error::NoStdout)
                } else if plan.stderr == Redirect::Piped && !streams.stderr {
                    Err(Error::NoStderr)
                } else {
                    Ok(Feed { request: self.request })
                }
            },
        }
    }
}

impl Feed {
    /// The request that is being run.
    pub closed spec fn request(self) -> Request {
        self.request
    }

    /// What is to be written to the input stream of the child process
    /// before the stream is closed: the command, byte for byte.
    pub fn input(&self) -> (bytes: Vec<u8>)
        ensures
            bytes@ == encode_utf8(self.request().command@),
    {
        self.request.command.as_str().as_bytes_vec()
    }

    /// The third stage: the command was written and the stream closed, or
    /// writing failed.
    pub fn written(self, outcome: Result<(), std::io::Error>) -> (result: Result<Wait, Error>)
        ensures
            match outcome {
                Err(failure) => result matches Err(error) && error@ == ErrorView::Io(failure),
                Ok(_) => result matches Ok(wait) && wait.request() == self.request(),
            },
    {
        match outcome {
            Err(failure) => Err(Error::Io(failure)),
            Ok(_) => Ok(Wait { request: self.request }),
        }
    }
}

impl Wait {
    /// The request that is being run.
    pub closed spec fn request(self) -> Request {
        self.request
    }

    /// Whether what the child process writes to its output and error
    /// streams is to be collected while it is waited for: in captured mode,
    /// where both are pipes.
    pub fn collect_output(&self) -> (wanted: bool)
        ensures
            wanted == (self.request().mode == Mode::Captured),
            wanted == (plan_of(self.request().mode).stdout == Redirect::Piped),
    {
        self.request.mode == Mode::Captured
    }

    /// The last stage: the child process ended as `outcome` says, or
    /// waiting for it failed.
    pub fn exited(self, outcome: Result<Exit, std::io::Error>) -> (result: Result<Output, Error>)
        ensures
            match outcome {
                Err(failure) => result_view(result) == Err::<OutputView, ErrorView>(
                    ErrorView::Io(failure),
                ),
                Ok(exit) => result_view(result) == interpretation(
                    self.request().command@,
                    self.request().mode,
                    exit.code,
                    exit.stdout@,
                    exit.stderr@,
                ),
            },
    {
        match outcome {
            Err(failure) => Err(Error::Io(failure)),
            Ok(exit) => interpret(self.request.command.as_str(), self.request.mode, exit),
        }
    }
}

} // verus!
