//! External commands that the backend asks to have run, and how their
//! results are judged.
use vstd::prelude::*;

use crate::error::AppError;
use crate::text::{join, join_strings, views};

verus! {

/// An external program invocation.
#[derive(Debug, Clone)]
pub struct Command {
    /// Program name, looked up on `PATH`.
    pub program: String,
    /// Arguments, in order.
    pub args: Vec<String>,
    /// Whether a non-zero exit status counts as failure.
    pub check_status: bool,
    /// Whether the status bar is to be signalled after the command succeeds.
    pub notify_waybar: bool,
}

/// The plain value of a [`Command`].
pub struct CommandView {
    pub program: Seq<char>,
    pub args: Seq<Seq<char>>,
    pub check_status: bool,
    pub notify_waybar: bool,
}

impl View for Command {
    type V = CommandView;

    open spec fn view(&self) -> CommandView {
        CommandView {
            program: self.program@,
            args: views(self.args@),
            check_status: self.check_status,
            notify_waybar: self.notify_waybar,
        }
    }
}

/// What running a program produced.
#[derive(Debug, Clone)]
pub enum ProcessOutput {
    /// The program could not be started; the text of the system error.
    SpawnFailed(String),
    /// The program ran to completion.
    Exited { success: bool, stdout: String, stderr: String },
}

/// The command line as it is shown in error messages: the program, a space,
/// and the arguments separated by spaces.
pub open spec fn command_line_of(c: CommandView) -> Seq<char> {
    c.program + " "@ + join(c.args, " "@)
}

/// The result of a run: the standard output, or an error naming the command.
pub open spec fn run_result(c: CommandView, out: ProcessOutput) -> Result<Seq<char>, (Seq<char>, Seq<char>)> {
    match out {
        ProcessOutput::SpawnFailed(msg) => Err((command_line_of(c), msg@)),
        ProcessOutput::Exited { success, stdout, stderr } => {
            if c.check_status && !success {
                Err((command_line_of(c), stderr@))
            } else {
                Ok(stdout@)
            }
        },
    }
}

/// An invocation of `program` with `args`.
pub fn command(program: &str, args: Vec<String>, check_status: bool, notify_waybar: bool) -> (c: Command)
    ensures
        c@ == (CommandView { program: program@, args: views(args@), check_status, notify_waybar }),
{
    Command { program: program.to_owned(), args, check_status, notify_waybar }
}

/// An owned copy of `s`.
pub fn owned(s: &str) -> (r: String)
    ensures
        r@ == s@,
{
    s.to_owned()
}

impl Command {
    /// The command line as it is shown in error messages.
    pub fn command_line(&self) -> (r: String)
        ensures
            r@ == command_line_of(self@),
    {
        let mut r = self.program.clone();
        r.append(" ");
        let rest = join_strings(&self.args, " ");
        r.append(rest.as_str());
        r
    }

    /// Judges a finished run: failure to start, or a non-zero exit status
    /// when the status is checked, is an error; otherwise the output counts.
    pub fn finish(&self, out: ProcessOutput) -> (r: Result<String, AppError>)
        ensures
            match run_result(self@, out) {
                Ok(s) => r matches Ok(o) && o@ == s,
                Err((cmd, msg)) => r matches Err(AppError::Command { cmd: c, msg: m }) && c@ == cmd
                    && m@ == msg,
            },
    {
        match out {
            ProcessOutput::SpawnFailed(msg) => Err(AppError::Command { cmd: self.command_line(), msg }),
            ProcessOutput::Exited { success, stdout, stderr } => {
                if self.check_status && !success {
                    Err(AppError::Command { cmd: self.command_line(), msg: stderr })
                } else {
                    Ok(stdout)
                }
            },
        }
    }
}

} // verus!
