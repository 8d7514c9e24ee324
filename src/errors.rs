//! Result and error types.
use vstd::prelude::*;
use vstd::string::*;

verus! {

/// Error raised by any step of the tool, carrying a single-line message.
#[derive(Debug)]
pub struct MaggError {
    message: String,
}

impl View for MaggError {
    type V = Seq<char>;

    closed spec fn view(&self) -> Seq<char> {
        self.message@
    }
}

impl MaggError {
    /// Creates an error with the given message.
    pub fn new(message: &str) -> (r: MaggError)
        ensures
            r@ == message@,
    {
        MaggError { message: String::from_str(message) }
    }

    /// Creates an error that takes ownership of the message.
    pub fn from_message(message: String) -> (r: MaggError)
        ensures
            r@ == message@,
    {
        MaggError { message }
    }

    /// The error message.
    pub fn message(&self) -> (r: &str)
        ensures
            r@ == self@,
    {
        self.message.as_str()
    }
}

/// Message of a command that could not be started.
pub open spec fn spawn_command_message(program: Seq<char>, reason: Seq<char>) -> Seq<char> {
    "failed to spawn command: "@ + program + ", with reason: "@ + reason
}

/// Message of a command whose output could not be collected.
pub open spec fn obtain_output_message(reason: Seq<char>) -> Seq<char> {
    "failed to obtain command output with reason: "@ + reason
}

/// Message of a command that ran and reported failure.
pub open spec fn execute_command_message(
    status: Seq<char>,
    stdout: Seq<char>,
    stderr: Seq<char>,
) -> Seq<char> {
    "failed to execute command, status "@ + status + "\nstdout:\n"@ + stdout + "\nstderr:\n"@
        + stderr + "\n"@
}

pub fn error_spawn_command(program: &str, reason: &str) -> (r: MaggError)
    ensures
        r@ == spawn_command_message(program@, reason@),
{
    let m = String::from_str("failed to spawn command: ").concat(program).concat(
        ", with reason: ",
    ).concat(reason);
    MaggError::from_message(m)
}

pub fn error_obtain_output(reason: &str) -> (r: MaggError)
    ensures
        r@ == obtain_output_message(reason@),
{
    let m = String::from_str("failed to obtain command output with reason: ").concat(reason);
    MaggError::from_message(m)
}

/// Error of a command that exited unsuccessfully; `status` is the exit status as text.
pub fn error_execute_command(status: &str, stdout: &str, stderr: &str) -> (r: MaggError)
    ensures
        r@ == execute_command_message(status@, stdout@, stderr@),
{
    let m = String::from_str("failed to execute command, status ").concat(status).concat(
        "\nstdout:\n",
    ).concat(stdout).concat("\nstderr:\n").concat(stderr).concat("\n");
    MaggError::from_message(m)
}

} // verus!
