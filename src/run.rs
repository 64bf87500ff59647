use vstd::prelude::*;

verus! {

/// Why running the application failed.
#[derive(Debug)]
pub enum RunErrors {
    /// The process could not be started or waited for; the message says why.
    ProcessError(String),
    /// The process exited unsuccessfully with this status.
    RunError(i32),
}

/// The runtime's executable, in the directory it is overlaid onto.
pub const EXECUTABLE: &'static str = "nw";

/// The status reported for a process that exited without a code.
pub const NO_EXIT_CODE: i32 = 128;

/// The result of a finished run: success, or the exit code (`NO_EXIT_CODE`
/// where there is none).
pub fn exit_result(success: bool, code: Option<i32>) -> (r: Result<(), RunErrors>)
    ensures
        r is Ok == success,
        !success ==> r->Err_0 == RunErrors::RunError(
            match code {
                Some(c) => c,
                None => NO_EXIT_CODE,
            },
        ),
{
    if success {
        Ok(())
    } else {
        match code {
            Some(c) => Err(RunErrors::RunError(c)),
            None => Err(RunErrors::RunError(NO_EXIT_CODE)),
        }
    }
}

/// The program to start and its arguments, for a Steam launch: the first
/// element is the program, and the last argument, the runtime's directory,
/// gets the executable's name appended.
pub fn steam_launch_command(program_and_args: Vec<String>) -> (r: (String, Vec<String>))
    requires
        program_and_args@.len() >= 2,
    ensures
        r.0 == program_and_args@[0],
        r.1@.len() == program_and_args@.len() - 1,
        forall|i: int|
            0 <= i < r.1@.len() - 1 ==> #[trigger] r.1@[i] == program_and_args@[i + 1],
        r.1@.last()@ == program_and_args@.last()@ + "/nw"@,
{
    let mut args = program_and_args;
    let program = args.remove(0);
    let mut last = args.pop().unwrap();
    last.append("/nw");
    args.push(last);
    (program, args)
}

} // verus!
