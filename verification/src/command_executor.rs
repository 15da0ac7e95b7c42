use vstd::prelude::*;

use crate::errors::CommandError;

verus! {

/// One invocation of an external program: the program name and its ordered
/// argument tokens, exactly as they are to be handed to the operating
/// system.
pub struct CommandRequest {
    pub program: String,
    pub args: Vec<String>,
}

impl CommandRequest {
    /// The argument tokens' views.
    pub open spec fn spec_args(&self) -> Seq<Seq<char>> {
        crate::text::views_of(self.args@)
    }
}

/// The captured outcome of a process that ran to completion: its standard
/// output and standard error text, and whether its exit status was
/// success.  Consumed immediately and discarded; nothing is cached.
#[derive(Debug)]
pub struct CommandOutput {
    pub stdout: String,
    pub stderr: String,
    pub success: bool,
}

/// The stateless process executor's decision layer.  Launching a process
/// and capturing its output is the caller's job; what the outcome means is
/// decided here.
pub struct CommandExecutor;

impl CommandExecutor {
    /// Turns the raw outcome of an attempted launch into the library's
    /// result.  `launch` holds the OS error text when the process could not
    /// be started at all, and the captured output otherwise.
    ///
    /// A launch failure surfaces as an I/O failure carrying the OS error
    /// text; a run that exited with failure status surfaces as an execution
    /// failure whose message is exactly the captured standard-error text,
    /// never standard output; a successful run hands its output through
    /// unchanged.
    pub fn run_command(launch: Result<CommandOutput, String>) -> (r: Result<
        CommandOutput,
        CommandError,
    >)
        ensures
            launch matches Err(m) ==> (r matches Err(e) && e matches CommandError::Io(t) && t@
                == m@),
            launch matches Ok(o) ==> ({
                &&& o.success ==> (r matches Ok(o2) && o2 == o)
                &&& !o.success ==> (r matches Err(e) && e matches CommandError::ExecutionError(t)
                    && t@ == o.stderr@)
            }),
    {
        match launch {
            Err(m) => Err(CommandError::Io(m)),
            Ok(o) => {
                if o.success {
                    Ok(o)
                } else {
                    Err(CommandError::ExecutionError(o.stderr))
                }
            },
        }
    }
}

} // verus!
