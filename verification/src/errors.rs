use vstd::prelude::*;

verus! {

/// Two-kind failure taxonomy for running an external tool.
///
/// `Io` means the process could not even be launched (missing binary,
/// permission problem, OS-level I/O error) and carries the OS error text.
/// `ExecutionError` means the process ran but exited with failure status, or
/// its output was malformed; it carries a descriptive message — for a failed
/// run, the captured standard-error text.
#[derive(Debug)]
pub enum CommandError {
    Io(String),
    ExecutionError(String),
}

impl CommandError {
    /// The message carried by either variant.
    pub open spec fn spec_message(&self) -> Seq<char> {
        match self {
            CommandError::Io(m) => m@,
            CommandError::ExecutionError(m) => m@,
        }
    }

    pub fn is_io(&self) -> (r: bool)
        ensures
            r == (self is Io),
    {
        match self {
            CommandError::Io(_) => true,
            CommandError::ExecutionError(_) => false,
        }
    }

    pub fn is_execution(&self) -> (r: bool)
        ensures
            r == (self is ExecutionError),
    {
        match self {
            CommandError::Io(_) => false,
            CommandError::ExecutionError(_) => true,
        }
    }

    pub fn message(&self) -> (r: &String)
        ensures
            r@ == self.spec_message(),
    {
        match self {
            CommandError::Io(m) => m,
            CommandError::ExecutionError(m) => m,
        }
    }

    /// A human-readable rendering of the error.
    pub fn describe(&self) -> (r: String)
        ensures
            self is Io ==> r@ == "IO error: "@ + self.spec_message(),
            self is ExecutionError ==> r@ == "Execution error: "@ + self.spec_message(),
    {
        match self {
            CommandError::Io(m) => {
                let mut s = String::from_str("IO error: ");
                s.append(m.as_str());
                s
            },
            CommandError::ExecutionError(m) => {
                let mut s = String::from_str("Execution error: ");
                s.append(m.as_str());
                s
            },
        }
    }
}

} // verus!
