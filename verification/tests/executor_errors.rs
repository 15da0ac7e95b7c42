use bridgectl::CommandError;
use bridgectl::CommandExecutor;
use bridgectl::CommandOutput;

fn output(stdout: &str, stderr: &str, success: bool) -> CommandOutput {
    CommandOutput { stdout: stdout.to_string(), stderr: stderr.to_string(), success }
}

#[test]
fn failure_status_surfaces_stderr_never_stdout() {
    let r = CommandExecutor::run_command(Ok(output("useless stdout", "boom", false)));
    match r.unwrap_err() {
        CommandError::ExecutionError(m) => {
            assert_eq!(m, "boom");
            assert_ne!(m, "useless stdout");
        },
        CommandError::Io(_) => panic!("a failed run must be an execution failure"),
    }
}

#[test]
fn launch_failure_is_io_and_distinguishable() {
    let r = CommandExecutor::run_command(Err("No such file or directory".to_string()));
    let err = r.unwrap_err();
    assert!(err.is_io());
    assert!(!err.is_execution());
    match err {
        CommandError::Io(m) => assert_eq!(m, "No such file or directory"),
        CommandError::ExecutionError(_) => panic!("a launch failure must be an I/O failure"),
    }
}

#[test]
fn success_passes_output_through_unchanged() {
    let r = CommandExecutor::run_command(Ok(output("the table", "warning noise", true)));
    let out = r.unwrap();
    assert_eq!(out.stdout, "the table");
    assert_eq!(out.stderr, "warning noise");
    assert!(out.success);
}

#[test]
fn describe_names_the_failure_kind() {
    assert_eq!(CommandError::Io("lost".to_string()).describe(), "IO error: lost");
    assert_eq!(
        CommandError::ExecutionError("bad".to_string()).describe(),
        "Execution error: bad"
    );
    assert_eq!(CommandError::ExecutionError("bad".to_string()).message(), "bad");
}
