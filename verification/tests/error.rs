use shell_core::error::{handle_error, Error, Handling, Reach, EXIT_CLEAN, EXIT_FAILURE};

#[test]
fn exit_statuses() {
    assert_eq!(EXIT_CLEAN, 0);
    assert_eq!(EXIT_FAILURE, 1);
}

#[test]
fn handle_error_recovered_failures() {
    assert_eq!(
        handle_error(Error::InvalidArgument),
        Handling { message: "invalid argument", reach: Reach::Recovered, exit_status: None }
    );
    assert_eq!(
        handle_error(Error::NotFound),
        Handling { message: "command not found", reach: Reach::Recovered, exit_status: None }
    );
    assert_eq!(
        handle_error(Error::WaitFailed),
        Handling { message: "wait failed", reach: Reach::Recovered, exit_status: None }
    );
    assert_eq!(
        handle_error(Error::CommandFailed),
        Handling {
            message: "failed to change directory",
            reach: Reach::Recovered,
            exit_status: None
        }
    );
    assert_eq!(
        handle_error(Error::UnsupportedOperation),
        Handling { message: "too many arguments", reach: Reach::Recovered, exit_status: None }
    );
}

#[test]
fn handle_error_failures_that_end_the_session() {
    assert_eq!(
        handle_error(Error::IOFailed),
        Handling { message: "I/O failed", reach: Reach::EndsSession, exit_status: Some(1) }
    );
    assert_eq!(
        handle_error(Error::SpawnFailed),
        Handling { message: "fork failed", reach: Reach::EndsSession, exit_status: Some(1) }
    );
}

#[test]
fn handle_error_exec_failure_ends_the_child_only() {
    assert_eq!(
        handle_error(Error::ExecFailed),
        Handling { message: "exec failed", reach: Reach::EndsChild, exit_status: Some(1) }
    );
}

#[test]
fn fatal_is_for_input_output_and_spawn_failures() {
    assert!(Error::IOFailed.fatal());
    assert!(Error::SpawnFailed.fatal());
    assert!(!Error::InvalidArgument.fatal());
    assert!(!Error::NotFound.fatal());
    assert!(!Error::ExecFailed.fatal());
    assert!(!Error::WaitFailed.fatal());
    assert!(!Error::CommandFailed.fatal());
    assert!(!Error::UnsupportedOperation.fatal());
}
