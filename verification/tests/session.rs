use shell_core::argv::ArgumentVector;
use shell_core::builtin::{Builtin, Shell};
use shell_core::error::Error;
use shell_core::session::{explicit_path, prompt, Action, Command, Event, Session};

fn listing(entries: &[&str]) -> Event {
    Event::Listed(Some(entries.iter().map(|e| e.to_string()).collect()))
}

fn vector(words: &[&str]) -> ArgumentVector {
    ArgumentVector::new(words.iter().map(|w| w.to_string()).collect()).unwrap()
}

fn launch(path: &str, words: &[&str]) -> Action {
    Action::Launch(Command { path: path.to_string(), argv: vector(words), env: Vec::new() })
}

/// A session that has just read `line`, and what it asked for.
fn after_line(path: Option<&str>, line: &str) -> (Session, Action) {
    let (session, action) = Session::start(Shell::new(), path);
    assert_eq!(action, Action::Prompt);
    let (session, action) = session.step(Event::PromptShown);
    assert_eq!(action, Action::ReadLine);
    session.step(Event::Line(line.to_string()))
}

#[test]
fn prompt_is_a_fixed_literal() {
    assert_eq!(prompt(), "> ");
}

#[test]
fn explicit_path_begins_with_a_separator() {
    assert!(explicit_path("/bin/ls"));
    assert!(explicit_path("/"));
    assert!(!explicit_path("ls"));
    assert!(!explicit_path("./ls"));
    assert!(!explicit_path("bin/ls"));
    assert!(!explicit_path(""));
}

#[test]
fn session_starts_with_the_prompt_and_then_reads() {
    let (session, action) = Session::start(Shell::new(), Some("/bin"));
    assert_eq!(action, Action::Prompt);
    let (_, action) = session.step(Event::PromptShown);
    assert_eq!(action, Action::ReadLine);
}

#[test]
fn blank_line_goes_back_to_the_prompt() {
    for line in ["", "\n", "   ", " \t \n", "\u{3000}\u{2003}"] {
        let (session, action) = after_line(Some("/bin:/usr/bin"), line);
        assert_eq!(action, Action::Prompt, "line {:?}", line);
        let (_, action) = session.step(Event::PromptShown);
        assert_eq!(action, Action::ReadLine);
    }
}

#[test]
fn end_of_input_ends_the_session_with_status_zero() {
    let (session, _) = Session::start(Shell::new(), None);
    let (session, _) = session.step(Event::PromptShown);
    let (session, action) = session.step(Event::EndOfInput);
    assert_eq!(action, Action::Exit(0));
    let (_, action) = session.step(Event::PromptShown);
    assert_eq!(action, Action::Exit(0));
}

#[test]
fn prompt_failure_ends_the_session_with_status_one() {
    let (session, _) = Session::start(Shell::new(), None);
    let (session, action) = session.step(Event::PromptFailed);
    assert_eq!(action, Action::Report(Error::IOFailed));
    let (_, action) = session.step(Event::Reported);
    assert_eq!(action, Action::Exit(1));
}

#[test]
fn read_failure_ends_the_session_with_status_one() {
    let (session, _) = Session::start(Shell::new(), None);
    let (session, _) = session.step(Event::PromptShown);
    let (session, action) = session.step(Event::ReadFailed);
    assert_eq!(action, Action::Report(Error::IOFailed));
    let (session, action) = session.step(Event::Reported);
    assert_eq!(action, Action::Exit(1));
    let (_, action) = session.step(Event::Line("ls".to_string()));
    assert_eq!(action, Action::Exit(1));
}

#[test]
fn line_with_nul_is_refused_and_the_session_goes_on() {
    let (session, action) = after_line(Some("/bin"), "echo a\0b\n");
    assert_eq!(action, Action::Report(Error::InvalidArgument));
    let (_, action) = session.step(Event::Reported);
    assert_eq!(action, Action::Prompt);
}

#[test]
fn builtin_gets_the_words_as_typed() {
    let (session, action) = after_line(Some("/bin"), "cd /tmp\n");
    assert_eq!(action, Action::RunBuiltin(Builtin::ChangeDirectory, vector(&["cd", "/tmp"])));
    let (_, action) = session.step(Event::BuiltinDone(Ok(())));
    assert_eq!(action, Action::Prompt);
}

#[test]
fn builtin_is_recognised_before_any_search() {
    let (_, action) = after_line(None, "  cd  a   b ");
    assert_eq!(action, Action::RunBuiltin(Builtin::ChangeDirectory, vector(&["cd", "a", "b"])));
}

#[test]
fn builtin_failure_is_reported_and_the_session_goes_on() {
    for error in [Error::CommandFailed, Error::UnsupportedOperation] {
        let (session, _) = after_line(Some("/bin"), "cd a b");
        let (session, action) = session.step(Event::BuiltinDone(Err(error)));
        assert_eq!(action, Action::Report(error));
        let (session, action) = session.step(Event::Reported);
        assert_eq!(action, Action::Prompt);
        let (_, action) = session.step(Event::PromptShown);
        assert_eq!(action, Action::ReadLine);
    }
}

#[test]
fn path_named_cd_is_not_the_builtin() {
    let (_, action) = after_line(Some("/bin"), "/bin/cd /tmp");
    assert_eq!(action, launch("/bin/cd", &["/bin/cd", "/tmp"]));
}

#[test]
fn explicit_path_is_launched_as_typed_with_empty_environment() {
    let (session, action) = after_line(Some("/bin:/usr/bin"), "/bin/echo hello  world\n");
    assert_eq!(action, launch("/bin/echo", &["/bin/echo", "hello", "world"]));
    match action {
        Action::Launch(command) => assert!(command.env.is_empty()),
        _ => unreachable!(),
    }
    let (session, action) = session.step(Event::Spawned(4242));
    assert_eq!(action, Action::Wait(4242));
    let (session, action) = session.step(Event::Reaped);
    assert_eq!(action, Action::Prompt);
    let (_, action) = session.step(Event::PromptShown);
    assert_eq!(action, Action::ReadLine);
}

#[test]
fn bare_name_is_searched_directory_by_directory() {
    let (session, action) = after_line(Some("/bin:/usr/bin"), "echo hi\n");
    assert_eq!(action, Action::ListDirectory("/bin".to_string()));
    let (session, action) = session.step(listing(&["xecho", "ls"]));
    assert_eq!(action, Action::ListDirectory("/usr/bin".to_string()));
    let (session, action) = session.step(listing(&["env", "echo"]));
    assert_eq!(action, launch("/usr/bin/echo", &["/usr/bin/echo", "hi"]));
    let (session, action) = session.step(Event::Spawned(7));
    assert_eq!(action, Action::Wait(7));
    let (_, action) = session.step(Event::Reaped);
    assert_eq!(action, Action::Prompt);
}

#[test]
fn search_stops_at_the_first_directory_that_has_the_command() {
    let (session, action) = after_line(Some("/a:/b:/c"), "tool -x");
    assert_eq!(action, Action::ListDirectory("/a".to_string()));
    let (_, action) = session.step(listing(&["tool"]));
    assert_eq!(action, launch("/a/tool", &["/a/tool", "-x"]));
}

#[test]
fn unreadable_directories_are_passed_over() {
    let (session, action) = after_line(Some("/missing:/bin"), "ls -l");
    assert_eq!(action, Action::ListDirectory("/missing".to_string()));
    let (session, action) = session.step(Event::Listed(None));
    assert_eq!(action, Action::ListDirectory("/bin".to_string()));
    let (_, action) = session.step(listing(&["ls"]));
    assert_eq!(action, launch("/bin/ls", &["/bin/ls", "-l"]));
}

#[test]
fn absent_command_is_not_found_and_nothing_is_launched() {
    let (session, action) = after_line(Some("/bin:/usr/bin"), "nosuch arg");
    assert_eq!(action, Action::ListDirectory("/bin".to_string()));
    let (session, action) = session.step(listing(&["ls", "xnosuch"]));
    assert_eq!(action, Action::ListDirectory("/usr/bin".to_string()));
    let (session, action) = session.step(Event::Listed(None));
    assert_eq!(action, Action::Report(Error::NotFound));
    let (session, action) = session.step(Event::Reported);
    assert_eq!(action, Action::Prompt);
    let (_, action) = session.step(Event::PromptShown);
    assert_eq!(action, Action::ReadLine);
}

#[test]
fn bare_name_without_search_list_is_not_found() {
    let (session, action) = after_line(None, "ls");
    assert_eq!(action, Action::Report(Error::NotFound));
    let (_, action) = session.step(Event::Reported);
    assert_eq!(action, Action::Prompt);
}

#[test]
fn empty_path_value_is_one_empty_directory() {
    let (session, action) = after_line(Some(""), "ls");
    assert_eq!(action, Action::ListDirectory("".to_string()));
    let (_, action) = session.step(Event::Listed(None));
    assert_eq!(action, Action::Report(Error::NotFound));
}

#[test]
fn directory_with_nul_cannot_give_an_argument() {
    let (session, action) = after_line(Some("/b\0in"), "ls");
    assert_eq!(action, Action::ListDirectory("/b\0in".to_string()));
    let (session, action) = session.step(listing(&["ls"]));
    assert_eq!(action, Action::Report(Error::InvalidArgument));
    let (_, action) = session.step(Event::Reported);
    assert_eq!(action, Action::Prompt);
}

#[test]
fn spawn_failure_ends_the_session_with_status_one() {
    let (session, _) = after_line(None, "/bin/true");
    let (session, action) = session.step(Event::SpawnFailed);
    assert_eq!(action, Action::Report(Error::SpawnFailed));
    let (session, action) = session.step(Event::Reported);
    assert_eq!(action, Action::Exit(1));
    let (_, action) = session.step(Event::PromptShown);
    assert_eq!(action, Action::Exit(1));
}

#[test]
fn wait_failure_is_reported_and_the_session_goes_on() {
    let (session, _) = after_line(None, "/bin/true");
    let (session, action) = session.step(Event::Spawned(99));
    assert_eq!(action, Action::Wait(99));
    let (session, action) = session.step(Event::WaitFailed);
    assert_eq!(action, Action::Report(Error::WaitFailed));
    let (session, action) = session.step(Event::Reported);
    assert_eq!(action, Action::Prompt);
    let (_, action) = session.step(Event::PromptShown);
    assert_eq!(action, Action::ReadLine);
}

#[test]
fn every_launch_is_followed_by_one_wait_before_the_next_line() {
    let (mut session, mut action) = Session::start(Shell::new(), Some("/bin"));
    let mut asked: Vec<String> = Vec::new();
    let mut lines = vec!["/bin/false", "ls", "", "/x y z"].into_iter();
    let mut child = 100;
    loop {
        let event = match &action {
            Action::Prompt => Event::PromptShown,
            Action::ReadLine => match lines.next() {
                Some(line) => Event::Line(line.to_string()),
                None => Event::EndOfInput,
            },
            Action::ListDirectory(_) => listing(&["ls"]),
            Action::Launch(_) => {
                child += 1;
                Event::Spawned(child)
            }
            Action::Wait(waited) => {
                assert_eq!(*waited, child);
                Event::Reaped
            }
            Action::Exit(status) => {
                assert_eq!(*status, 0);
                break;
            }
            Action::RunBuiltin(_, _) | Action::Report(_) => panic!("unexpected {:?}", action),
        };
        asked.push(
            match &action {
                Action::Prompt => "prompt",
                Action::ReadLine => "read",
                Action::ListDirectory(_) => "list",
                Action::Launch(_) => "launch",
                Action::Wait(_) => "wait",
                _ => "other",
            }
            .to_string(),
        );
        let next = session.step(event);
        session = next.0;
        action = next.1;
    }
    let expected = vec![
        "prompt", "read", "launch", "wait", "prompt", "read", "list", "launch", "wait", "prompt",
        "read", "prompt", "read", "launch", "wait", "prompt", "read",
    ];
    assert_eq!(asked, expected);
    assert_eq!(child, 103);
}

#[test]
fn answer_that_does_not_fit_is_a_failure_of_input_and_output() {
    let (session, _) = Session::start(Shell::new(), None);
    let (session, action) = session.step(Event::Reaped);
    assert_eq!(action, Action::Report(Error::IOFailed));
    let (_, action) = session.step(Event::Reported);
    assert_eq!(action, Action::Exit(1));

    let (session, _) = after_line(None, "/bin/true");
    let (session, action) = session.step(Event::Reaped);
    assert_eq!(action, Action::Report(Error::IOFailed));
    let (_, action) = session.step(Event::Reported);
    assert_eq!(action, Action::Exit(1));
}
