use shell_core::argv::{holds_nul, prepare_argv, ArgumentVector};
use shell_core::error::Error;

fn strings(words: &[&str]) -> Vec<String> {
    words.iter().map(|w| w.to_string()).collect()
}

#[test]
fn argument_vector_keeps_words_in_order() {
    let argv = ArgumentVector::new(strings(&["ls", "-l", "/tmp"])).unwrap();
    assert_eq!(argv.len(), 3);
    assert_eq!(argv.command(), "ls");
    assert_eq!(argv.words(), &strings(&["ls", "-l", "/tmp"]));
}

#[test]
fn argument_vector_is_never_empty() {
    assert_eq!(ArgumentVector::new(Vec::new()), Err(Error::InvalidArgument));
}

#[test]
fn argument_vector_refuses_embedded_nul() {
    assert_eq!(ArgumentVector::new(strings(&["ls", "a\0b"])), Err(Error::InvalidArgument));
    assert_eq!(ArgumentVector::new(strings(&["\0"])), Err(Error::InvalidArgument));
    assert_eq!(ArgumentVector::new(strings(&["ls", "-l", "x\0"])), Err(Error::InvalidArgument));
}

#[test]
fn argument_vector_takes_an_empty_argument() {
    let argv = ArgumentVector::new(strings(&["printf", ""])).unwrap();
    assert_eq!(argv.len(), 2);
    assert_eq!(argv.words()[1], "");
}

#[test]
fn with_command_replaces_argument_zero_only() {
    let argv = ArgumentVector::new(strings(&["echo", "a", "b"])).unwrap();
    let argv = argv.with_command("/usr/bin/echo".to_string()).unwrap();
    assert_eq!(argv.words(), &strings(&["/usr/bin/echo", "a", "b"]));
    assert_eq!(argv.command(), "/usr/bin/echo");
    assert_eq!(argv.len(), 3);
}

#[test]
fn with_command_refuses_a_path_with_nul() {
    let argv = ArgumentVector::new(strings(&["echo", "a"])).unwrap();
    assert_eq!(argv.with_command("/usr\0/echo".to_string()), Err(Error::InvalidArgument));
}

#[test]
fn holds_nul_finds_it_anywhere() {
    assert!(holds_nul("\0"));
    assert!(holds_nul("abc\0"));
    assert!(holds_nul("\0abc"));
    assert!(holds_nul("a\0c"));
    assert!(!holds_nul(""));
    assert!(!holds_nul("abc"));
    assert!(!holds_nul("0"));
}

#[test]
fn prepare_argv_of_a_command_line() {
    let argv = prepare_argv("  echo  hello   world\n").unwrap().unwrap();
    assert_eq!(argv.words(), &strings(&["echo", "hello", "world"]));
}

#[test]
fn prepare_argv_of_a_blank_line_is_none() {
    assert_eq!(prepare_argv(""), Ok(None));
    assert_eq!(prepare_argv("   \t\n"), Ok(None));
}

#[test]
fn prepare_argv_refuses_nul() {
    assert_eq!(prepare_argv("echo a\0b"), Err(Error::InvalidArgument));
}
