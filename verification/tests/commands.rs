use host_commands::commands::{get_user_dir, run_command};

#[test]
fn home_directory_is_returned() {
    let reply = get_user_dir(Some("/home/someone".to_string()));
    assert_eq!(reply, Ok("/home/someone".to_string()));
}

#[test]
fn returned_directory_is_nonempty() {
    let reply = get_user_dir(Some("/".to_string()));
    let dir = reply.unwrap();
    assert!(!dir.is_empty());
    assert_eq!(dir, "/");
}

#[test]
fn missing_home_is_an_error() {
    let reply = get_user_dir(None);
    assert_eq!(reply, Err("Could not get user directory".to_string()));
}

#[test]
fn echo_output_is_returned() {
    // what `echo hello` run under a shell leaves on its standard output
    let reply = run_command(Ok(b"hello\n".to_vec()));
    assert_eq!(reply, Ok("hello\n".to_string()));
}

#[test]
fn failing_exit_is_still_success() {
    // a command such as `exit 1` writes nothing; its exit status is not
    // surfaced, so the reply is an empty success
    let reply = run_command(Ok(Vec::new()));
    assert_eq!(reply, Ok(String::new()));
}

#[test]
fn spawn_error_is_passed_through() {
    let reply = run_command(Err("No such file or directory (os error 2)".to_string()));
    assert_eq!(
        reply,
        Err("No such file or directory (os error 2)".to_string())
    );
}

#[test]
fn invalid_output_is_a_decoding_error() {
    let reply = run_command(Ok(vec![0xff, 0xfe, 0x68]));
    assert_eq!(reply, Err("Command output was not valid UTF-8".to_string()));
}

#[test]
fn interleaved_commands_keep_their_outputs() {
    // two command invocations in flight at once share nothing: each reply is
    // formed from its own captured bytes alone
    let first = Ok(b"first\n".to_vec());
    let second = Ok(b"second\n".to_vec());
    let first_reply = run_command(first);
    let second_reply = run_command(second);
    assert_eq!(first_reply, Ok("first\n".to_string()));
    assert_eq!(second_reply, Ok("second\n".to_string()));
}
