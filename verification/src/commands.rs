//! The two backend commands, written over plain values.
//!
//! The host edge resolves the home directory and spawns processes; it hands
//! the results in as arguments, so every decision made here is verified.

use crate::text::utf8_to_text;
use vstd::prelude::*;
use vstd::utf8::{decode_utf8, valid_utf8};

verus! {

/// The failure message when no home directory can be determined.
pub open spec fn missing_home_message() -> Seq<char> {
    "Could not get user directory"@
}

/// The failure message when captured output is not valid UTF-8.
pub open spec fn invalid_output_message() -> Seq<char> {
    "Command output was not valid UTF-8"@
}

/// The reply owed for a resolved home directory: the directory itself when
/// one was found, and the failure message when none was.
pub open spec fn user_dir_reply(home: Option<Seq<char>>) -> Result<Seq<char>, Seq<char>> {
    match home {
        Some(dir) => Ok(dir),
        None => Err(missing_home_message()),
    }
}

/// The view of a textual reply: both the success and the failure text as
/// character sequences.
pub open spec fn reply_view(reply: Result<String, String>) -> Result<Seq<char>, Seq<char>> {
    match reply {
        Ok(text) => Ok(text@),
        Err(message) => Err(message@),
    }
}

/// The view of a resolved home directory.
pub open spec fn home_view(home: Option<String>) -> Option<Seq<char>> {
    match home {
        Some(dir) => Some(dir@),
        None => None,
    }
}

/// Forms the reply for the home-directory command. The host edge resolves
/// the directory from the environment and passes it in; `None` means the
/// platform could not determine one.
pub fn get_user_dir(home: Option<String>) -> (reply: Result<String, String>)
    ensures
        reply_view(reply) == user_dir_reply(home_view(home)),
{
    match home {
        Some(dir) => Ok(dir),
        None => Err("Could not get user directory".to_owned()),
    }
}

/// The reply owed for a spawn outcome: the decoded standard output when the
/// spawn succeeded and its bytes are valid UTF-8, and a failure message
/// otherwise. Nothing besides the captured bytes — in particular not the
/// child's exit status — enters the reply.
pub open spec fn command_reply(outcome: Result<Seq<u8>, Seq<char>>) -> Result<
    Seq<char>,
    Seq<char>,
> {
    match outcome {
        Ok(bytes) => if valid_utf8(bytes) {
            Ok(decode_utf8(bytes))
        } else {
            Err(invalid_output_message())
        },
        Err(spawn_error) => Err(spawn_error),
    }
}

/// The view of a spawn outcome: the captured standard-output bytes, or the
/// spawn error message.
pub open spec fn outcome_view(outcome: Result<Vec<u8>, String>) -> Result<Seq<u8>, Seq<char>> {
    match outcome {
        Ok(bytes) => Ok(bytes@),
        Err(spawn_error) => Err(spawn_error@),
    }
}

/// Forms the reply for the run-command command. The host edge spawns the
/// child process under a shell, waits for it, and passes in either the
/// captured standard-output bytes or the spawn error's message.
pub fn run_command(outcome: Result<Vec<u8>, String>) -> (reply: Result<String, String>)
    ensures
        reply_view(reply) == command_reply(outcome_view(outcome)),
{
    match outcome {
        Ok(bytes) => match utf8_to_text(bytes) {
            Some(text) => Ok(text),
            None => Err("Command output was not valid UTF-8".to_owned()),
        },
        Err(spawn_error) => Err(spawn_error),
    }
}

/// When the environment defines a home directory, the reply is success and
/// carries exactly that directory, non-empty as the directory is.
pub proof fn lemma_user_dir_present(dir: Seq<char>)
    requires
        dir.len() > 0,
    ensures
        user_dir_reply(Some(dir)) matches Ok(reply) && reply == dir && reply.len() > 0,
{
}

/// A spawn that captures output succeeds exactly when the captured bytes are
/// valid UTF-8; the child's exit status never turns the reply into a failure.
pub proof fn lemma_captured_output_success(bytes: Seq<u8>)
    ensures
        command_reply(Ok(bytes)) is Ok <==> valid_utf8(bytes),
{
}

/// Output that is not valid UTF-8 is always answered with the decoding
/// failure message.
pub proof fn lemma_invalid_output_rejected(bytes: Seq<u8>)
    requires
        !valid_utf8(bytes),
    ensures
        command_reply(Ok(bytes)) matches Err(message) && message == invalid_output_message(),
{
}

} // verus!
