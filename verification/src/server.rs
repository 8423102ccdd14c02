//! The control protocol and the decisions of the socket server.
//!
//! A client opens a connection, sends one word and leaves. The server
//! answers nothing. It strips the white space around what it received and
//! takes the rest for a command only if it is one of the four words, letter
//! for letter.

use crate::error::LumdError;
use crate::text::{is_blank, lemma_trim_blank, lemma_trim_wrapped, same_bytes, trim, trimmed};
use vstd::prelude::*;
use vstd::slice::slice_subrange;
use vstd::string::StringExecFns;

verus! {

/// Milliseconds that the server waits when no client is there.
pub const POLL_INTERVAL_MS: u64 = 100;

/// The number of bytes that the server reads from one connection at most.
pub const RECEIVE_LIMIT: usize = 1024;

/// A command to the control loop.
#[derive(Clone, Copy, Debug, PartialEq, Eq, Structural)]
pub enum LumdCommand {
    /// Sample the sensor now and adjust.
    Resample,
    /// Raise the brightness offset.
    BrightnessUp,
    /// Lower the brightness offset.
    BrightnessDown,
    /// End the daemon.
    Shutdown,
}

/// The word that stands for a command on the wire, in ASCII: `up`, `down`,
/// `resample` or `shutdown`.
pub open spec fn wire_text(command: LumdCommand) -> Seq<u8> {
    match command {
        LumdCommand::BrightnessUp => seq![0x75, 0x70],
        LumdCommand::BrightnessDown => seq![0x64, 0x6f, 0x77, 0x6e],
        LumdCommand::Resample => seq![0x72, 0x65, 0x73, 0x61, 0x6d, 0x70, 0x6c, 0x65],
        LumdCommand::Shutdown => seq![0x73, 0x68, 0x75, 0x74, 0x64, 0x6f, 0x77, 0x6e],
    }
}

/// The command that a word stands for, if it is one of the four.
pub open spec fn command_of(word: Seq<u8>) -> Option<LumdCommand> {
    if word == wire_text(LumdCommand::BrightnessUp) {
        Some(LumdCommand::BrightnessUp)
    } else if word == wire_text(LumdCommand::BrightnessDown) {
        Some(LumdCommand::BrightnessDown)
    } else if word == wire_text(LumdCommand::Resample) {
        Some(LumdCommand::Resample)
    } else if word == wire_text(LumdCommand::Shutdown) {
        Some(LumdCommand::Shutdown)
    } else {
        None
    }
}

/// Each command is read back from its own word.
pub proof fn lemma_wire_text_round_trip(command: LumdCommand)
    ensures
        command_of(wire_text(command)) == Some(command),
        trimmed(wire_text(command)) == wire_text(command),
{
    let up = wire_text(LumdCommand::BrightnessUp);
    let down = wire_text(LumdCommand::BrightnessDown);
    let resample = wire_text(LumdCommand::Resample);
    let shutdown = wire_text(LumdCommand::Shutdown);
    assert(up.len() == 2 && down.len() == 4 && resample.len() == 8 && shutdown.len() == 8);
    assert(resample[0] != shutdown[0]);
    let w = wire_text(command);
    assert(crate::text::leading_space(w) == 0);
    assert(crate::text::trailing_space(w) == 0);
}

/// A command's word is read as that command whatever white space is put
/// around it.
pub proof fn lemma_padded_word_is_read(before: Seq<u8>, command: LumdCommand, after: Seq<u8>)
    requires
        is_blank(before),
        is_blank(after),
    ensures
        command_of(trimmed(before + wire_text(command) + after)) == Some(command),
{
    let w = wire_text(command);
    lemma_wire_text_round_trip(command);
    assert(crate::text::leading_space(w) == 0);
    assert(crate::text::trailing_space(w) == 0);
    lemma_trim_wrapped(before, w, after);
}

/// White space alone is no command.
pub proof fn lemma_blank_is_no_command(received: Seq<u8>)
    requires
        is_blank(received),
    ensures
        command_of(trimmed(received)) is None,
{
    lemma_trim_blank(received);
    assert(wire_text(LumdCommand::BrightnessUp).len() == 2);
    assert(wire_text(LumdCommand::BrightnessDown).len() == 4);
    assert(wire_text(LumdCommand::Resample).len() == 8);
    assert(wire_text(LumdCommand::Shutdown).len() == 8);
}

/// Reads a command from a word without white space around it.
pub fn command_from_word(word: &[u8]) -> (command: Option<LumdCommand>)
    ensures
        command == command_of(word@),
{
    let up: [u8; 2] = [0x75, 0x70];
    let down: [u8; 4] = [0x64, 0x6f, 0x77, 0x6e];
    let resample: [u8; 8] = [0x72, 0x65, 0x73, 0x61, 0x6d, 0x70, 0x6c, 0x65];
    let shutdown: [u8; 8] = [0x73, 0x68, 0x75, 0x74, 0x64, 0x6f, 0x77, 0x6e];
    proof {
        assert(up@ =~= wire_text(LumdCommand::BrightnessUp));
        assert(down@ =~= wire_text(LumdCommand::BrightnessDown));
        assert(resample@ =~= wire_text(LumdCommand::Resample));
        assert(shutdown@ =~= wire_text(LumdCommand::Shutdown));
    }
    if same_bytes(word, up.as_slice()) {
        Some(LumdCommand::BrightnessUp)
    } else if same_bytes(word, down.as_slice()) {
        Some(LumdCommand::BrightnessDown)
    } else if same_bytes(word, resample.as_slice()) {
        Some(LumdCommand::Resample)
    } else if same_bytes(word, shutdown.as_slice()) {
        Some(LumdCommand::Shutdown)
    } else {
        None
    }
}

/// Reads the command in what a client sent.
pub fn parse_command(received: &[u8]) -> (command: Option<LumdCommand>)
    ensures
        command == command_of(trimmed(received@)),
{
    command_from_word(trim(received))
}

/// The part of what a client sent that the server looks at: no more than
/// it reads from one connection.
pub open spec fn heard(sent: Seq<u8>) -> Seq<u8> {
    if sent.len() > RECEIVE_LIMIT {
        sent.take(RECEIVE_LIMIT as int)
    } else {
        sent
    }
}

/// What one attempt to accept a client brought.
#[derive(Clone, Debug, PartialEq, Eq)]
pub enum Accepted {
    /// A client connected and sent these bytes.
    Received(Vec<u8>),
    /// A client connected and nothing could be read from it.
    Unreadable,
    /// No client is waiting.
    WouldBlock,
    /// Accepting failed for another reason.
    Failed,
}

/// What the server does about one attempt to accept a client.
#[derive(Clone, Copy, Debug, PartialEq, Eq, Structural)]
pub enum Reaction {
    /// Put the command on the channel to the control loop.
    Enqueue(LumdCommand),
    /// Note that the text is no command, and drop it.
    Reject,
    /// Do nothing.
    Skip,
    /// Wait this many milliseconds before the next attempt.
    Pause(u64),
    /// Note the failure and go on.
    Report,
}

/// The server's reaction to what an attempt brought.
pub open spec fn reaction_to(accepted: Accepted) -> Reaction {
    match accepted {
        Accepted::Received(bytes) => match command_of(trimmed(heard(bytes@))) {
            Some(command) => Reaction::Enqueue(command),
            None => Reaction::Reject,
        },
        Accepted::Unreadable => Reaction::Skip,
        Accepted::WouldBlock => Reaction::Pause(POLL_INTERVAL_MS),
        Accepted::Failed => Reaction::Report,
    }
}

/// Decides what the server does about one attempt to accept a client.
pub fn socket_server(accepted: &Accepted) -> (reaction: Reaction)
    ensures
        reaction == reaction_to(*accepted),
{
    match accepted {
        Accepted::Received(bytes) => {
            let read = if bytes.len() > RECEIVE_LIMIT {
                slice_subrange(bytes.as_slice(), 0, RECEIVE_LIMIT)
            } else {
                bytes.as_slice()
            };
            assert(read@ =~= heard(bytes@));
            match parse_command(read) {
                Some(command) => Reaction::Enqueue(command),
                None => Reaction::Reject,
            }
        },
        Accepted::Unreadable => Reaction::Skip,
        Accepted::WouldBlock => Reaction::Pause(POLL_INTERVAL_MS),
        Accepted::Failed => Reaction::Report,
    }
}

/// Turns the fate of a command handed to the channel into the server's
/// result: once the control loop has gone the server ends with an error.
pub fn after_enqueue(delivered: bool) -> (result: Result<(), LumdError>)
    ensures
        delivered ==> result is Ok,
        !delivered ==> result is Err && result->Err_0 is Communication
            && result->Err_0->Communication_0@ == "Channel send error"@,
{
    if delivered {
        Ok(())
    } else {
        Err(LumdError::Communication(String::from_str("Channel send error")))
    }
}

} // verus!
