//! The command-line client's side of the control protocol.
//!
//! The client takes one word from its command line, whatever its case,
//! and sends the matching word of the protocol to the daemon.

use crate::server::{command_of, lemma_wire_text_round_trip, wire_text, LumdCommand};
use crate::text::trimmed;
use vstd::prelude::*;
use vstd::string::{StringExecFns, StringSliceAdditionalSpecFns};
use vstd::utf8::{encode_utf8, is_ascii_chars_encode_utf8};

verus! {

/// A command that the client can send.
#[derive(Clone, Copy, Debug, PartialEq, Eq, Structural)]
pub enum Command {
    /// Raise the brightness.
    Up,
    /// Lower the brightness.
    Down,
    /// Sample the sensor now.
    Resample,
    /// End the daemon.
    Shutdown,
}

/// A failure of the client.
#[derive(Clone, Debug, PartialEq, Eq)]
pub enum LumctlError {
    /// The socket could not be written.
    Io(String),
    /// The daemon could not be reached.
    Connection(String),
    /// The command line names no command.
    Usage(String),
}

/// The text that `str::to_lowercase` gives for a text.
pub uninterp spec fn lowercase(text: Seq<char>) -> Seq<char>;

/// Calls `str::to_lowercase`.
///
/// Believed of it: the result depends on the text alone, and is what
/// `lowercase` names.
#[verifier::external_body]
fn to_lowercase(text: &str) -> (lowered: String)
    ensures
        lowered@ == lowercase(text@),
{
    text.to_lowercase()
}

impl Command {
    /// The word that stands for the command.
    pub open spec fn word(self) -> Seq<char> {
        match self {
            Command::Up => "up"@,
            Command::Down => "down"@,
            Command::Resample => "resample"@,
            Command::Shutdown => "shutdown"@,
        }
    }

    /// The command that a word stands for, if it is one of the four.
    pub open spec fn named(word: Seq<char>) -> Option<Command> {
        if word == "up"@ {
            Some(Command::Up)
        } else if word == "down"@ {
            Some(Command::Down)
        } else if word == "resample"@ {
            Some(Command::Resample)
        } else if word == "shutdown"@ {
            Some(Command::Shutdown)
        } else {
            None
        }
    }

    /// Each command is read back from its own word.
    pub proof fn lemma_word_round_trip(self)
        ensures
            Command::named(self.word()) == Some(self),
    {
        reveal_strlit("up");
        reveal_strlit("down");
        reveal_strlit("resample");
        reveal_strlit("shutdown");
        assert("up"@.len() == 2 && "down"@.len() == 4);
        assert("resample"@.len() == 8 && "shutdown"@.len() == 8);
        assert("resample"@[0] == 'r' && "shutdown"@[0] == 's');
    }

    /// The command that the daemon's control loop gets for the command.
    pub open spec fn served_as(self) -> LumdCommand {
        match self {
            Command::Up => LumdCommand::BrightnessUp,
            Command::Down => LumdCommand::BrightnessDown,
            Command::Resample => LumdCommand::Resample,
            Command::Shutdown => LumdCommand::Shutdown,
        }
    }

    /// What the client sends for a command, the server reads as that
    /// command: the bytes of the word are the word of the protocol.
    pub proof fn lemma_word_is_served(self)
        ensures
            encode_utf8(self.word()) == wire_text(self.served_as()),
            command_of(trimmed(encode_utf8(self.word()))) == Some(self.served_as()),
    {
        reveal_strlit("up");
        reveal_strlit("down");
        reveal_strlit("resample");
        reveal_strlit("shutdown");
        let word = self.word();
        assert(vstd::utf8::is_ascii_chars(word));
        is_ascii_chars_encode_utf8(word);
        assert(encode_utf8(word) =~= wire_text(self.served_as()));
        lemma_wire_text_round_trip(self.served_as());
    }

    /// Reads a command from a word in lower case.
    pub fn from_word(word: &str) -> (command: Option<Command>)
        ensures
            command == Command::named(word@),
    {
        let word = String::from_str(word);
        if word == String::from_str("up") {
            Some(Command::Up)
        } else if word == String::from_str("down") {
            Some(Command::Down)
        } else if word == String::from_str("resample") {
            Some(Command::Resample)
        } else if word == String::from_str("shutdown") {
            Some(Command::Shutdown)
        } else {
            None
        }
    }

    /// Reads a command from a word of the command line, whatever its case.
    pub fn from_str(s: &str) -> (result: Result<Command, LumctlError>)
        ensures
            match Command::named(lowercase(s@)) {
                Some(command) => result == Ok::<Command, LumctlError>(command),
                None => result is Err && result->Err_0 is Usage && result->Err_0->Usage_0@
                    == "Unknown command: "@ + s@,
            },
    {
        let lowered = to_lowercase(s);
        match Command::from_word(lowered.as_str()) {
            Some(command) => Ok(command),
            None => Err(LumctlError::Usage(String::from_str("Unknown command: ").concat(s))),
        }
    }

    /// The word that is sent to the daemon for the command.
    pub fn as_str(&self) -> (word: &'static str)
        ensures
            word@ == self.word(),
            word.spec_bytes() == wire_text(self.served_as()),
    {
        proof {
            self.lemma_word_is_served();
        }
        match self {
            Command::Up => "up",
            Command::Down => "down",
            Command::Resample => "resample",
            Command::Shutdown => "shutdown",
        }
    }
}

impl LumctlError {
    /// The heading under which a failure of this kind is reported.
    pub open spec fn heading(self) -> Seq<char> {
        match self {
            LumctlError::Io(_) => "IO error: "@,
            LumctlError::Connection(_) => "Failed to connect to lumd: "@,
            LumctlError::Usage(_) => "Usage error: "@,
        }
    }

    /// The description that the failure carries.
    pub open spec fn detail(self) -> Seq<char> {
        match self {
            LumctlError::Io(s) => s@,
            LumctlError::Connection(s) => s@,
            LumctlError::Usage(s) => s@,
        }
    }

    /// Renders the failure as one line: its heading, then its description.
    pub fn message(&self) -> (line: String)
        ensures
            line@ == self.heading() + self.detail(),
    {
        match self {
            LumctlError::Io(s) => String::from_str("IO error: ").concat(s.as_str()),
            LumctlError::Connection(s) => String::from_str("Failed to connect to lumd: ").concat(
                s.as_str(),
            ),
            LumctlError::Usage(s) => String::from_str("Usage error: ").concat(s.as_str()),
        }
    }
}

} // verus!
