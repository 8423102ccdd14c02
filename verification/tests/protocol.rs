use lumd::client::{Command, LumctlError};
use lumd::control::{ControlState, Plan, Wake};
use lumd::config::Config;
use lumd::error::LumdError;
use lumd::server::{
    after_enqueue, command_from_word, parse_command, socket_server, Accepted, LumdCommand,
    Reaction, POLL_INTERVAL_MS, RECEIVE_LIMIT,
};
use lumd::text::{same_bytes, trim, trim_bounds};

#[test]
fn the_four_words_are_commands() {
    assert_eq!(parse_command(b"up"), Some(LumdCommand::BrightnessUp));
    assert_eq!(parse_command(b"down"), Some(LumdCommand::BrightnessDown));
    assert_eq!(parse_command(b"resample"), Some(LumdCommand::Resample));
    assert_eq!(parse_command(b"shutdown"), Some(LumdCommand::Shutdown));
}

#[test]
fn unknown_text_enqueues_nothing() {
    assert_eq!(parse_command(b"foo"), None);
    assert_eq!(socket_server(&Accepted::Received(b"foo".to_vec())), Reaction::Reject);
    assert_eq!(parse_command(b""), None);
    assert_eq!(parse_command(b"   "), None);
    assert_eq!(parse_command(b"up down"), None);
    assert_eq!(parse_command(b"upp"), None);
    assert_eq!(parse_command(b"u"), None);
    assert_eq!(parse_command(b"shutdow"), None);
    assert_eq!(parse_command(b"up\0"), None);
    assert_eq!(parse_command(&[0xff, b'u', b'p']), None);
}

#[test]
fn matching_is_case_sensitive() {
    assert_eq!(parse_command(b"UP"), None);
    assert_eq!(parse_command(b"Up"), None);
    assert_eq!(parse_command(b"Shutdown"), None);
    assert_eq!(parse_command(b"RESAMPLE"), None);
}

#[test]
fn white_space_around_a_command_is_ignored() {
    assert_eq!(parse_command(b"up\n"), Some(LumdCommand::BrightnessUp));
    assert_eq!(parse_command(b"  down\r\n"), Some(LumdCommand::BrightnessDown));
    assert_eq!(parse_command(b"\t\x0b\x0cresample "), Some(LumdCommand::Resample));
    assert_eq!(
        parse_command("\u{85}\u{a0}\u{1680}\u{2000}\u{200a}shutdown\u{2028}\u{2029}\u{202f}\u{205f}\u{3000}".as_bytes()),
        Some(LumdCommand::Shutdown)
    );
    // Neither a zero-width space nor a lone continuation byte is white space.
    assert_eq!(parse_command("\u{200b}up".as_bytes()), None);
    assert_eq!(parse_command(&[b'u', b'p', 0x85]), None);
    assert_eq!(parse_command(&[b'u', b'p', 0x80, 0x80]), None);
}

#[test]
fn trimming_agrees_with_the_standard_library() {
    let samples = [
        "", " ", "a", " a ", "\n\ta b\r\n", "\u{a0}x\u{a0}", "\u{3000}\u{2003}y z\u{1680}",
        "\u{200b} q \u{200b}", "\u{e9}t\u{e9}\u{85}", "\u{2000}\u{2001}\u{2002}",
        "\u{1f600} \u{1f600}", "\u{feff}up",
    ];
    for s in samples {
        assert_eq!(trim(s.as_bytes()), s.trim().as_bytes());
        let (start, end) = trim_bounds(s.as_bytes());
        assert_eq!(&s.as_bytes()[start..end], s.trim().as_bytes());
    }
}

#[test]
fn bytes_compare_by_content() {
    assert!(same_bytes(b"", b""));
    assert!(same_bytes(b"up", b"up"));
    assert!(!same_bytes(b"up", b"uq"));
    assert!(!same_bytes(b"up", b"upp"));
    assert_eq!(command_from_word(b"up"), Some(LumdCommand::BrightnessUp));
    assert_eq!(command_from_word(b"up\n"), None);
}

#[test]
fn server_reacts_to_each_accept() {
    assert_eq!(
        socket_server(&Accepted::Received(b"shutdown\n".to_vec())),
        Reaction::Enqueue(LumdCommand::Shutdown)
    );
    assert_eq!(
        socket_server(&Accepted::Received(b"up".to_vec())),
        Reaction::Enqueue(LumdCommand::BrightnessUp)
    );
    assert_eq!(socket_server(&Accepted::Received(Vec::new())), Reaction::Reject);
    assert_eq!(socket_server(&Accepted::Unreadable), Reaction::Skip);
    assert_eq!(socket_server(&Accepted::WouldBlock), Reaction::Pause(100));
    assert_eq!(socket_server(&Accepted::Failed), Reaction::Report);
    assert_eq!(POLL_INTERVAL_MS, 100);
    assert_eq!(RECEIVE_LIMIT, 1024);
}

#[test]
fn closed_channel_ends_the_server_with_an_error() {
    assert_eq!(after_enqueue(true), Ok(()));
    assert_eq!(
        after_enqueue(false),
        Err(LumdError::Communication("Channel send error".to_string()))
    );
}

#[test]
fn shutdown_on_the_socket_stops_the_control_loop() {
    let cfg = Config::default();
    let state = ControlState { sleep_secs: 3, offset: 40, instant: false };
    let command = match socket_server(&Accepted::Received(b"shutdown".to_vec())) {
        Reaction::Enqueue(command) => command,
        other => panic!("unexpected reaction {:?}", other),
    };
    assert_eq!(state.wait(), Some(3));
    assert_eq!(
        state.plan(&cfg, Some(Wake::Command(command))),
        Plan::Stop { clear_running: true }
    );
}

#[test]
fn client_words_are_read_whatever_their_case() {
    assert_eq!(Command::from_str("up"), Ok(Command::Up));
    assert_eq!(Command::from_str("UP"), Ok(Command::Up));
    assert_eq!(Command::from_str("Down"), Ok(Command::Down));
    assert_eq!(Command::from_str("reSample"), Ok(Command::Resample));
    assert_eq!(Command::from_str("SHUTDOWN"), Ok(Command::Shutdown));
    assert_eq!(
        Command::from_str("Foo"),
        Err(LumctlError::Usage("Unknown command: Foo".to_string()))
    );
    assert_eq!(
        Command::from_str(" up"),
        Err(LumctlError::Usage("Unknown command:  up".to_string()))
    );
    assert_eq!(Command::from_word("up"), Some(Command::Up));
    assert_eq!(Command::from_word("UP"), None);
}

#[test]
fn client_words_are_the_server_commands() {
    let pairs = [
        (Command::Up, LumdCommand::BrightnessUp),
        (Command::Down, LumdCommand::BrightnessDown),
        (Command::Resample, LumdCommand::Resample),
        (Command::Shutdown, LumdCommand::Shutdown),
    ];
    for (sent, received) in pairs {
        assert_eq!(parse_command(sent.as_str().as_bytes()), Some(received));
        assert_eq!(Command::from_str(sent.as_str()), Ok(sent));
    }
    assert_eq!(Command::Up.as_str(), "up");
    assert_eq!(Command::Down.as_str(), "down");
    assert_eq!(Command::Resample.as_str(), "resample");
    assert_eq!(Command::Shutdown.as_str(), "shutdown");
}

#[test]
fn client_failures_are_rendered_under_their_heading() {
    assert_eq!(LumctlError::Io("broken pipe".to_string()).message(), "IO error: broken pipe");
    assert_eq!(
        LumctlError::Connection("Is lumd running?".to_string()).message(),
        "Failed to connect to lumd: Is lumd running?"
    );
    assert_eq!(
        LumctlError::Usage("Unknown command: x".to_string()).message(),
        "Usage error: Unknown command: x"
    );
}

/// What the four words are matched against when the bytes are first decoded,
/// with a replacement character for each malformed sequence, and then trimmed.
fn decoded_and_trimmed(bytes: &[u8]) -> Option<LumdCommand> {
    let text = String::from_utf8_lossy(bytes);
    match text.trim() {
        "up" => Some(LumdCommand::BrightnessUp),
        "down" => Some(LumdCommand::BrightnessDown),
        "resample" => Some(LumdCommand::Resample),
        "shutdown" => Some(LumdCommand::Shutdown),
        _ => None,
    }
}

#[test]
fn trimming_bytes_agrees_with_trimming_decoded_text() {
    let pieces: [&[u8]; 24] = [
        b"", b" ", b"\n", b"\t\r", b"\x0b", b"\x0c", b"\x1f", b"\x00", b"x",
        &[0xC2, 0x85], &[0xC2, 0xA0], &[0xC2], &[0x85], &[0xA0], &[0x80],
        &[0xE2, 0x80, 0x80], &[0xE2, 0x80], &[0xE2], &[0x80, 0x80],
        &[0xE1, 0x9A, 0x80], &[0xE3, 0x80, 0x80], &[0xE2, 0x80, 0x8B],
        &[0xF0, 0x9F, 0x80, 0x80], &[0xC0, 0xA0],
    ];
    let words: [&[u8]; 6] = [b"up", b"down", b"resample", b"shutdown", b"", b"u p"];
    let mut commands = 0;
    for first in pieces {
        for second in pieces {
            for word in words {
                for third in pieces {
                    let mut bytes = Vec::new();
                    bytes.extend_from_slice(first);
                    bytes.extend_from_slice(second);
                    bytes.extend_from_slice(word);
                    bytes.extend_from_slice(third);
                    let expected = decoded_and_trimmed(&bytes);
                    assert_eq!(parse_command(&bytes), expected, "reading {:?}", bytes);
                    if expected.is_some() {
                        commands += 1;
                    }
                }
            }
        }
    }
    assert!(commands > 1000);
}

#[test]
fn server_looks_at_no_more_than_it_reads() {
    let mut padded = b"up".to_vec();
    padded.resize(RECEIVE_LIMIT, b' ');
    assert_eq!(
        socket_server(&Accepted::Received(padded.clone())),
        Reaction::Enqueue(LumdCommand::BrightnessUp)
    );
    padded.push(b'x');
    assert_eq!(parse_command(&padded), None);
    assert_eq!(
        socket_server(&Accepted::Received(padded)),
        Reaction::Enqueue(LumdCommand::BrightnessUp)
    );
    let mut late = vec![b' '; RECEIVE_LIMIT - 1];
    late.extend_from_slice(b"up");
    assert_eq!(parse_command(&late), Some(LumdCommand::BrightnessUp));
    assert_eq!(socket_server(&Accepted::Received(late)), Reaction::Reject);
}
