use pico_valve::decoder::{Commands, DecodeResult, DecodeState, Decoder};

/// Feeds every byte and describes each event that is not empty.
fn feed(d: &mut Decoder, bytes: &[u8]) -> Vec<String> {
    let mut out = Vec::new();
    for c in bytes {
        match d.run(c) {
            DecodeResult::Nothing => {}
            DecodeResult::Text(t) => out.push(format!("text {}", t.as_str())),
            DecodeResult::Command(cmd, target, value) => {
                out.push(format!("{} {} {}", cmd.name(), target, value))
            }
        }
    }
    out
}

#[test]
fn new_decoder_is_neutral() {
    let d = Decoder::new();
    assert_eq!(d.state, DecodeState::GetCommand);
    assert_eq!(d.target, 0);
    assert_eq!(d.value, 0);
    assert_eq!(d.command, Commands::Status);
}

#[test]
fn control_bytes_are_ignored_when_neutral() {
    let mut d = Decoder::new();
    for c in 0u8..=31 {
        assert!(matches!(d.run(&c), DecodeResult::Nothing));
        assert_eq!(d.state, DecodeState::GetCommand);
    }
}

#[test]
fn other_bytes_give_a_diagnostic_when_neutral() {
    let mut d = Decoder::new();
    assert_eq!(feed(&mut d, b"x"), vec!["text Err: unrecognised '120'\r\n"]);
    assert_eq!(d.state, DecodeState::GetCommand);
    assert_eq!(feed(&mut d, b" "), vec!["text Err: unrecognised '32'\r\n"]);
    assert_eq!(feed(&mut d, &[255]), vec!["text Err: unrecognised '255'\r\n"]);
    assert_eq!(feed(&mut d, b"5"), vec!["text Err: unrecognised '53'\r\n"]);
    assert_eq!(d.state, DecodeState::GetCommand);
}

#[test]
fn status_is_immediate() {
    let mut d = Decoder::new();
    assert_eq!(feed(&mut d, b"S"), vec!["Status 0 0"]);
    assert_eq!(d.state, DecodeState::GetCommand);
    assert_eq!(feed(&mut d, b"s"), vec!["Status 0 0"]);
    assert_eq!(d.state, DecodeState::GetCommand);
}

#[test]
fn escape_aborts_a_valve_command() {
    let mut d = Decoder::new();
    assert_eq!(feed(&mut d, b"V"), Vec::<String>::new());
    assert_eq!(d.state, DecodeState::GetTarget);
    assert_eq!(feed(&mut d, b"3"), Vec::<String>::new());
    assert_eq!(d.state, DecodeState::GetNextValue);
    assert_eq!(feed(&mut d, &[27]), Vec::<String>::new());
    assert_eq!(d.state, DecodeState::GetCommand);
    assert_eq!(feed(&mut d, b"S"), vec!["Status 0 0"]);
}

#[test]
fn escape_aborts_while_accumulating() {
    let mut d = Decoder::new();
    assert_eq!(feed(&mut d, b"L12"), Vec::<String>::new());
    assert_eq!(d.state, DecodeState::GetValue);
    assert_eq!(feed(&mut d, &[27]), Vec::<String>::new());
    assert_eq!(d.state, DecodeState::GetCommand);
    assert_eq!(feed(&mut d, &[b'V', 27]), Vec::<String>::new());
    assert_eq!(d.state, DecodeState::GetCommand);
}

#[test]
fn valve_command_on_terminator() {
    let mut d = Decoder::new();
    assert_eq!(feed(&mut d, b"V3123"), Vec::<String>::new());
    assert_eq!(feed(&mut d, b"X"), vec!["Valve 3 123"]);
    assert_eq!(d.state, DecodeState::GetCommand);
}

#[test]
fn led_command_keeps_target() {
    let mut d = Decoder::new();
    assert_eq!(feed(&mut d, b"L0500Z"), vec!["Led 0 500"]);
    assert_eq!(feed(&mut d, b"v7"), Vec::<String>::new());
    assert_eq!(feed(&mut d, &[27]), Vec::<String>::new());
    assert_eq!(feed(&mut d, b"l9\n"), vec!["Led 7 9"]);
}

#[test]
fn led_zero_value() {
    let mut d = Decoder::new();
    assert_eq!(feed(&mut d, b"L0000Z"), vec!["Led 0 0"]);
}

#[test]
fn bad_target_gives_a_diagnostic() {
    let mut d = Decoder::new();
    assert_eq!(feed(&mut d, b"Vx"), vec!["text Err: bad target '120'\r\n"]);
    assert_eq!(d.state, DecodeState::GetCommand);
}

#[test]
fn control_bytes_are_ignored_before_target() {
    let mut d = Decoder::new();
    assert_eq!(feed(&mut d, b"V\r\n4"), Vec::<String>::new());
    assert_eq!(d.state, DecodeState::GetNextValue);
    assert_eq!(d.target, 4);
}

#[test]
fn stray_bytes_before_value_are_dropped() {
    let mut d = Decoder::new();
    assert_eq!(feed(&mut d, b"V2 xy9;"), vec!["Valve 2 9"]);
}

#[test]
fn value_wraps_at_sixteen_bits() {
    let mut d = Decoder::new();
    assert_eq!(feed(&mut d, b"L65535 "), vec!["Led 0 65535"]);
    assert_eq!(feed(&mut d, b"L70000 "), vec!["Led 0 4464"]);
}

#[test]
fn two_commands_back_to_back() {
    let mut d = Decoder::new();
    assert_eq!(feed(&mut d, b"V3123XL0500Z"), vec!["Valve 3 123", "Led 3 500"]);
    assert_eq!(d.state, DecodeState::GetCommand);
    assert_eq!(feed(&mut d, b"L1SS"), vec!["Led 3 1", "Status 0 0"]);
    assert_eq!(d.state, DecodeState::GetCommand);
}

#[test]
fn command_names() {
    assert_eq!(Commands::Status.name(), "Status");
    assert_eq!(Commands::Valve.name(), "Valve");
    assert_eq!(Commands::Led.name(), "Led");
}
