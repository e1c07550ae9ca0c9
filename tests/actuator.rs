use pico_valve::decoder::{Commands, Decoder};
use pico_valve::dispatch::{command, respond};
use pico_valve::led::{Led, DEFAULT_RATE};

#[test]
fn new_led_is_off_at_default_rate() {
    let led = Led::new(7);
    assert!(!led.is_on());
    assert_eq!(led.rate, DEFAULT_RATE);
    assert_eq!(led.rate, 500);
    assert_eq!(led.last, 7);
}

#[test]
fn toggles_only_after_more_than_rate_millis() {
    let mut led = Led::new(0);
    led.run(&500_000);
    assert!(!led.is_on());
    led.run(&500_999);
    assert!(!led.is_on());
    assert_eq!(led.last, 0);
    led.run(&501_000);
    assert!(led.is_on());
    assert_eq!(led.last, 501_000);
    led.run(&1_001_999);
    assert!(led.is_on());
    led.run(&1_002_000);
    assert!(!led.is_on());
    assert_eq!(led.last, 1_002_000);
}

#[test]
fn run_is_idempotent_at_one_instant() {
    let mut led = Led::new(0);
    led.run(&600_000);
    assert!(led.is_on());
    led.run(&600_000);
    assert!(led.is_on());
    led.run(&600_000);
    assert!(led.is_on());
    assert_eq!(led.last, 600_000);
}

#[test]
fn elapsed_time_wraps_with_the_timer() {
    let mut led = Led::new(u64::MAX - 999);
    led.run(&501_000);
    assert!(led.is_on());
    assert_eq!(led.last, 501_000);
}

#[test]
fn rate_zero_forces_off() {
    let mut led = Led::new(0);
    led.toggle();
    assert!(led.is_on());
    led.rate = 0;
    led.run(&10);
    assert!(!led.is_on());
    led.run(&1_000_000_000);
    assert!(!led.is_on());
    assert_eq!(led.last, 0);
}

#[test]
fn toggle_and_off() {
    let mut led = Led::new(0);
    led.toggle();
    assert!(led.is_on());
    led.toggle();
    assert!(!led.is_on());
    led.toggle();
    led.off();
    assert!(!led.is_on());
}

#[test]
fn led_command_sets_rate() {
    let mut led = Led::new(0);
    let text = command(&mut led, Commands::Led, 0, 250);
    assert_eq!(text.as_str(), "LA\r\n");
    assert_eq!(led.rate, 250);
}

#[test]
fn status_reports_level_and_rate() {
    let mut led = Led::new(0);
    assert_eq!(command(&mut led, Commands::Status, 0, 0).as_str(), "SLvfalser500\r\n");
    led.toggle();
    led.rate = u64::MAX;
    assert_eq!(
        command(&mut led, Commands::Status, 0, 0).as_str(),
        "SLvtruer18446744073709551615\r\n"
    );
    assert_eq!(led.rate, u64::MAX);
}

#[test]
fn valve_is_echoed() {
    let mut led = Led::new(0);
    let text = command(&mut led, Commands::Valve, 3, 123);
    assert_eq!(text.as_str(), "run_command(command: 'Valve' target: 3 value: 123)\r\n");
    let text = command(&mut led, Commands::Valve, 255, 65535);
    assert_eq!(text.as_str(), "run_command(command: 'Valve' target: 255 value: 65535)\r\n");
    assert_eq!(led.rate, 500);
}

/// Runs the bytes through decoder and dispatcher, collecting the replies.
fn session(d: &mut Decoder, led: &mut Led, bytes: &[u8]) -> Vec<String> {
    let mut out = Vec::new();
    for c in bytes {
        if let Some(t) = respond(d, led, *c) {
            out.push(t.as_str().to_string());
        }
    }
    out
}

#[test]
fn led_500_then_status() {
    let mut d = Decoder::new();
    let mut led = Led::new(0);
    led.rate = 100;
    assert_eq!(session(&mut d, &mut led, b"L0500Z"), vec!["LA\r\n"]);
    assert_eq!(led.rate, 500);
    assert_eq!(session(&mut d, &mut led, b"s"), vec!["SLvfalser500\r\n"]);
    led.run(&400_000);
    assert!(!led.is_on());
    led.run(&501_000);
    assert!(led.is_on());
}

#[test]
fn led_zero_stops_blinking() {
    let mut d = Decoder::new();
    let mut led = Led::new(0);
    led.run(&600_000);
    assert!(led.is_on());
    assert_eq!(session(&mut d, &mut led, b"L0000Z"), vec!["LA\r\n"]);
    assert_eq!(led.rate, 0);
    led.run(&600_001);
    assert!(!led.is_on());
    led.run(&9_000_000);
    assert!(!led.is_on());
}

#[test]
fn diagnostics_pass_through() {
    let mut d = Decoder::new();
    let mut led = Led::new(0);
    assert_eq!(
        session(&mut d, &mut led, b"?Vx\x01"),
        vec!["Err: unrecognised '63'\r\n", "Err: bad target '120'\r\n"]
    );
    assert_eq!(session(&mut d, &mut led, b"V3123X"), vec![
        "run_command(command: 'Valve' target: 3 value: 123)\r\n"
    ]);
    assert_eq!(led.rate, 500);
}
