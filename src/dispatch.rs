//! Applying decoded commands to the actuator and rendering their responses.
use vstd::prelude::*;

use crate::decoder::{Commands, DecodeResult, Decoder, Event};
use crate::led::Led;
use crate::text::{
    decimal, lemma_decimal_ascii, lemma_decimal_len, lemma_pow10_values, pow10,
    push_ascii, push_decimal, text_new, text_of,
};

verus! {

/// How a level appears in a status line.
pub open spec fn bool_text(b: bool) -> Seq<char> {
    if b {
        "true"@
    } else {
        "false"@
    }
}

/// The response to a command, given the controller before it.
pub open spec fn reply(led: Led, cmd: Commands, target: u8, value: u16) -> Seq<char> {
    match cmd {
        Commands::Led => "LA\r\n"@,
        Commands::Status => "SLv"@ + bool_text(led.lit) + "r"@ + decimal(led.rate as nat) + "\r\n"@,
        Commands::Valve => "run_command(command: '"@ + cmd.spec_name() + "' target: "@ + decimal(
            target as nat,
        ) + " value: "@ + decimal(value as nat) + ")\r\n"@,
    }
}

/// The controller after a command: a `Led` command sets the blink rate.
pub open spec fn applied(led: Led, cmd: Commands, value: u16) -> Led {
    match cmd {
        Commands::Led => Led { rate: value as u64, ..led },
        _ => led,
    }
}

/// Applies a decoded command and renders its response line.
pub fn command(led: &mut Led, cmd: Commands, target: u8, value: u16) -> (r: heapless::String<64>)
    ensures
        *final(led) == applied(*old(led), cmd, value),
        text_of(r) == reply(*old(led), cmd, target, value),
{
    proof {
        reveal_strlit("LA\r\n");
        reveal_strlit("SLv");
        reveal_strlit("true");
        reveal_strlit("false");
        reveal_strlit("r");
        reveal_strlit("\r\n");
        reveal_strlit("run_command(command: '");
        reveal_strlit("Valve");
        reveal_strlit("' target: ");
        reveal_strlit(" value: ");
        reveal_strlit(")\r\n");
        lemma_pow10_values();
        lemma_decimal_ascii(led.rate as nat);
        lemma_decimal_ascii(target as nat);
        lemma_decimal_ascii(value as nat);
        lemma_decimal_len(led.rate as nat, 20, pow10(20));
        lemma_decimal_len(target as nat, 3, pow10(3));
        lemma_decimal_len(value as nat, 5, pow10(5));
    }
    let mut text = text_new();
    if cmd == Commands::Led {
        led.rate = value as u64;
        push_ascii(&mut text, "LA\r\n");
    } else if cmd == Commands::Status {
        push_ascii(&mut text, "SLv");
        if led.is_on() {
            push_ascii(&mut text, "true");
        } else {
            push_ascii(&mut text, "false");
        }
        push_ascii(&mut text, "r");
        push_decimal(&mut text, led.rate);
        push_ascii(&mut text, "\r\n");
    } else {
        push_ascii(&mut text, "run_command(command: '");
        push_ascii(&mut text, cmd.name());
        push_ascii(&mut text, "' target: ");
        push_decimal(&mut text, target as u64);
        push_ascii(&mut text, " value: ");
        push_decimal(&mut text, value as u64);
        push_ascii(&mut text, ")\r\n");
    }
    text
}

/// Feeds one received byte to the decoder and returns the line to send back,
/// if any: a diagnostic as the decoder gave it, or the response to a completed
/// command, which is applied to the controller first.
pub fn respond(decoder: &mut Decoder, led: &mut Led, c: u8) -> (r: Option<heapless::String<64>>)
    ensures
        *final(decoder) == old(decoder).step(c).0,
        match old(decoder).step(c).1 {
            Event::Quiet => r is None && *final(led) == *old(led),
            Event::Diagnostic(s) => r is Some && text_of(r->0) == s && *final(led) == *old(led),
            Event::Decoded(cmd, target, value) => r is Some && text_of(r->0) == reply(
                *old(led),
                cmd,
                target,
                value,
            ) && *final(led) == applied(*old(led), cmd, value),
        },
{
    match decoder.run(&c) {
        DecodeResult::Nothing => None,
        DecodeResult::Text(text) => Some(text),
        DecodeResult::Command(cmd, target, value) => Some(command(led, cmd, target, value)),
    }
}

} // verus!
