//! Properties of the decoder over whole byte sequences.
use vstd::prelude::*;

use crate::decoder::{
    is_control, is_digit, next_value, unrecognised_text, Commands, DecodeState,
    Decoder, Event, DIGIT_0, ESC, LED_LOWER, LED_UPPER, STATUS_LOWER, STATUS_UPPER, VALVE_LOWER,
    VALVE_UPPER,
};

verus! {

impl Decoder {
    /// The decoder after the bytes `bs`, with the events that were not quiet,
    /// in order.
    pub open spec fn feed(self, bs: Seq<u8>) -> (Decoder, Seq<Event>)
        decreases bs.len(),
    {
        if bs.len() == 0 {
            (self, Seq::empty())
        } else {
            let (d, events) = self.feed(bs.drop_last());
            let (d2, e) = d.step(bs.last());
            (d2, if e is Quiet { events } else { events.push(e) })
        }
    }
}

/// The bytes are all decimal digits.
pub open spec fn all_digits(s: Seq<u8>) -> bool {
    forall|i| 0 <= i < s.len() ==> is_digit(#[trigger] s[i])
}

/// The number written by the decimal digits `s`.
pub open spec fn digits_value(s: Seq<u8>) -> nat
    decreases s.len(),
{
    if s.len() == 0 {
        0
    } else {
        digits_value(s.drop_last()) * 10 + (s.last() - DIGIT_0) as nat
    }
}

/// A byte that ends a value: neither a digit nor escape.
pub open spec fn is_terminator(c: u8) -> bool {
    !is_digit(c) && c != ESC
}

/// The length of a frame's head: the command letter, and the target digit
/// of a valve command.
pub open spec fn head_len(bs: Seq<u8>) -> int {
    if bs[0] == VALVE_LOWER || bs[0] == VALVE_UPPER {
        2
    } else {
        1
    }
}

/// The value digits of a valve or led frame.
pub open spec fn frame_digits(bs: Seq<u8>) -> Seq<u8> {
    bs.subrange(head_len(bs), bs.len() - 1)
}

/// `bs` is one complete command: a status letter; or a valve letter, a target
/// digit, value digits and a terminator; or a led letter, value digits and a
/// terminator. The value fits in 16 bits.
pub open spec fn is_frame(bs: Seq<u8>) -> bool {
    bs.len() >= 1 && if bs[0] == STATUS_LOWER || bs[0] == STATUS_UPPER {
        bs.len() == 1
    } else if bs[0] == VALVE_LOWER || bs[0] == VALVE_UPPER || bs[0] == LED_LOWER || bs[0]
        == LED_UPPER {
        &&& bs.len() >= head_len(bs) + 2
        &&& (head_len(bs) == 2 ==> is_digit(bs[1]))
        &&& all_digits(frame_digits(bs))
        &&& is_terminator(bs.last())
        &&& digits_value(frame_digits(bs)) <= 65535
    } else {
        false
    }
}

/// The target a frame leaves behind, given the target before it.
pub open spec fn frame_target(bs: Seq<u8>, target: u8) -> u8 {
    if head_len(bs) == 2 {
        (bs[1] - DIGIT_0) as u8
    } else {
        target
    }
}

/// The command event that a frame yields, given the target before it.
pub open spec fn frame_event(bs: Seq<u8>, target: u8) -> Event {
    if bs[0] == STATUS_LOWER || bs[0] == STATUS_UPPER {
        Event::Decoded(Commands::Status, 0, 0)
    } else if head_len(bs) == 2 {
        Event::Decoded(Commands::Valve, frame_target(bs, target), digits_value(frame_digits(bs)) as u16)
    } else {
        Event::Decoded(Commands::Led, target, digits_value(frame_digits(bs)) as u16)
    }
}

/// In the neutral state a control byte yields nothing and changes nothing;
/// a byte that is no command letter yields a diagnostic naming it, and the
/// decoder stays neutral.
pub proof fn lemma_neutral_bytes(d: Decoder, c: u8)
    requires
        d.state == DecodeState::GetCommand,
    ensures
        is_control(c) ==> d.step(c) == (d, Event::Quiet),
        !is_control(c) && c != STATUS_LOWER && c != STATUS_UPPER && c != VALVE_LOWER && c
            != VALVE_UPPER && c != LED_LOWER && c != LED_UPPER ==> d.step(c) == (
            d,
            Event::Diagnostic(unrecognised_text(c)),
        ),
{
}

/// Feeding `a` then `b` is feeding `a + b`.
pub proof fn lemma_feed_concat(d: Decoder, a: Seq<u8>, b: Seq<u8>)
    ensures
        d.feed(a + b) == (d.feed(a).0.feed(b).0, d.feed(a).1 + d.feed(a).0.feed(b).1),
    decreases b.len(),
{
    if b.len() == 0 {
        assert(a + b =~= a);
        assert(d.feed(a).1 + Seq::<Event>::empty() =~= d.feed(a).1);
    } else {
        lemma_feed_concat(d, a, b.drop_last());
        assert((a + b).drop_last() =~= a + b.drop_last());
        let m = d.feed(a).0;
        let (x, e) = m.feed(b.drop_last()).0.step(b.last());
        assert(d.feed(a).1 + m.feed(b.drop_last()).1.push(e) =~= (d.feed(a).1 + m.feed(
            b.drop_last(),
        ).1).push(e));
    }
}

/// The value of a prefix of digits is at most the value of the whole.
proof fn lemma_digits_prefix(s: Seq<u8>, k: int)
    requires
        0 <= k <= s.len(),
        all_digits(s),
    ensures
        digits_value(s.subrange(0, k)) <= digits_value(s),
    decreases s.len(),
{
    if k < s.len() {
        assert(s.drop_last().subrange(0, k) =~= s.subrange(0, k));
        assert(all_digits(s.drop_last())) by {
            assert forall|i| 0 <= i < s.drop_last().len() implies is_digit(
                #[trigger] s.drop_last()[i],
            ) by {
                assert(s.drop_last()[i] == s[i]);
            }
        }
        lemma_digits_prefix(s.drop_last(), k);
    } else {
        assert(s.subrange(0, k) =~= s);
    }
}

/// While a frame's digits are read, the decoder accumulates their value and
/// yields nothing.
proof fn lemma_feed_digits(d: Decoder, bs: Seq<u8>, k: int)
    requires
        d.state == DecodeState::GetCommand,
        is_frame(bs),
        !(bs[0] == STATUS_LOWER || bs[0] == STATUS_UPPER),
        0 <= k <= frame_digits(bs).len(),
    ensures
        d.feed(bs.subrange(0, head_len(bs) + k)).1 == Seq::<Event>::empty(),
        d.feed(bs.subrange(0, head_len(bs) + k)).0.target == frame_target(bs, d.target),
        d.feed(bs.subrange(0, head_len(bs) + k)).0.command == (if head_len(bs) == 2 {
            Commands::Valve
        } else {
            Commands::Led
        }),
        k == 0 ==> d.feed(bs.subrange(0, head_len(bs) + k)).0.state == DecodeState::GetNextValue,
        k > 0 ==> d.feed(bs.subrange(0, head_len(bs) + k)).0.state == DecodeState::GetValue,
        k > 0 ==> d.feed(bs.subrange(0, head_len(bs) + k)).0.value == digits_value(
            frame_digits(bs).subrange(0, k),
        ),
    decreases k,
{
    let h = head_len(bs);
    if k == 0 {
        let one = bs.subrange(0, 1);
        assert(one.drop_last() =~= Seq::<u8>::empty());
        assert(d.feed(one.drop_last()) == (d, Seq::<Event>::empty()));
        assert(one.last() == bs[0]);
        if h == 2 {
            let two = bs.subrange(0, 2);
            assert(two.drop_last() =~= one);
            assert(two.last() == bs[1]);
            assert(d.feed(two.drop_last()) == d.feed(one));
        }
    } else {
        lemma_feed_digits(d, bs, k - 1);
        let pre = bs.subrange(0, h + k);
        assert(pre.drop_last() =~= bs.subrange(0, h + k - 1));
        assert(pre.last() == bs[h + k - 1]);
        let digits = frame_digits(bs);
        assert(digits[k - 1] == bs[h + k - 1]);
        assert(is_digit(digits[k - 1]));
        let dk = digits.subrange(0, k);
        assert(dk.drop_last() =~= digits.subrange(0, k - 1));
        assert(dk.last() == digits[k - 1]);
        if k > 1 {
            lemma_digits_prefix(digits, k);
            let prev = d.feed(bs.subrange(0, h + k - 1)).0;
            assert(prev.value * 10 + (bs[h + k - 1] - DIGIT_0) == digits_value(dk));
            assert(next_value(prev.value, bs[h + k - 1]) == digits_value(dk));
            assert(digits_value(dk) <= 65535);
        } else {
            assert(digits.subrange(0, 0) =~= Seq::<u8>::empty());
            assert(digits_value(dk.drop_last()) == 0);
            assert(digits_value(dk) == (bs[h] - DIGIT_0) as nat);
        }
    }
}

/// A frame fed to a neutral decoder yields exactly its command event and
/// leaves the decoder neutral.
pub proof fn lemma_feed_frame(d: Decoder, bs: Seq<u8>)
    requires
        d.state == DecodeState::GetCommand,
        is_frame(bs),
    ensures
        d.feed(bs).0.state == DecodeState::GetCommand,
        d.feed(bs).0.target == frame_target(bs, d.target),
        d.feed(bs).1 == seq![frame_event(bs, d.target)],
{
    if bs[0] == STATUS_LOWER || bs[0] == STATUS_UPPER {
        assert(bs.drop_last() =~= Seq::<u8>::empty());
        assert(d.feed(bs.drop_last()) == (d, Seq::<Event>::empty()));
        assert(Seq::<Event>::empty().push(frame_event(bs, d.target)) =~= seq![
            frame_event(bs, d.target),
        ]);
    } else {
        let h = head_len(bs);
        let n = frame_digits(bs).len() as int;
        lemma_feed_digits(d, bs, n);
        assert(bs.subrange(0, h + n) =~= bs.drop_last());
        assert(frame_digits(bs).subrange(0, n) =~= frame_digits(bs));
        assert(Seq::<Event>::empty().push(frame_event(bs, d.target)) =~= seq![
            frame_event(bs, d.target),
        ]);
    }
}

/// Two complete commands fed back to back to a neutral decoder yield exactly
/// their two command events, each as it would be alone, and leave the decoder
/// neutral.
pub proof fn lemma_two_frames(d: Decoder, a: Seq<u8>, b: Seq<u8>)
    requires
        d.state == DecodeState::GetCommand,
        is_frame(a),
        is_frame(b),
    ensures
        d.feed(a + b).0.state == DecodeState::GetCommand,
        d.feed(a + b).1 == seq![
            frame_event(a, d.target),
            frame_event(b, frame_target(a, d.target)),
        ],
{
    lemma_feed_concat(d, a, b);
    lemma_feed_frame(d, a);
    lemma_feed_frame(d.feed(a).0, b);
    assert(seq![frame_event(a, d.target)] + seq![frame_event(b, frame_target(a, d.target))]
        =~= seq![frame_event(a, d.target), frame_event(b, frame_target(a, d.target))]);
}

} // verus!
