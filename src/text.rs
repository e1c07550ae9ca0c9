//! Bounded response text: a 64-byte `heapless::String` and the decimal
//! rendering of integers into it.
use vstd::prelude::*;
use vstd::string::StringSliceAdditionalSpecFns;
use vstd::utf8::{encode_utf8, is_ascii_chars, is_ascii_chars_encode_utf8};

verus! {

/// Capacity, in bytes, of every response line.
pub const TEXT_CAPACITY: usize = 64;

/// heapless::String, a string held in a fixed array of `N` bytes, carried
/// as an opaque value; its contents are `text_of`.
#[verifier::external_type_specification]
#[verifier::external_body]
pub struct ExHeaplessString<const N: usize>(heapless::String<N>);

/// The characters held by a response line.
pub uninterp spec fn text_of(t: heapless::String<64>) -> Seq<char>;

/// The character that writes the decimal digit `d`.
pub open spec fn digit_char(d: nat) -> char {
    ((d + 48) as u8) as char
}

/// The decimal representation of `n`, without leading zeros.
pub open spec fn decimal(n: nat) -> Seq<char>
    decreases n,
{
    if n < 10 {
        seq![digit_char(n)]
    } else {
        decimal(n / 10).push(digit_char(n % 10))
    }
}

/// A line of ASCII characters that still has room for `extra` more bytes.
pub open spec fn has_room(chars: Seq<char>, extra: nat) -> bool {
    is_ascii_chars(chars) && chars.len() + extra <= 64
}

/// Relies on heapless::String::new: a fresh string holds no characters.
#[verifier::external_body]
pub(crate) fn text_new() -> (r: heapless::String<64>)
    ensures
        text_of(r) == Seq::<char>::empty(),
{
    heapless::String::new()
}

/// Relies on heapless::String::push_str: the bytes of `s` are appended when
/// they fit in the capacity, and nothing changes otherwise.
#[verifier::external_body]
pub(crate) fn text_push_str(t: &mut heapless::String<64>, s: &str) -> (r: Result<(), ()>)
    ensures
        r is Ok <==> encode_utf8(text_of(*old(t))).len() + s.spec_bytes().len() <= 64,
        r is Ok ==> text_of(*final(t)) == text_of(*old(t)) + s@,
        r is Err ==> text_of(*final(t)) == text_of(*old(t)),
{
    t.push_str(s)
}

/// Relies on heapless::String::push: the encoding of `c` is appended when it
/// fits in the capacity, and nothing changes otherwise.
#[verifier::external_body]
pub(crate) fn text_push(t: &mut heapless::String<64>, c: char) -> (r: Result<(), ()>)
    ensures
        r is Ok <==> encode_utf8(text_of(*old(t))).len() + encode_utf8(seq![c]).len() <= 64,
        r is Ok ==> text_of(*final(t)) == text_of(*old(t)).push(c),
        r is Err ==> text_of(*final(t)) == text_of(*old(t)),
{
    t.push(c)
}

/// Decimal digits are ASCII, and there is at least one.
pub proof fn lemma_decimal_ascii(n: nat)
    ensures
        is_ascii_chars(decimal(n)),
        decimal(n).len() >= 1,
    decreases n,
{
    if n >= 10 {
        lemma_decimal_ascii(n / 10);
        assert(is_ascii_chars(decimal(n))) by {
            assert forall|i| 0 <= i < decimal(n).len() implies '\0' <= #[trigger] decimal(n)[i]
                <= '\u{7f}' by {
                if i < decimal(n / 10).len() {
                    assert(decimal(n)[i] == decimal(n / 10)[i]);
                }
            }
        }
    }
}

/// A number below `10^k` takes at most `k` digits.
pub proof fn lemma_decimal_len(n: nat, k: nat, bound: nat)
    requires
        n < bound,
        bound == pow10(k),
        k >= 1,
    ensures
        decimal(n).len() <= k,
    decreases k,
{
    if n >= 10 {
        assert(k >= 2) by {
            if k == 1 {
                assert(pow10(1) == 10 * pow10(0));
            }
        }
        let b2 = pow10((k - 1) as nat);
        assert(bound == 10 * b2);
        assert(n / 10 < b2) by (nonlinear_arith)
            requires n < 10 * b2;
        lemma_decimal_len(n / 10, (k - 1) as nat, b2);
    }
}

/// Ten to the power `k`.
pub open spec fn pow10(k: nat) -> nat
    decreases k,
{
    if k == 0 {
        1
    } else {
        10 * pow10((k - 1) as nat)
    }
}

/// The powers of ten that bound `u8`, `u16` and `u64`.
pub proof fn lemma_pow10_values()
    ensures
        pow10(3) == 1000,
        pow10(5) == 100000,
        pow10(20) == 100000000000000000000,
{
    reveal_with_fuel(pow10, 21);
}

/// Appends the ASCII string `s` to a line that has room for it.
pub(crate) fn push_ascii(t: &mut heapless::String<64>, s: &str)
    requires
        is_ascii_chars(s@),
        has_room(text_of(*old(t)), s@.len()),
    ensures
        text_of(*final(t)) == text_of(*old(t)) + s@,
        is_ascii_chars(text_of(*final(t))),
{
    proof {
        is_ascii_chars_encode_utf8(text_of(*t));
        is_ascii_chars_encode_utf8(s@);
    }
    let r = text_push_str(t, s);
    assert(r is Ok);
    proof {
        let a = text_of(*old(t));
        let b = text_of(*t);
        assert forall|i| 0 <= i < b.len() implies '\0' <= #[trigger] b[i] <= '\u{7f}' by {
            if i < a.len() {
                assert(b[i] == a[i]);
            } else {
                assert(b[i] == s@[i - a.len()]);
            }
        }
    }
}

/// Appends the decimal representation of `n` to a line that has room for it.
pub(crate) fn push_decimal(t: &mut heapless::String<64>, n: u64)
    requires
        has_room(text_of(*old(t)), decimal(n as nat).len()),
    ensures
        text_of(*final(t)) == text_of(*old(t)) + decimal(n as nat),
        is_ascii_chars(text_of(*final(t))),
    decreases n,
{
    let ghost start = text_of(*t);
    if n >= 10 {
        proof {
            lemma_decimal_ascii((n / 10) as nat);
        }
        push_decimal(t, n / 10);
    }
    let d: u8 = (n % 10) as u8;
    let c: char = (d + 48) as char;
    assert(c == digit_char((n % 10) as nat));
    proof {
        is_ascii_chars_encode_utf8(text_of(*t));
        is_ascii_chars_encode_utf8(seq![c]);
    }
    let r = text_push(t, c);
    assert(r is Ok);
    proof {
        assert(text_of(*t) =~= start + decimal(n as nat));
        lemma_decimal_ascii(n as nat);
        let a = start;
        let b = text_of(*t);
        let dn = decimal(n as nat);
        assert forall|i| 0 <= i < b.len() implies '\0' <= #[trigger] b[i] <= '\u{7f}' by {
            if i < a.len() {
                assert(b[i] == a[i]);
            } else {
                assert(b[i] == dn[i - a.len()]);
            }
        }
    }
}

} // verus!
