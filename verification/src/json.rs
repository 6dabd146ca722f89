//! The JSON text of persisted projections, framed byte by byte.
//!
//! Strings are escaped as `serde_json` does: `"` and `\` with a backslash,
//! `\b \t \n \f \r` by name, other bytes below 0x20 as `\u00XX` with lowercase
//! hex digits, and every other byte copied unchanged.
use vstd::prelude::*;
use vstd::string::*;
use crate::text::{texts, utf8};

verus! {

/// The escaped form of one byte of a string's UTF-8 encoding.
pub open spec fn escape_byte(b: u8) -> Seq<u8> {
    if b == 34 {
        seq![92u8, 34u8]
    } else if b == 92 {
        seq![92u8, 92u8]
    } else if b == 8 {
        seq![92u8, 98u8]
    } else if b == 9 {
        seq![92u8, 116u8]
    } else if b == 10 {
        seq![92u8, 110u8]
    } else if b == 12 {
        seq![92u8, 102u8]
    } else if b == 13 {
        seq![92u8, 114u8]
    } else if b < 32 {
        seq![92u8, 117u8, 48u8, 48u8, hex_byte_digit(b / 16), hex_byte_digit(b % 16)]
    } else {
        seq![b]
    }
}

/// The ASCII byte of a lowercase hex digit.
pub open spec fn hex_byte_digit(n: u8) -> u8 {
    if n < 10 {
        (48 + n) as u8
    } else {
        (87 + n) as u8
    }
}

/// The escaped body of a byte string.
pub open spec fn escape_bytes(bytes: Seq<u8>) -> Seq<u8>
    decreases bytes.len(),
{
    if bytes.len() == 0 {
        Seq::empty()
    } else {
        escape_bytes(bytes.drop_last()) + escape_byte(bytes.last())
    }
}

/// A JSON string literal holding `s`.
#[verifier::opaque]
pub open spec fn json_string(s: Seq<char>) -> Seq<u8> {
    seq![34u8] + escape_bytes(utf8(s)) + seq![34u8]
}

/// `null` or the string.
#[verifier::opaque]
pub open spec fn json_opt_string(s: Option<Seq<char>>) -> Seq<u8> {
    match s {
        Some(v) => json_string(v),
        None => utf8("null"@),
    }
}

/// `true` or `false`.
#[verifier::opaque]
pub open spec fn json_bool(b: bool) -> Seq<u8> {
    if b {
        utf8("true"@)
    } else {
        utf8("false"@)
    }
}

/// The decimal digits of a natural number.
pub open spec fn decimal(n: nat) -> Seq<u8>
    decreases n,
{
    if n < 10 {
        seq![(48 + n) as u8]
    } else {
        decimal(n / 10).push((48 + n % 10) as u8)
    }
}

/// A JSON integer.
#[verifier::opaque]
pub open spec fn json_int(n: int) -> Seq<u8> {
    if n < 0 {
        seq![45u8] + decimal((-n) as nat)
    } else {
        decimal(n as nat)
    }
}

/// A comma-separated list of JSON values.
pub open spec fn json_list(values: Seq<Seq<u8>>) -> Seq<u8>
    decreases values.len(),
{
    if values.len() == 0 {
        Seq::empty()
    } else if values.len() == 1 {
        values[0]
    } else {
        json_list(values.drop_last()) + seq![44u8] + values.last()
    }
}

/// A JSON array of already encoded values.
#[verifier::opaque]
pub open spec fn json_array(values: Seq<Seq<u8>>) -> Seq<u8> {
    seq![91u8] + json_list(values) + seq![93u8]
}

/// A JSON array of strings.
#[verifier::opaque]
pub open spec fn json_string_array(values: Seq<Seq<char>>) -> Seq<u8> {
    json_array(values.map_values(|v: Seq<char>| json_string(v)))
}

/// Appends the bytes of a slice.
pub fn push_bytes(out: &mut Vec<u8>, bytes: &[u8])
    ensures
        final(out)@ == old(out)@ + bytes@,
{
    let ghost start = out@;
    let mut i: usize = 0;
    while i < bytes.len()
        invariant
            i <= bytes.len(),
            out@ == start + bytes@.take(i as int),
        decreases bytes.len() - i,
    {
        out.push(bytes[i]);
        proof {
            assert(bytes@.take(i + 1) =~= bytes@.take(i as int).push(bytes@[i as int]));
        }
        i = i + 1;
    }
    proof {
        assert(bytes@.take(bytes.len() as int) =~= bytes@);
    }
}

/// Appends the UTF-8 bytes of a text verbatim (keys, punctuation, literals).
pub fn push_text(out: &mut Vec<u8>, text: &str)
    ensures
        final(out)@ == old(out)@ + utf8(text@),
{
    push_bytes(out, text.as_bytes());
}

fn hex_byte_digit_exec(n: u8) -> (d: u8)
    requires
        n < 16,
    ensures
        d == hex_byte_digit(n),
{
    if n < 10 {
        48 + n
    } else {
        87 + n
    }
}

/// Appends one escaped byte.
pub fn push_escaped_byte(out: &mut Vec<u8>, b: u8)
    ensures
        final(out)@ == old(out)@ + escape_byte(b),
{
    let ghost start = out@;
    if b == 34 || b == 92 {
        out.push(92);
        out.push(b);
    } else if b == 8 {
        out.push(92);
        out.push(98);
    } else if b == 9 {
        out.push(92);
        out.push(116);
    } else if b == 10 {
        out.push(92);
        out.push(110);
    } else if b == 12 {
        out.push(92);
        out.push(102);
    } else if b == 13 {
        out.push(92);
        out.push(114);
    } else if b < 32 {
        out.push(92);
        out.push(117);
        out.push(48);
        out.push(48);
        out.push(hex_byte_digit_exec(b / 16));
        out.push(hex_byte_digit_exec(b % 16));
    } else {
        out.push(b);
    }
    proof {
        assert(out@ =~= start + escape_byte(b));
    }
}

/// Appends `text` as a JSON string literal.
pub fn push_json_string(out: &mut Vec<u8>, text: &str)
    ensures
        final(out)@ == old(out)@ + json_string(text@),
{
    let ghost start = out@;
    let bytes = text.as_bytes();
    out.push(34);
    let mut i: usize = 0;
    while i < bytes.len()
        invariant
            bytes@ == utf8(text@),
            i <= bytes.len(),
            out@ == start + seq![34u8] + escape_bytes(bytes@.take(i as int)),
        decreases bytes.len() - i,
    {
        let ghost before = out@;
        push_escaped_byte(out, bytes[i]);
        proof {
            let t = bytes@.take(i + 1);
            assert(t.drop_last() =~= bytes@.take(i as int));
            assert(t.last() == bytes@[i as int]);
            assert(out@ =~= start + seq![34u8] + escape_bytes(t));
        }
        i = i + 1;
    }
    out.push(34);
    proof {
        reveal(json_string);
        assert(bytes@.take(bytes.len() as int) =~= bytes@);
        assert(out@ =~= start + json_string(text@));
    }
}

/// Appends `null` or the JSON string.
pub fn push_json_opt_string(out: &mut Vec<u8>, text: &Option<String>)
    ensures
        final(out)@ == old(out)@ + json_opt_string(opt_view(*text)),
{
    reveal(json_opt_string);
    match text {
        Some(value) => push_json_string(out, value.as_str()),
        None => push_text(out, "null"),
    }
}

/// The view of an optional text.
pub open spec fn opt_view(text: Option<String>) -> Option<Seq<char>> {
    match text {
        Some(value) => Some(value@),
        None => None,
    }
}

/// Appends `true` or `false`.
pub fn push_json_bool(out: &mut Vec<u8>, value: bool)
    ensures
        final(out)@ == old(out)@ + json_bool(value),
{
    reveal(json_bool);
    if value {
        push_text(out, "true");
    } else {
        push_text(out, "false");
    }
}

/// Appends the decimal digits of `value`.
pub fn push_decimal(out: &mut Vec<u8>, value: u64)
    ensures
        final(out)@ == old(out)@ + decimal(value as nat),
{
    let mut digits: Vec<u8> = Vec::new();
    let mut rest: u64 = value;
    loop
        invariant_except_break
            decimal(value as nat) == decimal(rest as nat) + digits@,
        ensures
            decimal(value as nat) == digits@,
        decreases rest,
    {
        if rest < 10 {
            proof {
                assert(decimal(rest as nat) =~= seq![(48 + rest) as u8]);
                assert(decimal(value as nat) =~= seq![(48 + rest) as u8] + digits@);
            }
            digits.insert(0, (48 + rest) as u8);
            break;
        }
        let d = (48 + rest % 10) as u8;
        proof {
            assert(decimal(rest as nat) == decimal((rest / 10) as nat).push(d));
            assert(decimal((rest / 10) as nat).push(d) + digits@ =~= decimal((rest / 10) as nat)
                + seq![d].add(digits@));
        }
        digits.insert(0, d);
        rest = rest / 10;
    }
    push_bytes(out, digits.as_slice());
}

/// Appends a signed JSON integer.
pub fn push_json_i64(out: &mut Vec<u8>, value: i64)
    ensures
        final(out)@ == old(out)@ + json_int(value as int),
{
    reveal(json_int);
    if value < 0 {
        let ghost start = out@;
        out.push(45);
        let magnitude: u64 = if value == i64::MIN {
            9223372036854775808u64
        } else {
            (-value) as u64
        };
        push_decimal(out, magnitude);
        proof {
            assert(out@ =~= start + json_int(value as int));
        }
    } else {
        push_decimal(out, value as u64);
    }
}

/// Appends a JSON array of strings.
pub fn push_json_string_array(out: &mut Vec<u8>, values: &Vec<String>)
    ensures
        final(out)@ == old(out)@ + json_string_array(texts(values@)),
{
    let ghost start = out@;
    let ghost encoded = texts(values@).map_values(|v: Seq<char>| json_string(v));
    out.push(91);
    let mut i: usize = 0;
    while i < values.len()
        invariant
            i <= values.len(),
            encoded == texts(values@).map_values(|v: Seq<char>| json_string(v)),
            out@ == start + seq![91u8] + json_list(encoded.take(i as int)),
        decreases values.len() - i,
    {
        if i > 0 {
            out.push(44);
        }
        push_json_string(out, values[i].as_str());
        proof {
            let t = encoded.take(i + 1);
            assert(t.drop_last() =~= encoded.take(i as int));
            assert(t.last() == json_string(values[i as int]@));
            if i == 0 {
                assert(json_list(encoded.take(0)) =~= Seq::<u8>::empty());
                assert(json_list(t) == t[0]);
            }
            assert(out@ =~= start + seq![91u8] + json_list(t));
        }
        i = i + 1;
    }
    out.push(93);
    proof {
        reveal(json_string_array);
        reveal(json_array);
        assert(encoded.take(values.len() as int) =~= encoded);
        assert(out@ =~= start + json_string_array(texts(values@)));
    }
}

} // verus!
