//! Byte- and character-bounded text used by every persisted projection.
use std::hash::{Hash, Hasher};
use vstd::prelude::*;
use vstd::string::*;
use vstd::utf8::*;

verus! {

broadcast use vstd::utf8::group_utf8_lib;

/// Upper bound of the live text kept for one projected message.
pub const MAX_LIVE_MESSAGE_BYTES: usize = 524288;

/// Upper bound of one projected identifier.
pub const MAX_IDENTIFIER_BYTES: usize = 256;

/// Upper bound of a value shown to the user for approval (paths, commands, hosts).
pub const MAX_DISPLAY_VALUE_BYTES: usize = 4096;

/// Upper bound of one string copied from a provider payload, in characters.
pub const MAX_PROVIDER_STRING_CHARS: usize = 20000;

/// The UTF-8 bytes of a character sequence.
pub open spec fn utf8(s: Seq<char>) -> Seq<u8> {
    encode_utf8(s)
}

/// The contents of a sequence of texts.
pub open spec fn texts(values: Seq<String>) -> Seq<Seq<char>> {
    values.map_values(|value: String| value@)
}

/// The greatest character boundary of `bytes` that is not above `limit`.
pub open spec fn floor_char_boundary(bytes: Seq<u8>, limit: int) -> int
    decreases limit,
{
    if limit <= 0 {
        0
    } else if is_char_boundary(bytes, limit) {
        limit
    } else {
        floor_char_boundary(bytes, limit - 1)
    }
}

/// What `bounded_to` keeps of `value` under a byte `limit`: all of it when it
/// fits, otherwise the bytes up to the last character boundary within the limit.
pub open spec fn bounded_bytes(value: Seq<char>, limit: int) -> Seq<u8> {
    if utf8(value).len() <= limit {
        utf8(value)
    } else {
        utf8(value).subrange(0, floor_char_boundary(utf8(value), limit))
    }
}

/// The characters whose encoding is `bounded_bytes(value, limit)`.
pub open spec fn bounded_chars(value: Seq<char>, limit: int) -> Seq<char> {
    decode_utf8(bounded_bytes(value, limit))
}

proof fn lemma_floor_char_boundary(bytes: Seq<u8>, limit: int)
    requires
        valid_utf8(bytes),
        0 <= limit,
    ensures
        0 <= floor_char_boundary(bytes, limit) <= limit,
        is_char_boundary(bytes, floor_char_boundary(bytes, limit)),
    decreases limit,
{
    is_char_boundary_start_end_of_seq(bytes);
    if limit > 0 && !is_char_boundary(bytes, limit) {
        lemma_floor_char_boundary(bytes, limit - 1);
    }
}

/// A text bounded to `limit` bytes encodes in at most `limit` bytes.
pub proof fn lemma_bounded_chars_fit(value: Seq<char>, limit: int)
    requires
        0 <= limit,
    ensures
        utf8(bounded_chars(value, limit)).len() <= limit,
{
    let bytes = utf8(value);
    encode_utf8_valid_utf8(value);
    if bytes.len() <= limit {
        encode_utf8_decode_utf8(value);
    } else {
        lemma_floor_char_boundary(bytes, limit);
        let cut = floor_char_boundary(bytes, limit);
        valid_utf8_split(bytes, cut);
        decode_utf8_encode_utf8(bytes.subrange(0, cut));
    }
}

/// The encoding of a concatenation is the concatenation of the encodings.
pub proof fn lemma_utf8_concat(a: Seq<char>, b: Seq<char>)
    ensures
        utf8(a + b) == utf8(a) + utf8(b),
    decreases a.len(),
{
    if a.len() == 0 {
        assert(a + b =~= b);
        assert(utf8(a) =~= Seq::<u8>::empty());
        assert(utf8(a) + utf8(b) =~= utf8(b));
    } else {
        assert((a + b).drop_first() =~= a.drop_first() + b);
        lemma_utf8_concat(a.drop_first(), b);
        assert((a + b)[0] == a[0]);
        assert(utf8(a + b) =~= encode_scalar(a[0] as u32) + (utf8(a.drop_first()) + utf8(b)));
    }
}

/// An ASCII character is encoded in one byte.
pub proof fn lemma_utf8_ascii_char(c: char)
    requires
        (c as u32) < 128,
    ensures
        utf8(seq![c]).len() == 1,
{
    assert(seq![c].drop_first() =~= Seq::<char>::empty());
    assert(utf8(seq![c]) =~= encode_scalar(c as u32) + utf8(Seq::<char>::empty()));
}

/// Every character of an ASCII sequence takes one byte.
pub proof fn lemma_utf8_ascii_len(s: Seq<char>)
    requires
        forall|i: int| 0 <= i < s.len() ==> (#[trigger] s[i] as u32) < 128,
    ensures
        utf8(s).len() == s.len(),
    decreases s.len(),
{
    if s.len() > 0 {
        assert(forall|i: int| 0 <= i < s.drop_first().len() ==> s.drop_first()[i] == s[i + 1]);
        lemma_utf8_ascii_len(s.drop_first());
    }
}

/// Truncates `value` to at most `limit` UTF-8 bytes without splitting a character.
pub fn bounded_to(value: String, limit: usize) -> (result: String)
    ensures
        utf8(result@) == bounded_bytes(value@, limit as int),
        result@ == bounded_chars(value@, limit as int),
        utf8(result@).len() <= limit,
        utf8(value@).len() <= limit ==> result@ == value@,
{
    let text = value.as_str();
    let length = text.as_bytes().len();
    proof {
        assert(text.spec_bytes() == utf8(value@));
        encode_utf8_decode_utf8(value@);
    }
    if length <= limit {
        return value;
    }
    let ghost bytes = utf8(value@);
    proof {
        encode_utf8_valid_utf8(value@);
        is_char_boundary_start_end_of_seq(bytes);
    }
    let mut boundary = limit;
    while !value.as_str().is_char_boundary(boundary)
        invariant
            bytes == utf8(value@),
            valid_utf8(bytes),
            boundary <= limit < bytes.len(),
            floor_char_boundary(bytes, boundary as int) == floor_char_boundary(bytes, limit as int),
        decreases boundary,
    {
        proof {
            if boundary == 0 {
                is_char_boundary_start_end_of_seq(bytes);
            }
        }
        boundary = boundary - 1;
    }
    proof {
        is_char_boundary_start_end_of_seq(bytes);
    }
    let (head, _tail) = value.as_str().split_at(boundary);
    let result = head.to_owned();
    proof {
        lemma_floor_char_boundary(bytes, limit as int);
        assert(utf8(result@) == head.spec_bytes());
        encode_utf8_decode_utf8(result@);
    }
    result
}

/// Live message text is bounded to `MAX_LIVE_MESSAGE_BYTES`.
pub fn bounded(value: String) -> (result: String)
    ensures
        utf8(result@) == bounded_bytes(value@, MAX_LIVE_MESSAGE_BYTES as int),
        result@ == bounded_chars(value@, MAX_LIVE_MESSAGE_BYTES as int),
        utf8(result@).len() <= MAX_LIVE_MESSAGE_BYTES,
{
    bounded_to(value, MAX_LIVE_MESSAGE_BYTES)
}

/// Appends one character to a `String` (`String::push`).
#[verifier::external_body]
pub(crate) fn push_char(text: &mut String, c: char)
    ensures
        final(text)@ == old(text)@.push(c),
{
    text.push(c);
}

/// The characters of `text`, in order.
pub fn chars_of(text: &str) -> (chars: Vec<char>)
    ensures
        chars@ == text@,
{
    let mut chars: Vec<char> = Vec::new();
    for c in it: text.chars()
        invariant
            chars@ == it.seq().take(it.index() as int),
    {
        chars.push(c);
    }
    chars
}

/// Appends every character of `chars` to `text`.
pub fn push_chars(text: &mut String, chars: &[char])
    ensures
        final(text)@ == old(text)@ + chars@,
{
    let ghost start = text@;
    let mut i: usize = 0;
    while i < chars.len()
        invariant
            i <= chars.len(),
            text@ == start + chars@.take(i as int),
        decreases chars.len() - i,
    {
        push_char(text, chars[i]);
        proof {
            assert(chars@.take(i + 1) =~= chars@.take(i as int).push(chars@[i as int]));
        }
        i = i + 1;
    }
    proof {
        assert(chars@.take(chars.len() as int) =~= chars@);
    }
}

/// Appends the text of `suffix` to `text`.
pub fn push_str(text: &mut String, suffix: &str)
    ensures
        final(text)@ == old(text)@ + suffix@,
{
    let chars = chars_of(suffix);
    push_chars(text, chars.as_slice());
}

/// Whether two texts hold the same characters.
pub fn str_equals(a: &str, b: &str) -> (equal: bool)
    ensures
        equal == (a@ == b@),
{
    let left = chars_of(a);
    let right = chars_of(b);
    if left.len() != right.len() {
        return false;
    }
    let mut i: usize = 0;
    while i < left.len()
        invariant
            left@ == a@,
            right@ == b@,
            left.len() == right.len(),
            i <= left.len(),
            forall|j: int| 0 <= j < i ==> left@[j] == right@[j],
        decreases left.len() - i,
    {
        if left[i] != right[i] {
            return false;
        }
        i = i + 1;
    }
    proof {
        assert(a@ =~= b@);
    }
    true
}

/// Unicode `White_Space`, the set that `char::is_whitespace` and `str::trim` use.
pub open spec fn is_whitespace_char(c: char) -> bool {
    let u = c as u32;
    (0x9 <= u <= 0xd) || u == 0x20 || u == 0x85 || u == 0xa0 || u == 0x1680 || (0x2000 <= u
        <= 0x200a) || u == 0x2028 || u == 0x2029 || u == 0x202f || u == 0x205f || u == 0x3000
}

/// Unicode general category `Cc`, the set that `char::is_control` tests.
pub open spec fn is_control_char(c: char) -> bool {
    let u = c as u32;
    u <= 0x1f || (0x7f <= u <= 0x9f)
}

/// Whether `c` is a Unicode white-space character.
pub fn is_whitespace(c: char) -> (result: bool)
    ensures
        result == is_whitespace_char(c),
{
    let u = c as u32;
    (0x9 <= u && u <= 0xd) || u == 0x20 || u == 0x85 || u == 0xa0 || u == 0x1680 || (0x2000 <= u
        && u <= 0x200a) || u == 0x2028 || u == 0x2029 || u == 0x202f || u == 0x205f || u == 0x3000
}

/// Whether `c` is a control character.
pub fn is_control(c: char) -> (result: bool)
    ensures
        result == is_control_char(c),
{
    let u = c as u32;
    u <= 0x1f || (0x7f <= u && u <= 0x9f)
}

/// `s.trim()` is empty exactly when every character of `s` is white space.
pub open spec fn is_blank(s: Seq<char>) -> bool {
    forall|i: int| 0 <= i < s.len() ==> is_whitespace_char(#[trigger] s[i])
}

/// Whether `value.trim().is_empty()`.
pub fn is_blank_str(value: &str) -> (blank: bool)
    ensures
        blank == is_blank(value@),
{
    let chars = chars_of(value);
    let mut i: usize = 0;
    while i < chars.len()
        invariant
            chars@ == value@,
            i <= chars.len(),
            forall|j: int| 0 <= j < i ==> is_whitespace_char(#[trigger] chars@[j]),
        decreases chars.len() - i,
    {
        if !is_whitespace(chars[i]) {
            return false;
        }
        i = i + 1;
    }
    true
}

/// Whether `value` holds a character of `char::is_control`.
pub open spec fn has_control(s: Seq<char>) -> bool {
    exists|i: int| 0 <= i < s.len() && is_control_char(#[trigger] s[i])
}

/// Whether `value` holds a control character.
pub fn has_control_str(value: &str) -> (found: bool)
    ensures
        found == has_control(value@),
{
    let chars = chars_of(value);
    let mut i: usize = 0;
    while i < chars.len()
        invariant
            chars@ == value@,
            i <= chars.len(),
            forall|j: int| 0 <= j < i ==> !is_control_char(#[trigger] chars@[j]),
        decreases chars.len() - i,
    {
        if is_control(chars[i]) {
            return true;
        }
        i = i + 1;
    }
    false
}

/// Whether a text is reviewable: not blank, at most `MAX_DISPLAY_VALUE_BYTES`
/// bytes, and free of control characters.
pub open spec fn bounded_display_value(s: Seq<char>) -> bool {
    !is_blank(s) && utf8(s).len() <= MAX_DISPLAY_VALUE_BYTES && !has_control(s)
}

/// Whether `value` can be shown to the user as an authorization target.
pub fn is_bounded_display_value(value: &str) -> (result: bool)
    ensures
        result == bounded_display_value(value@),
{
    let blank = is_blank_str(value);
    let length = value.as_bytes().len();
    let control = has_control_str(value);
    !blank && length <= MAX_DISPLAY_VALUE_BYTES && !control
}

/// Whether a byte is a lowercase hexadecimal digit.
pub open spec fn is_lower_hex_byte(b: u8) -> bool {
    (48 <= b <= 57) || (97 <= b <= 102)
}

/// A full Git object name: 40 (SHA-1) or 64 (SHA-256) lowercase hex digits.
pub open spec fn git_commit_text(s: Seq<char>) -> bool {
    (utf8(s).len() == 40 || utf8(s).len() == 64) && forall|i: int|
        0 <= i < utf8(s).len() ==> is_lower_hex_byte(#[trigger] utf8(s)[i])
}

/// Whether `value` is a full lowercase Git commit id.
pub fn is_git_commit(value: &str) -> (result: bool)
    ensures
        result == git_commit_text(value@),
{
    let bytes = value.as_bytes();
    let length = bytes.len();
    if length != 40 && length != 64 {
        return false;
    }
    let mut i: usize = 0;
    while i < length
        invariant
            bytes@ == utf8(value@),
            length == bytes@.len(),
            i <= length,
            forall|j: int| 0 <= j < i ==> is_lower_hex_byte(#[trigger] bytes@[j]),
        decreases length - i,
    {
        let b = bytes[i];
        if !((48 <= b && b <= 57) || (97 <= b && b <= 102)) {
            return false;
        }
        i = i + 1;
    }
    true
}

/// At most the first `MAX_PROVIDER_STRING_CHARS` characters of a provider string.
pub fn bounded_provider_string(value: &str) -> (result: String)
    ensures
        value@.len() <= MAX_PROVIDER_STRING_CHARS ==> result@ == value@,
        value@.len() > MAX_PROVIDER_STRING_CHARS ==> result@ == value@.take(
            MAX_PROVIDER_STRING_CHARS as int,
        ),
{
    let chars = chars_of(value);
    let mut result = String::new();
    let mut i: usize = 0;
    while i < chars.len() && i < MAX_PROVIDER_STRING_CHARS
        invariant
            chars@ == value@,
            i <= chars.len(),
            i <= MAX_PROVIDER_STRING_CHARS,
            result@ == value@.take(i as int),
        decreases chars.len() - i,
    {
        push_char(&mut result, chars[i]);
        proof {
            assert(value@.take(i + 1) =~= value@.take(i as int).push(value@[i as int]));
        }
        i = i + 1;
    }
    proof {
        assert(value@.take(value@.len() as int) =~= value@);
    }
    result
}

/// The lowercase hexadecimal digit of `n` (below 16).
pub open spec fn hex_digit(n: int) -> char {
    if n < 10 {
        (48 + n) as char
    } else {
        (87 + n) as char
    }
}

/// `n` written with exactly `width` lowercase hex digits (`{:0width$x}` for values below 16^width).
pub open spec fn hex_fixed(n: nat, width: nat) -> Seq<char>
    decreases width,
{
    if width == 0 {
        Seq::empty()
    } else {
        hex_fixed(n / 16, (width - 1) as nat).push(hex_digit((n % 16) as int))
    }
}

proof fn lemma_hex_fixed_ascii(n: nat, width: nat)
    ensures
        hex_fixed(n, width).len() == width,
        forall|i: int|
            0 <= i < width ==> (#[trigger] hex_fixed(n, width)[i] as u32) < 128,
    decreases width,
{
    if width > 0 {
        lemma_hex_fixed_ascii(n / 16, (width - 1) as nat);
    }
}

/// The hex digit character of a value below 16.
pub fn hex_digit_char(n: u8) -> (c: char)
    requires
        n < 16,
    ensures
        c == hex_digit(n as int),
{
    if n < 10 {
        (48 + n) as char
    } else {
        (87 + n) as char
    }
}

/// Appends `value` as exactly 16 lowercase hex digits (`format!("{:016x}")`).
pub fn push_hex_u64(text: &mut String, value: u64)
    ensures
        final(text)@ == old(text)@ + hex_fixed(value as nat, 16),
{
    let mut digits: Vec<char> = Vec::new();
    let mut rest: u64 = value;
    let mut i: usize = 0;
    while i < 16
        invariant
            i <= 16,
            hex_fixed(value as nat, 16) == hex_fixed(rest as nat, (16 - i) as nat) + digits@,
        decreases 16 - i,
    {
        let d = (rest % 16) as u8;
        let c = hex_digit_char(d);
        proof {
            let w = (16 - i) as nat;
            assert(hex_fixed(rest as nat, w) == hex_fixed((rest / 16) as nat, (w - 1) as nat).push(
                c,
            ));
            assert(hex_fixed((rest / 16) as nat, (w - 1) as nat).push(c) + digits@ =~= hex_fixed(
                (rest / 16) as nat,
                (w - 1) as nat,
            ) + seq![c].add(digits@));
        }
        digits.insert(0, c);
        rest = rest / 16;
        i = i + 1;
    }
    proof {
        assert(hex_fixed(rest as nat, 0) + digits@ =~= digits@);
    }
    push_chars(text, digits.as_slice());
}

/// Appends every byte of `bytes` as two lowercase hex digits (`format!("{:x}")` of a digest).
pub open spec fn hex_bytes(bytes: Seq<u8>) -> Seq<char>
    decreases bytes.len(),
{
    if bytes.len() == 0 {
        Seq::empty()
    } else {
        hex_bytes(bytes.drop_last()) + hex_fixed(bytes.last() as nat, 2)
    }
}

/// Appends `bytes` in lowercase hex, two digits per byte.
pub fn push_hex_bytes(text: &mut String, bytes: &[u8])
    ensures
        final(text)@ == old(text)@ + hex_bytes(bytes@),
{
    let ghost start = text@;
    let mut i: usize = 0;
    while i < bytes.len()
        invariant
            i <= bytes.len(),
            text@ == start + hex_bytes(bytes@.take(i as int)),
        decreases bytes.len() - i,
    {
        let b = bytes[i];
        let high = hex_digit_char(b / 16);
        let low = hex_digit_char(b % 16);
        proof {
            let t = bytes@.take(i + 1);
            assert(t.drop_last() =~= bytes@.take(i as int));
            assert(t.last() == b);
            assert(hex_fixed(b as nat, 2) =~= seq![high, low]) by {
                let hn = (b as nat) / 16;
                assert(hn < 16);
                assert(hn % 16 == hn);
                assert(hn / 16 == 0);
                assert(hex_fixed(b as nat, 2) == hex_fixed(hn, 1).push(hex_digit((b % 16) as int)));
                assert(hex_fixed(hn, 1) == hex_fixed(hn / 16, 0).push(hex_digit((hn % 16) as int)));
                assert(hex_fixed(hn / 16, 0) =~= Seq::<char>::empty());
            }
        }
        push_char(text, high);
        push_char(text, low);
        i = i + 1;
    }
    proof {
        assert(bytes@.take(bytes.len() as int) =~= bytes@);
    }
}

/// The hash a fresh `std::hash::DefaultHasher` gives a text.
pub uninterp spec fn std_default_hash(value: Seq<char>) -> u64;

/// Hashes `value` with a fresh `std::hash::DefaultHasher`. Every hasher
/// made by `DefaultHasher::new` starts from the same fixed keys, so one text
/// always gives the same hash; which number that is, the standard library
/// leaves unspecified, so it is only named (`std_default_hash`).
#[verifier::external_body]
pub(crate) fn default_hash(value: &str) -> (hash: u64)
    ensures
        hash == std_default_hash(value@),
{
    let mut hasher = std::hash::DefaultHasher::new();
    value.hash(&mut hasher);
    hasher.finish()
}

/// An identifier whose UTF-8 length exceeds the limit keeps this many leading bytes.
pub const IDENTIFIER_PREFIX_BYTES: usize = 239;

/// The bounded form of an identifier given the hash of its full text.
pub open spec fn bounded_identifier_text(value: Seq<char>, hash: u64) -> Seq<char> {
    if utf8(value).len() <= MAX_IDENTIFIER_BYTES {
        value
    } else {
        bounded_chars(value, IDENTIFIER_PREFIX_BYTES as int) + seq!['#'] + hex_fixed(
            hash as nat,
            16,
        )
    }
}

/// Bounds an identifier to `MAX_IDENTIFIER_BYTES`: short ones are kept, long
/// ones keep their first 239 bytes followed by `#` and the 16-digit `hash`.
pub fn bounded_identifier_with_hash(value: String, hash: u64) -> (result: String)
    ensures
        result@ == bounded_identifier_text(value@, hash),
        utf8(result@).len() <= MAX_IDENTIFIER_BYTES,
{
    let text = value.as_str();
    let length = text.as_bytes().len();
    proof {
        assert(text.spec_bytes() == utf8(value@));
    }
    if length <= MAX_IDENTIFIER_BYTES {
        return value;
    }
    let mut result = bounded_to(value, IDENTIFIER_PREFIX_BYTES);
    let ghost prefix = result@;
    push_char(&mut result, '#');
    push_hex_u64(&mut result, hash);
    proof {
        lemma_hex_fixed_ascii(hash as nat, 16);
        let tail = seq!['#'] + hex_fixed(hash as nat, 16);
        assert(forall|i: int| 0 <= i < tail.len() ==> (#[trigger] tail[i] as u32) < 128) by {
            assert forall|i: int| 0 <= i < tail.len() implies (#[trigger] tail[i] as u32) < 128 by {
                if i > 0 {
                    assert(tail[i] == hex_fixed(hash as nat, 16)[i - 1]);
                } else {
                    assert(tail[i] == '#');
                }
            }
        }
        lemma_utf8_ascii_len(tail);
        assert(result@ =~= prefix + tail);
        lemma_utf8_concat(prefix, tail);
    }
    result
}

/// Bounds an identifier, hashing long ones with the standard library's default hasher.
pub fn bounded_identifier(value: String) -> (result: String)
    ensures
        result@ == bounded_identifier_text(value@, std_default_hash(value@)),
        utf8(result@).len() <= MAX_IDENTIFIER_BYTES,
{
    let hash = default_hash(value.as_str());
    bounded_identifier_with_hash(value, hash)
}

/// Whether `values` holds a text equal to `value`.
pub fn text_list_contains(values: &Vec<String>, value: &str) -> (found: bool)
    ensures
        found == texts(values@).contains(value@),
{
    let mut i: usize = 0;
    while i < values.len()
        invariant
            i <= values@.len(),
            forall|a: int| 0 <= a < i ==> texts(values@)[a] != value@,
        decreases values.len() - i,
    {
        if str_equals(values[i].as_str(), value) {
            proof {
                assert(texts(values@)[i as int] == value@);
            }
            return true;
        }
        i = i + 1;
    }
    false
}

/// Whether two lists of texts hold the same texts in the same order.
pub fn texts_equal(a: &Vec<String>, b: &Vec<String>) -> (equal: bool)
    ensures
        equal == (texts(a@) == texts(b@)),
{
    if a.len() != b.len() {
        proof {
            assert(texts(a@).len() != texts(b@).len());
        }
        return false;
    }
    let mut i: usize = 0;
    while i < a.len()
        invariant
            i <= a@.len(),
            a@.len() == b@.len(),
            forall|j: int| 0 <= j < i ==> texts(a@)[j] == texts(b@)[j],
        decreases a.len() - i,
    {
        if !str_equals(a[i].as_str(), b[i].as_str()) {
            proof {
                assert(texts(a@)[i as int] != texts(b@)[i as int]);
            }
            return false;
        }
        i = i + 1;
    }
    proof {
        assert(texts(a@) =~= texts(b@));
    }
    true
}

} // verus!
