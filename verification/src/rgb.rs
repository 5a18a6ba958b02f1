//! Colours as three 8-bit channels, and their text forms: the hex code
//! `#RRGGBB` (written and read back) and the `RGB: r, g, b` label.
use vstd::prelude::*;
use vstd::string::StringSliceAdditionalSpecFns;
use vstd::utf8::encode_utf8;
use crate::text::{decimal, push_char, push_decimal};

verus! {

/// A colour as three 8-bit channels.
#[derive(Clone, Copy, Debug, PartialEq, Eq, Structural)]
pub struct Rgb8 {
    pub red: u8,
    pub green: u8,
    pub blue: u8,
}

/// Why a hex colour code was refused.
#[derive(Clone, Copy, Debug, PartialEq, Eq, Structural)]
pub enum HexError {
    /// Without its leading `#`s, the code is not six bytes long.
    WrongLength,
    /// A channel is not a hex number.
    InvalidDigit,
}

impl HexError {
    /// The message shown for the error.
    pub fn message(&self) -> (m: &'static str)
        ensures
            m@ == (match self {
                HexError::WrongLength => "Hex string must be 6 characters long"@,
                HexError::InvalidDigit => "invalid digit found in string"@,
            }),
    {
        match self {
            HexError::WrongLength => "Hex string must be 6 characters long",
            HexError::InvalidDigit => "invalid digit found in string",
        }
    }
}

/// The byte of `#`.
pub open spec fn hash_byte() -> u8 {
    35
}

/// The byte of `+`.
pub open spec fn plus_byte() -> u8 {
    43
}

/// The bytes left once every leading `#` is taken off.
pub open spec fn trim_hashes(s: Seq<u8>) -> Seq<u8>
    decreases s.len(),
{
    if s.len() > 0 && s[0] == hash_byte() {
        trim_hashes(s.drop_first())
    } else {
        s
    }
}

/// The value of a hex digit (`0-9`, `a-f`, `A-F`), if the byte is one.
pub open spec fn hex_value(b: u8) -> Option<u8> {
    if 48 <= b <= 57 {
        Some((b - 48) as u8)
    } else if 65 <= b <= 70 {
        Some((b - 55) as u8)
    } else if 97 <= b <= 102 {
        Some((b - 87) as u8)
    } else {
        None
    }
}

/// The value of a two-byte channel, read as std reads a `u8` in base 16:
/// an optional `+` sign followed by hex digits only.
pub open spec fn channel_value(a: u8, b: u8) -> Option<u8> {
    if a == plus_byte() {
        hex_value(b)
    } else {
        match (hex_value(a), hex_value(b)) {
            (Some(x), Some(y)) => Some((16 * x + y) as u8),
            _ => None,
        }
    }
}

/// What reading the bytes of a hex colour code gives.
pub open spec fn hex_parse(s: Seq<u8>) -> Result<Rgb8, HexError> {
    let t = trim_hashes(s);
    if t.len() != 6 {
        Err(HexError::WrongLength)
    } else {
        match (channel_value(t[0], t[1]), channel_value(t[2], t[3]), channel_value(t[4], t[5])) {
            (Some(r), Some(g), Some(b)) => Ok(Rgb8 { red: r, green: g, blue: b }),
            _ => Err(HexError::InvalidDigit),
        }
    }
}

/// True for a byte that continues a UTF-8 sequence (one that no char starts with).
pub open spec fn is_continuation(b: u8) -> bool {
    128 <= b <= 191
}

/// The channels of a six-byte code are cut off one after the other: red at
/// byte 2, and, where red reads as a number, green at byte 4 (a code whose red
/// is refused is not cut further). Each cut that is made must fall between two
/// chars.
pub open spec fn channels_cut_between_chars(s: Seq<u8>) -> bool {
    let t = trim_hashes(s);
    t.len() == 6 ==> !is_continuation(t[2]) && (channel_value(t[0], t[1]) is Some
        ==> !is_continuation(t[4]))
}

/// Taking off one leading `#` more or less does not change the trimmed bytes.
proof fn lemma_trim_step(s: Seq<u8>, i: int)
    requires
        0 <= i < s.len(),
        s[i] == hash_byte(),
    ensures
        trim_hashes(s.subrange(i, s.len() as int)) == trim_hashes(s.subrange(i + 1, s.len() as int)),
{
    assert(s.subrange(i, s.len() as int).drop_first() =~= s.subrange(i + 1, s.len() as int));
}

fn hex_value_of(b: u8) -> (r: Option<u8>)
    ensures
        r == hex_value(b),
{
    if 48 <= b && b <= 57 {
        Some(b - 48)
    } else if 65 <= b && b <= 70 {
        Some(b - 55)
    } else if 97 <= b && b <= 102 {
        Some(b - 87)
    } else {
        None
    }
}

fn channel_value_of(a: u8, b: u8) -> (r: Option<u8>)
    ensures
        r == channel_value(a, b),
{
    if a == 43 {
        hex_value_of(b)
    } else {
        match (hex_value_of(a), hex_value_of(b)) {
            (Some(x), Some(y)) => Some(16 * x + y),
            _ => None,
        }
    }
}

/// Reads a hex colour code such as `#FF8000`: every leading `#` is dropped,
/// the rest must be six bytes, two for each of red, green and blue.
/// The caller turns the channels into fractions of 255 where it needs floats.
pub fn parse_hex_to_rgb(hex: &str) -> (r: Result<Rgb8, HexError>)
    requires
        channels_cut_between_chars(hex.spec_bytes()),
    ensures
        r == hex_parse(hex.spec_bytes()),
{
    let bytes = hex.as_bytes();
    let n = bytes.len();
    let mut i: usize = 0;
    assert(bytes@.subrange(0, n as int) =~= bytes@);
    while i < n && bytes[i] == 35
        invariant
            n == bytes@.len(),
            i <= n,
            trim_hashes(bytes@) == trim_hashes(bytes@.subrange(i as int, n as int)),
        decreases n - i,
    {
        proof {
            lemma_trim_step(bytes@, i as int);
        }
        i = i + 1;
    }
    let ghost t = bytes@.subrange(i as int, n as int);
    assert(trim_hashes(t) == t);
    if n - i != 6 {
        return Err(HexError::WrongLength);
    }
    let r = channel_value_of(bytes[i], bytes[i + 1]);
    let g = channel_value_of(bytes[i + 2], bytes[i + 3]);
    let b = channel_value_of(bytes[i + 4], bytes[i + 5]);
    assert(t[0] == bytes@[i as int] && t[1] == bytes@[i + 1] && t[2] == bytes@[i + 2]);
    assert(t[3] == bytes@[i + 3] && t[4] == bytes@[i + 4] && t[5] == bytes@[i + 5]);
    match (r, g, b) {
        (Some(r), Some(g), Some(b)) => Ok(Rgb8 { red: r, green: g, blue: b }),
        _ => Err(HexError::InvalidDigit),
    }
}

/// The upper-case hex digit of a value below 16.
pub open spec fn hex_char(d: int) -> char
    recommends
        0 <= d < 16,
{
    if d < 10 {
        (48 + d) as char
    } else {
        (55 + d) as char
    }
}

/// The two upper-case hex digits of a byte, as `{:02X}` writes it.
pub open spec fn hex_pair(n: u8) -> Seq<char> {
    seq![hex_char(n as int / 16), hex_char(n as int % 16)]
}

/// The hex code of a colour: `#` and two upper-case digits for each channel.
pub open spec fn hex_code_of(c: Rgb8) -> Seq<char> {
    seq!['#'] + hex_pair(c.red) + hex_pair(c.green) + hex_pair(c.blue)
}

fn hex_digit_char(d: u8) -> (c: char)
    requires
        d < 16,
    ensures
        c == hex_char(d as int),
{
    if d < 10 {
        (48u8 + d) as char
    } else {
        (55u8 + d) as char
    }
}

fn push_hex_pair(s: &mut String, n: u8)
    ensures
        final(s)@ == old(s)@ + hex_pair(n),
{
    let ghost start = s@;
    push_char(s, hex_digit_char(n / 16));
    push_char(s, hex_digit_char(n % 16));
    assert(s@ =~= start + hex_pair(n));
}

/// The hex code of a colour, such as `#FF8000`.
pub fn hex_code(c: Rgb8) -> (s: String)
    ensures
        s@ == hex_code_of(c),
{
    let mut s = String::new();
    push_char(&mut s, '#');
    push_hex_pair(&mut s, c.red);
    push_hex_pair(&mut s, c.green);
    push_hex_pair(&mut s, c.blue);
    assert(s@ =~= hex_code_of(c));
    s
}

/// The label of a colour's channels: `RGB: r, g, b` in decimal.
pub open spec fn rgb_label_of(c: Rgb8) -> Seq<char> {
    seq!['R', 'G', 'B', ':', ' '] + decimal(c.red) + seq![',', ' '] + decimal(c.green) + seq![
        ',',
        ' ',
    ] + decimal(c.blue)
}

/// The label of a colour's channels, such as `RGB: 255, 128, 0`.
pub fn rgb_label(c: Rgb8) -> (s: String)
    ensures
        s@ == rgb_label_of(c),
{
    let mut s = String::new();
    push_char(&mut s, 'R');
    push_char(&mut s, 'G');
    push_char(&mut s, 'B');
    push_char(&mut s, ':');
    push_char(&mut s, ' ');
    push_decimal(&mut s, c.red);
    push_char(&mut s, ',');
    push_char(&mut s, ' ');
    push_decimal(&mut s, c.green);
    push_char(&mut s, ',');
    push_char(&mut s, ' ');
    push_decimal(&mut s, c.blue);
    assert(s@ =~= rgb_label_of(c));
    s
}

/// The hex digit written for `d` is read back as `d`, and is no sign.
proof fn lemma_hex_char_read_back(d: int)
    requires
        0 <= d < 16,
    ensures
        (hex_char(d) as u8) as int == hex_char(d) as int,
        hex_value(hex_char(d) as u8) == Some(d as u8),
        hex_char(d) as u8 != plus_byte(),
        hex_char(d) as u8 != hash_byte(),
        (hex_char(d) as int) < 128,
{
}

/// A written pair of hex digits is read back as the byte it was written for.
proof fn lemma_hex_pair_read_back(n: u8)
    ensures
        channel_value(hex_pair(n)[0] as u8, hex_pair(n)[1] as u8) == Some(n),
{
    lemma_hex_char_read_back(n as int / 16);
    lemma_hex_char_read_back(n as int % 16);
}

/// Reading a written hex code gives back the colour that was written, and the
/// written code is one that reading accepts without a cut inside a char.
pub proof fn lemma_hex_code_round_trip(c: Rgb8)
    ensures
        channels_cut_between_chars(encode_utf8(hex_code_of(c))),
        hex_parse(encode_utf8(hex_code_of(c))) == Ok::<Rgb8, HexError>(c),
{
    let chars = hex_code_of(c);
    let bytes = encode_utf8(chars);
    lemma_hex_char_read_back(c.red as int / 16);
    lemma_hex_char_read_back(c.red as int % 16);
    lemma_hex_char_read_back(c.green as int / 16);
    lemma_hex_char_read_back(c.green as int % 16);
    lemma_hex_char_read_back(c.blue as int / 16);
    lemma_hex_char_read_back(c.blue as int % 16);
    assert(chars.len() == 7);
    assert(vstd::utf8::is_ascii_chars(chars));
    vstd::utf8::is_ascii_chars_encode_utf8(chars);
    assert(bytes.len() == 7);
    assert(bytes[0] == hash_byte());
    assert(bytes.drop_first()[0] == bytes[1]);
    assert(bytes[1] != hash_byte());
    reveal_with_fuel(trim_hashes, 2);
    assert(trim_hashes(bytes) == bytes.drop_first());
    lemma_hex_pair_read_back(c.red);
    lemma_hex_pair_read_back(c.green);
    lemma_hex_pair_read_back(c.blue);
}

/// A leading `#` more does not change what a code reads as, nor whether the
/// code is accepted.
pub proof fn lemma_leading_hash_ignored(s: Seq<u8>)
    ensures
        hex_parse(seq![hash_byte()] + s) == hex_parse(s),
        channels_cut_between_chars(seq![hash_byte()] + s) == channels_cut_between_chars(s),
{
    assert((seq![hash_byte()] + s).drop_first() =~= s);
}

/// The byte with an ASCII lower-case letter made upper-case.
pub open spec fn ascii_upper(b: u8) -> u8 {
    if 97 <= b <= 122 {
        (b - 32) as u8
    } else {
        b
    }
}

/// The bytes with every ASCII lower-case letter made upper-case.
pub open spec fn upper_bytes(s: Seq<u8>) -> Seq<u8> {
    s.map_values(|b: u8| ascii_upper(b))
}

proof fn lemma_trim_hashes_upper(s: Seq<u8>)
    ensures
        trim_hashes(upper_bytes(s)) == upper_bytes(trim_hashes(s)),
    decreases s.len(),
{
    if s.len() > 0 && s[0] == hash_byte() {
        assert(upper_bytes(s).drop_first() =~= upper_bytes(s.drop_first()));
        lemma_trim_hashes_upper(s.drop_first());
    } else if s.len() > 0 {
        assert(upper_bytes(s)[0] != hash_byte());
    }
}

/// Reading a code does not depend on the case of its letters.
pub proof fn lemma_case_does_not_matter(s: Seq<u8>)
    ensures
        hex_parse(upper_bytes(s)) == hex_parse(s),
        channels_cut_between_chars(upper_bytes(s)) == channels_cut_between_chars(s),
{
    lemma_trim_hashes_upper(s);
    let t = trim_hashes(s);
    let u = upper_bytes(t);
    if t.len() == 6 {
        assert(u[0] == ascii_upper(t[0]) && u[1] == ascii_upper(t[1]));
        assert(u[2] == ascii_upper(t[2]) && u[3] == ascii_upper(t[3]));
        assert(u[4] == ascii_upper(t[4]) && u[5] == ascii_upper(t[5]));
    }
}

/// The value of an upper-case hex digit character.
pub open spec fn hex_digit_value(ch: char) -> int {
    if ch <= '9' {
        ch as int - 48
    } else {
        ch as int - 55
    }
}

/// True for `0`-`9` and `A`-`F`.
pub open spec fn is_upper_hex_digit(ch: char) -> bool {
    ('0' <= ch <= '9') || ('A' <= ch <= 'F')
}

/// A written hex code is `#` and six upper-case hex digits, and each pair of
/// digits, read in base 16, is the channel it was written for.
pub proof fn lemma_hex_code_shape(c: Rgb8)
    ensures
        hex_code_of(c).len() == 7,
        hex_code_of(c)[0] == '#',
        forall|i: int| 1 <= i < 7 ==> is_upper_hex_digit(#[trigger] hex_code_of(c)[i]),
        16 * hex_digit_value(hex_code_of(c)[1]) + hex_digit_value(hex_code_of(c)[2]) == c.red,
        16 * hex_digit_value(hex_code_of(c)[3]) + hex_digit_value(hex_code_of(c)[4]) == c.green,
        16 * hex_digit_value(hex_code_of(c)[5]) + hex_digit_value(hex_code_of(c)[6]) == c.blue,
{
    let code = hex_code_of(c);
    assert(code[1] == hex_char(c.red as int / 16) && code[2] == hex_char(c.red as int % 16));
    assert(code[3] == hex_char(c.green as int / 16) && code[4] == hex_char(c.green as int % 16));
    assert(code[5] == hex_char(c.blue as int / 16) && code[6] == hex_char(c.blue as int % 16));
}

/// The number of leading `#`s of `s`, and the bytes after them are what trimming leaves.
proof fn lemma_leading_hashes(s: Seq<u8>) -> (k: int)
    ensures
        0 <= k <= s.len(),
        forall|i: int| 0 <= i < k ==> s[i] == hash_byte(),
        k == s.len() || s[k] != hash_byte(),
        trim_hashes(s) == s.subrange(k, s.len() as int),
    decreases s.len(),
{
    if s.len() > 0 && s[0] == hash_byte() {
        let k1 = lemma_leading_hashes(s.drop_first());
        assert forall|i: int| 0 <= i < k1 + 1 implies s[i] == hash_byte() by {
            if i > 0 {
                assert(s[i] == s.drop_first()[i - 1]);
            }
        }
        if k1 < s.drop_first().len() {
            assert(s[k1 + 1] == s.drop_first()[k1]);
        }
        assert(s.drop_first().subrange(k1, s.drop_first().len() as int) =~= s.subrange(
            k1 + 1,
            s.len() as int,
        ));
        k1 + 1
    } else {
        assert(s.subrange(0, s.len() as int) =~= s);
        0
    }
}

/// A code is accepted only where it is some `#`s followed by exactly six
/// bytes; a code that does not start with `#` and is not six bytes long is
/// refused for its length.
pub proof fn lemma_accepted_codes_have_six_bytes(s: Seq<u8>)
    ensures
        hex_parse(s) is Ok ==> exists|k: int|
            0 <= k && k + 6 == s.len() && (forall|i: int| 0 <= i < k ==> #[trigger] s[i] == 35u8)
                && s[k] != 35u8,
        (s.len() == 0 || s[0] != 35u8) && s.len() != 6 ==> hex_parse(s) == Err::<Rgb8, HexError>(
            HexError::WrongLength,
        ),
{
    let k = lemma_leading_hashes(s);
    if hex_parse(s) is Ok {
        assert(trim_hashes(s).len() == 6);
        assert(forall|i: int| 0 <= i < k ==> #[trigger] s[i] == 35u8);
    }
    if s.len() == 0 || s[0] != 35u8 {
        assert(k == 0);
        assert(s.subrange(0, s.len() as int) =~= s);
    }
}

/// An accepted code without a sign is the written code of the colour it
/// reads as, up to the case of its letters.
pub proof fn lemma_accepted_code_is_written_code(s: Seq<u8>, c: Rgb8)
    requires
        hex_parse(s) == Ok::<Rgb8, HexError>(c),
        forall|i: int| 0 <= i < trim_hashes(s).len() ==> #[trigger] trim_hashes(s)[i] != plus_byte(),
    ensures
        trim_hashes(s).len() == 6,
        forall|i: int| 0 <= i < 6 ==> ascii_upper(#[trigger] trim_hashes(s)[i]) == hex_code_of(c)[i
            + 1] as u8,
{
    let t = trim_hashes(s);
    assert(t[0] != plus_byte() && t[2] != plus_byte() && t[4] != plus_byte());
    lemma_hex_code_shape(c);
    let code = hex_code_of(c);
    assert(code[1] == hex_char(c.red as int / 16) && code[2] == hex_char(c.red as int % 16));
    assert(code[3] == hex_char(c.green as int / 16) && code[4] == hex_char(c.green as int % 16));
    assert(code[5] == hex_char(c.blue as int / 16) && code[6] == hex_char(c.blue as int % 16));
    assert forall|i: int| 0 <= i < 6 implies ascii_upper(#[trigger] t[i]) == code[i + 1] as u8 by {
        let j = if i % 2 == 0 { i } else { i - 1 };
        let x = hex_value(t[j]).unwrap() as int;
        let y = hex_value(t[j + 1]).unwrap() as int;
        assert(0 <= x < 16 && 0 <= y < 16);
        let n = 16 * x + y;
        assert(n / 16 == x && n % 16 == y);
    }
}

} // verus!
