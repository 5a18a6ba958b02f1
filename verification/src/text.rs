//! Building text on plain values: decimal numbers and single characters.
use vstd::prelude::*;

verus! {

/// `String::push` of std: its documentation says that it appends the given
/// `char` to the end of the string. This contract states exactly that.
#[verifier::external_body]
pub(crate) fn push_char(s: &mut String, c: char)
    ensures
        final(s)@ == old(s)@.push(c),
{
    s.push(c);
}

/// The character of a decimal digit.
pub open spec fn decimal_char(d: int) -> char
    recommends
        0 <= d < 10,
{
    (48 + d) as char
}

/// The decimal digits of `n`, without leading zeros, as `{}` writes a `u8`.
pub open spec fn decimal(n: u8) -> Seq<char> {
    if n < 10 {
        seq![decimal_char(n as int)]
    } else if n < 100 {
        seq![decimal_char(n as int / 10), decimal_char(n as int % 10)]
    } else {
        seq![decimal_char(n as int / 100), decimal_char((n as int / 10) % 10), decimal_char(n as int % 10)]
    }
}

/// The character of a decimal digit.
pub(crate) fn digit_char(d: u8) -> (c: char)
    requires
        d < 10,
    ensures
        c == decimal_char(d as int),
{
    (48u8 + d) as char
}

/// Appends the decimal form of `n` to `s`.
pub(crate) fn push_decimal(s: &mut String, n: u8)
    ensures
        final(s)@ == old(s)@ + decimal(n),
{
    let ghost start = s@;
    if n < 10 {
        push_char(s, digit_char(n));
    } else if n < 100 {
        push_char(s, digit_char(n / 10));
        push_char(s, digit_char(n % 10));
    } else {
        push_char(s, digit_char(n / 100));
        push_char(s, digit_char((n / 10) % 10));
        push_char(s, digit_char(n % 10));
    }
    assert(s@ =~= start + decimal(n));
}

/// The value of a decimal digit character.
pub open spec fn digit_value(c: char) -> int {
    c as int - 48
}

/// The number that a string of decimal digits reads as, most significant first.
pub open spec fn read_decimal(s: Seq<char>) -> int
    decreases s.len(),
{
    if s.len() == 0 {
        0
    } else {
        10 * read_decimal(s.drop_last()) + digit_value(s.last())
    }
}

/// The decimal form of a byte reads back as the byte: one to three digits
/// `0`-`9`, with no leading zero.
pub proof fn lemma_decimal_reads_back(n: u8)
    ensures
        1 <= decimal(n).len() <= 3,
        forall|i: int| 0 <= i < decimal(n).len() ==> '0' <= #[trigger] decimal(n)[i] <= '9',
        decimal(n).len() > 1 ==> decimal(n)[0] != '0',
        read_decimal(decimal(n)) == n,
{
    let d = decimal(n);
    reveal_with_fuel(read_decimal, 4);
    if n < 10 {
        assert(d.drop_last() =~= Seq::<char>::empty());
    } else if n < 100 {
        assert(d.drop_last() =~= seq![d[0]]);
        assert(d.drop_last().drop_last() =~= Seq::<char>::empty());
    } else {
        assert(d.drop_last() =~= seq![d[0], d[1]]);
        assert(d.drop_last().drop_last() =~= seq![d[0]]);
        assert(d.drop_last().drop_last().drop_last() =~= Seq::<char>::empty());
    }
}

} // verus!
