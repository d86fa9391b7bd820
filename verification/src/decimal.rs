//! Decimal text: parsing unsigned integers the way `str::parse` does, and
//! rendering integers with zero padding the way `{:0N}` formatting does.

use vstd::prelude::*;

verus! {

/// Why a text is not an unsigned integer.
#[derive(Clone, Copy, Debug, PartialEq, Eq, Structural)]
pub enum IntErrorKind {
    /// The text is empty.
    Empty,
    /// The text holds a byte that is not a decimal digit where one is needed.
    InvalidDigit,
    /// The value is larger than the target type can hold.
    PosOverflow,
}

pub open spec fn is_digit_byte(b: u8) -> bool {
    48 <= b <= 57
}

/// Reads the digits of `d` left to right onto `acc`, failing on the first
/// byte that is not a digit or on the first prefix whose value exceeds `max`.
pub open spec fn spec_scan_digits(d: Seq<u8>, acc: int, max: int) -> Result<int, IntErrorKind>
    decreases d.len(),
{
    if d.len() == 0 {
        Ok(acc)
    } else if !is_digit_byte(d[0]) {
        Err(IntErrorKind::InvalidDigit)
    } else if acc * 10 + (d[0] - 48) > max {
        Err(IntErrorKind::PosOverflow)
    } else {
        spec_scan_digits(d.drop_first(), acc * 10 + (d[0] - 48), max)
    }
}

/// An optional `+` followed by decimal digits, whose value is at most `max`.
pub open spec fn spec_parse_uint(b: Seq<u8>, max: int) -> Result<int, IntErrorKind> {
    if b.len() == 0 {
        Err(IntErrorKind::Empty)
    } else if b.len() == 1 && (b[0] == 43 || b[0] == 45) {
        Err(IntErrorKind::InvalidDigit)
    } else if b[0] == 43 {
        spec_scan_digits(b.drop_first(), 0, max)
    } else {
        spec_scan_digits(b, 0, max)
    }
}

proof fn lemma_scan_bounded(d: Seq<u8>, acc: int, max: int)
    requires
        0 <= acc <= max,
    ensures
        spec_scan_digits(d, acc, max) matches Ok(v) ==> 0 <= v <= max,
    decreases d.len(),
{
    if d.len() > 0 && is_digit_byte(d[0]) && acc * 10 + (d[0] - 48) <= max {
        lemma_scan_bounded(d.drop_first(), acc * 10 + (d[0] - 48), max);
    }
}

/// A parsed value lies between zero and the bound.
pub proof fn lemma_parse_bounded(b: Seq<u8>, max: int)
    requires
        max >= 0,
    ensures
        spec_parse_uint(b, max) matches Ok(v) ==> 0 <= v <= max,
{
    if b.len() > 0 && b[0] == 43 {
        lemma_scan_bounded(b.drop_first(), 0, max);
    } else {
        lemma_scan_bounded(b, 0, max);
    }
}

/// Parses `bytes[start..end]` as an unsigned integer bounded by `max`.
pub fn parse_uint(bytes: &[u8], start: usize, end: usize, max: u64) -> (r: Result<u64, IntErrorKind>)
    requires
        start <= end <= bytes@.len(),
    ensures
        r matches Ok(v) ==> spec_parse_uint(bytes@.subrange(start as int, end as int), max as int) == Ok::<int, IntErrorKind>(v as int),
        r matches Err(e) ==> spec_parse_uint(bytes@.subrange(start as int, end as int), max as int) == Err::<int, IntErrorKind>(e),
{
    let ghost b = bytes@.subrange(start as int, end as int);
    if start == end {
        return Err(IntErrorKind::Empty);
    }
    let first = bytes[start];
    if end - start == 1 && (first == 43 || first == 45) {
        return Err(IntErrorKind::InvalidDigit);
    }
    let mut i = if first == 43 { start + 1 } else { start };
    assert(bytes@.subrange(i as int, end as int) =~= (if first == 43 { b.drop_first() } else { b }));
    let mut acc: u64 = 0;
    while i < end
        invariant
            start <= i <= end <= bytes@.len(),
            acc <= max,
            b == bytes@.subrange(start as int, end as int),
            spec_parse_uint(b, max as int) == spec_scan_digits(bytes@.subrange(i as int, end as int), acc as int, max as int),
        decreases end - i,
    {
        let c = bytes[i];
        let ghost rest = bytes@.subrange(i as int, end as int);
        assert(rest.len() > 0 && rest[0] == c);
        if c < 48 || c > 57 {
            assert(!is_digit_byte(rest[0]));
            assert(spec_scan_digits(rest, acc as int, max as int) == Err::<int, IntErrorKind>(IntErrorKind::InvalidDigit));
            return Err(IntErrorKind::InvalidDigit);
        }
        let next: u128 = (acc as u128) * 10 + ((c - 48) as u128);
        if next > max as u128 {
            assert(spec_scan_digits(rest, acc as int, max as int) == Err::<int, IntErrorKind>(IntErrorKind::PosOverflow));
            return Err(IntErrorKind::PosOverflow);
        }
        acc = next as u64;
        assert(rest.drop_first() =~= bytes@.subrange(i + 1, end as int));
        i = i + 1;
    }
    Ok(acc)
}


/// The character of a decimal digit.
pub open spec fn digit_char(d: int) -> char {
    (d + 48) as char
}

/// The decimal digits of `n`, without leading zeros.
pub open spec fn spec_decimal(n: nat) -> Seq<char>
    decreases n,
{
    if n < 10 {
        seq![digit_char(n as int)]
    } else {
        spec_decimal(n / 10).push(digit_char((n % 10) as int))
    }
}

/// `s` preceded by as many `0` as it takes to reach `width` characters.
pub open spec fn zero_pad(s: Seq<char>, width: nat) -> Seq<char> {
    if s.len() >= width {
        s
    } else {
        Seq::new((width - s.len()) as nat, |i: int| '0') + s
    }
}

/// `n` as `format!("{:0width$}", n)` writes it: the sign counts towards the
/// width and the zeros go after it.
pub open spec fn spec_signed_padded(n: int, width: nat) -> Seq<char> {
    if n < 0 {
        seq!['-'] + zero_pad(spec_decimal((-n) as nat), if width >= 1 { (width - 1) as nat } else { 0 })
    } else {
        zero_pad(spec_decimal(n as nat), width)
    }
}

/// Calls `String::push`.
#[verifier::external_body]
pub(crate) fn push_char(s: &mut String, c: char)
    ensures
        final(s)@ == old(s)@.push(c),
{
    s.push(c);
}

fn digit(d: u64) -> (c: char)
    requires
        d < 10,
    ensures
        c == digit_char(d as int),
{
    let b: u8 = 48 + (d as u8);
    b as char
}

/// Appends the decimal digits of `n` to `s`.
pub fn push_decimal(s: &mut String, n: u64)
    ensures
        final(s)@ == old(s)@ + spec_decimal(n as nat),
    decreases n,
{
    if n >= 10 {
        push_decimal(s, n / 10);
    }
    push_char(s, digit(n % 10));
    assert(final(s)@ =~= old(s)@ + spec_decimal(n as nat)) by {
        if n >= 10 {
            assert(spec_decimal(n as nat) == spec_decimal((n / 10) as nat).push(digit_char((n % 10) as int)));
        }
    }
}

fn decimal_len(n: u64) -> (r: usize)
    ensures
        r == spec_decimal(n as nat).len(),
        r <= 20,
    decreases n,
{
    proof {
        reveal_with_fuel(pow10, 21);
        assert(pow10(20) == 100000000000000000000);
        lemma_decimal_len_le(n as nat, 20);
    }
    if n < 10 {
        1
    } else {
        decimal_len(n / 10) + 1
    }
}

/// Ten to the power `k`.
pub open spec fn pow10(k: nat) -> nat
    decreases k,
{
    if k == 0 { 1 } else { 10 * pow10((k - 1) as nat) }
}

proof fn lemma_decimal_len_le(n: nat, k: nat)
    requires
        k >= 1,
        n < pow10(k),
    ensures
        spec_decimal(n).len() <= k,
    decreases k,
{
    if n >= 10 {
        if k == 1 {
            reveal_with_fuel(pow10, 2);
            assert(pow10(1) == 10);
        } else {
            let p = pow10((k - 1) as nat);
            assert(n / 10 < p) by (nonlinear_arith)
                requires n < 10 * p;
            lemma_decimal_len_le(n / 10, (k - 1) as nat);
        }
    }
}

/// Appends `n` to `s` as `format!("{:0width$}", n)` writes it.
pub fn push_padded(s: &mut String, n: u64, width: usize)
    ensures
        final(s)@ == old(s)@ + zero_pad(spec_decimal(n as nat), width as nat),
{
    let len = decimal_len(n);
    let ghost start = s@;
    if len < width {
        let mut k: usize = 0;
        while k < width - len
            invariant
                len < width,
                k <= width - len,
                s@ == start + Seq::new(k as nat, |i: int| '0'),
            decreases width - len - k,
        {
            push_char(s, '0');
            assert(s@ =~= start + Seq::new((k + 1) as nat, |i: int| '0'));
            k = k + 1;
        }
    }
    push_decimal(s, n);
    assert(s@ =~= start + zero_pad(spec_decimal(n as nat), width as nat));
}

/// Appends `n` to `s` as `format!("{:0width$}", n)` writes it.
pub fn push_signed_padded(s: &mut String, n: i64, width: usize)
    ensures
        final(s)@ == old(s)@ + spec_signed_padded(n as int, width as nat),
{
    let ghost start = s@;
    if n < 0 {
        push_char(s, '-');
        let m: u64 = if n == i64::MIN { 9223372036854775808u64 } else { (-n) as u64 };
        let w = if width >= 1 { width - 1 } else { 0 };
        push_padded(s, m, w);
        assert(s@ =~= start + spec_signed_padded(n as int, width as nat));
    } else {
        push_padded(s, n as u64, width);
    }
}

} // verus!
