//! Decimal numbers as text.

use crate::text;
use vstd::prelude::*;

verus! {

/// Why a text is not a number of the wanted type.
#[derive(Clone, Copy, Debug, PartialEq, Eq, Structural)]
pub enum NumberError {
    Empty,
    InvalidDigit,
    TooLarge,
    TooSmall,
}

impl NumberError {
    pub open spec fn wording(self) -> Seq<char> {
        match self {
            NumberError::Empty => "cannot parse integer from empty string"@,
            NumberError::InvalidDigit => "invalid digit found in string"@,
            NumberError::TooLarge => "number too large to fit in target type"@,
            NumberError::TooSmall => "number too small to fit in target type"@,
        }
    }

    pub fn message(self) -> (r: String)
        ensures
            r@ == self.wording(),
    {
        match self {
            NumberError::Empty => "cannot parse integer from empty string".to_owned(),
            NumberError::InvalidDigit => "invalid digit found in string".to_owned(),
            NumberError::TooLarge => "number too large to fit in target type".to_owned(),
            NumberError::TooSmall => "number too small to fit in target type".to_owned(),
        }
    }
}

pub open spec fn is_digit(c: char) -> bool {
    '0' <= c <= '9'
}

pub open spec fn digit_value(c: char) -> nat {
    (c as u8 - '0' as u8) as nat
}

pub open spec fn digit_char(n: nat) -> char {
    ('0' as u8 + n) as char
}

/// The decimal digits of a number, without leading zeros.
pub open spec fn decimal(n: nat) -> Seq<char>
    decreases n,
{
    if n < 10 {
        seq![digit_char(n)]
    } else {
        decimal(n / 10).push(digit_char(n % 10))
    }
}

/// Reads digits from the left onto `acc`. The first character that is no digit, or that takes the
/// number over `max`, ends the reading.
pub open spec fn digits_value(s: Seq<char>, acc: nat, max: nat) -> Result<nat, NumberError>
    decreases s.len(),
{
    if s.len() == 0 {
        Ok(acc)
    } else if !is_digit(s[0]) {
        Err(NumberError::InvalidDigit)
    } else if acc * 10 + digit_value(s[0]) > max {
        Err(NumberError::TooLarge)
    } else {
        digits_value(s.skip(1), acc * 10 + digit_value(s[0]), max)
    }
}

/// The number of at most `max` that a text stands for: digits, with a `+` in front or not.
pub open spec fn unsigned_value(s: Seq<char>, max: nat) -> Result<nat, NumberError> {
    if s.len() == 0 {
        Err(NumberError::Empty)
    } else if s[0] == '+' {
        if s.len() == 1 {
            Err(NumberError::InvalidDigit)
        } else {
            digits_value(s.skip(1), 0, max)
        }
    } else {
        digits_value(s, 0, max)
    }
}

/// The 64-bit number that a text stands for: digits, with a sign in front or not.
pub open spec fn signed_value(s: Seq<char>) -> Result<int, NumberError> {
    if s.len() > 0 && s[0] == '-' {
        if s.len() == 1 {
            Err(NumberError::InvalidDigit)
        } else {
            match digits_value(s.skip(1), 0, 0x8000_0000_0000_0000) {
                Ok(n) => Ok(-(n as int)),
                Err(NumberError::TooLarge) => Err(NumberError::TooSmall),
                Err(e) => Err(e),
            }
        }
    } else {
        match unsigned_value(s, 0x7fff_ffff_ffff_ffff) {
            Ok(n) => Ok(n as int),
            Err(e) => Err(e),
        }
    }
}

pub proof fn lemma_decimal_nonempty(n: nat)
    ensures
        decimal(n).len() > 0,
        forall|i: int| 0 <= i < decimal(n).len() ==> is_digit(#[trigger] decimal(n)[i]),
    decreases n,
{
    if n >= 10 {
        lemma_decimal_nonempty(n / 10);
    }
}

proof fn lemma_digits_split(a: Seq<char>, c: char, acc: nat, max: nat)
    ensures
        digits_value(a.push(c), acc, max) == match digits_value(a, acc, max) {
            Ok(n) => digits_value(seq![c], n, max),
            Err(e) => Err(e),
        },
    decreases a.len(),
{
    if a.len() == 0 {
        assert(a.push(c) =~= seq![c]);
    } else {
        assert(a.push(c).skip(1) =~= a.skip(1).push(c));
        if is_digit(a[0]) && acc * 10 + digit_value(a[0]) <= max {
            lemma_digits_split(a.skip(1), c, acc * 10 + digit_value(a[0]), max);
        }
    }
}

proof fn lemma_decimal_digits(n: nat, max: nat)
    requires
        n <= max,
    ensures
        digits_value(decimal(n), 0, max) == Ok::<nat, NumberError>(n),
    decreases n,
{
    reveal_with_fuel(digits_value, 2);
    if n >= 10 {
        lemma_decimal_digits(n / 10, max);
        let c = digit_char(n % 10);
        lemma_digits_split(decimal(n / 10), c, 0, max);
        assert(digit_value(c) == n % 10);
        assert(seq![c].skip(1) =~= Seq::<char>::empty());
    } else {
        assert(digit_value(digit_char(n)) == n);
        assert(seq![digit_char(n)].skip(1) =~= Seq::<char>::empty());
    }
}

/// A number written out is read back as the same number.
pub proof fn law_decimal_round_trip(n: nat, max: nat)
    requires
        n <= max,
    ensures
        unsigned_value(decimal(n), max) == Ok::<nat, NumberError>(n),
{
    lemma_decimal_nonempty(n);
    lemma_decimal_digits(n, max);
    assert(is_digit(decimal(n)[0]));
}

/// Digits that are read are worth no more than what was allowed.
proof fn lemma_digits_at_most(s: Seq<char>, acc: nat, max: nat)
    requires
        acc <= max,
    ensures
        digits_value(s, acc, max) matches Ok(n) ==> n <= max,
    decreases s.len(),
{
    if s.len() > 0 && is_digit(s[0]) && acc * 10 + digit_value(s[0]) <= max {
        lemma_digits_at_most(s.skip(1), acc * 10 + digit_value(s[0]), max);
    }
}

/// A number that is read is no greater than what was allowed.
pub proof fn lemma_unsigned_at_most(s: Seq<char>, max: nat)
    ensures
        unsigned_value(s, max) matches Ok(n) ==> n <= max,
{
    lemma_digits_at_most(s, 0, max);
    if s.len() > 0 {
        lemma_digits_at_most(s.skip(1), 0, max);
    }
}

/// A number in decimal digits.
pub fn write(n: u64) -> (r: String)
    ensures
        r@ == decimal(n as nat),
    decreases n,
{
    if n < 10 {
        let mut r = String::new();
        r.push((48 + n as u8) as char);
        assert(r@ =~= decimal(n as nat));
        r
    } else {
        let mut r = write(n / 10);
        r.push((48 + (n % 10) as u8) as char);
        r
    }
}

/// The text of a signed number.
pub open spec fn signed_decimal(n: int) -> Seq<char> {
    if n < 0 {
        seq!['-'] + decimal((-n) as nat)
    } else {
        decimal(n as nat)
    }
}

/// Writes a signed number out.
pub fn write_signed(n: i64) -> (r: String)
    ensures
        r@ == signed_decimal(n as int),
{
    if n < 0 {
        let size: u64 = (-(n as i128)) as u64;
        let digits = write(size);
        let mut r = String::new();
        r.push('-');
        assert(r@ =~= seq!['-']);
        r.append(&digits);
        r
    } else {
        write(n as u64)
    }
}

fn read_digits(v: &Vec<char>, start: usize, max: u64) -> (r: Result<u64, NumberError>)
    requires
        start <= v@.len(),
    ensures
        match (r, digits_value(v@.skip(start as int), 0, max as nat)) {
            (Ok(a), Ok(b)) => a == b,
            (Err(a), Err(b)) => a == b,
            _ => false,
        },
        r matches Ok(n) ==> n <= max,
{
    let n: usize = v.len();
    let mut acc: u64 = 0;
    let mut i: usize = start;
    while i < n
        invariant
            start <= i <= n == v@.len(),
            acc <= max,
            digits_value(v@.skip(start as int), 0, max as nat) == digits_value(
                v@.skip(i as int),
                acc as nat,
                max as nat,
            ),
        decreases n - i,
    {
        let c = v[i];
        assert(v@.skip(i as int).skip(1) =~= v@.skip(i + 1));
        if !('0' <= c && c <= '9') {
            return Err(NumberError::InvalidDigit);
        }
        let next: u128 = acc as u128 * 10 + (c as u8 - 48) as u128;
        if next > max as u128 {
            return Err(NumberError::TooLarge);
        }
        acc = next as u64;
        i = i + 1;
    }
    Ok(acc)
}

/// `str::parse` for an unsigned type whose largest value is `max`.
pub fn read_unsigned(s: &str, max: u64) -> (r: Result<u64, NumberError>)
    ensures
        match (r, unsigned_value(s@, max as nat)) {
            (Ok(a), Ok(b)) => a == b,
            (Err(a), Err(b)) => a == b,
            _ => false,
        },
        r matches Ok(n) ==> n <= max,
{
    let v = text::chars(s);
    if v.len() == 0 {
        return Err(NumberError::Empty);
    }
    assert(v@.skip(0) =~= v@);
    if v[0] == '+' {
        if v.len() == 1 {
            return Err(NumberError::InvalidDigit);
        }
        read_digits(&v, 1, max)
    } else {
        read_digits(&v, 0, max)
    }
}

/// `str::parse` for `i64`.
pub fn read_signed(s: &str) -> (r: Result<i64, NumberError>)
    ensures
        match (r, signed_value(s@)) {
            (Ok(a), Ok(b)) => a == b,
            (Err(a), Err(b)) => a == b,
            _ => false,
        },
{
    let v = text::chars(s);
    if v.len() > 0 && v[0] == '-' {
        if v.len() == 1 {
            return Err(NumberError::InvalidDigit);
        }
        match read_digits(&v, 1, 0x8000_0000_0000_0000) {
            Ok(n) => Ok((-(n as i128)) as i64),
            Err(NumberError::TooLarge) => Err(NumberError::TooSmall),
            Err(e) => Err(e),
        }
    } else {
        match read_unsigned(s, 0x7fff_ffff_ffff_ffff) {
            Ok(n) => Ok(n as i64),
            Err(e) => Err(e),
        }
    }
}

/// A number in digits does not begin with a sign, and with a zero only if it is zero.
pub proof fn lemma_decimal_leads(n: nat)
    ensures
        decimal(n).len() > 0,
        is_digit(decimal(n)[0]),
        decimal(n).len() > 1 ==> decimal(n)[0] != '0',
    decreases n,
{
    if n >= 10 {
        lemma_decimal_leads(n / 10);
        if n / 10 < 10 {
            assert(1 <= n / 10 <= 9);
            assert(decimal(n / 10)[0] == digit_char(n / 10));
        } else {
            lemma_decimal_leads(n / 10 / 10);
            assert(decimal(n / 10) == decimal(n / 10 / 10).push(digit_char(n / 10 % 10)));
        }
    }
}

/// A number is written digit by digit: its last digit behind the rest of it.
pub proof fn law_decimal_digits(n: nat, d: nat)
    requires
        d < 10,
    ensures
        n > 0 ==> decimal(10 * n + d) == decimal(n).push(digit_char(d)),
        decimal(d) == seq![digit_char(d)],
        digit_char(0) == '0' && digit_char(1) == '1' && digit_char(2) == '2' && digit_char(3) == '3',
        digit_char(4) == '4' && digit_char(5) == '5' && digit_char(6) == '6' && digit_char(7) == '7',
        digit_char(8) == '8' && digit_char(9) == '9',
{
    if n > 0 {
        assert((10 * n + d) / 10 == n);
        assert((10 * n + d) % 10 == d);
    }
}

/// A negative number is written behind a minus sign, and is read as what was written.
pub proof fn law_signed_round_trip(n: int)
    requires
        -0x8000_0000_0000_0000 <= n <= 0x7fff_ffff_ffff_ffff,
    ensures
        n < 0 ==> signed_decimal(n) == seq!['-'] + decimal((-n) as nat),
        n >= 0 ==> signed_decimal(n) == decimal(n as nat),
        signed_value(signed_decimal(n)) == Ok::<int, NumberError>(n),
{
    if n < 0 {
        let m = (-n) as nat;
        law_decimal_round_trip(m, 0x8000_0000_0000_0000);
        lemma_decimal_leads(m);
        let s = signed_decimal(n);
        assert(s.skip(1) =~= decimal(m));
        assert(s[0] == '-');
        assert(decimal(m)[0] != '+');
    } else {
        law_decimal_round_trip(n as nat, 0x7fff_ffff_ffff_ffff);
        lemma_decimal_leads(n as nat);
        assert(decimal(n as nat)[0] != '-');
    }
}

/// What is no number is not read as one: nothing, a text with a character that is no digit in front, and a
/// number above the limit.
pub proof fn law_no_number(s: Seq<char>, n: nat, max: nat)
    requires
        n > max,
    ensures
        unsigned_value(decimal(n), max) == Err::<nat, NumberError>(NumberError::TooLarge),
        unsigned_value(Seq::empty(), max) == Err::<nat, NumberError>(NumberError::Empty),
        s.len() > 0 && s[0] != '+' && !('0' <= s[0] <= '9') ==> unsigned_value(s, max) == Err::<
            nat,
            NumberError,
        >(NumberError::InvalidDigit),
        signed_value(Seq::empty()) is Err,
        unsigned_value(seq!['+'], max) is Err,
{
    lemma_decimal_too_large(n, max);
    lemma_decimal_leads(n);
    assert(decimal(n)[0] != '+');
}

proof fn lemma_decimal_too_large(n: nat, max: nat)
    requires
        n > max,
    ensures
        digits_value(decimal(n), 0, max) == Err::<nat, NumberError>(NumberError::TooLarge),
    decreases n,
{
    reveal_with_fuel(digits_value, 2);
    let c = digit_char(n % 10);
    assert(digit_value(c) == n % 10);
    assert(is_digit(c));
    if n >= 10 {
        lemma_digits_split(decimal(n / 10), c, 0, max);
        if n / 10 > max {
            lemma_decimal_too_large(n / 10, max);
        } else {
            lemma_decimal_digits(n / 10, max);
        }
    }
}

} // verus!
