//! Numbers as text: decimal and hexadecimal digits, written and read.

use vstd::prelude::*;

use crate::text;

verus! {

/// The decimal digit of value `d`.
pub open spec fn digit_char(d: int) -> char {
    ('0' as int + d) as char
}

/// `n` in decimal, without leading zeros.
pub open spec fn decimal(n: nat) -> Seq<char>
    decreases n,
{
    if n < 10 {
        seq![digit_char(n as int)]
    } else {
        decimal(n / 10).push(digit_char((n % 10) as int))
    }
}

/// The hexadecimal digit of value `d`, in lower case.
pub open spec fn hex_char(d: int) -> char {
    if d < 10 {
        ('0' as int + d) as char
    } else {
        ('a' as int + d - 10) as char
    }
}

/// `n` in lower case hexadecimal, without leading zeros.
pub open spec fn hex(n: nat) -> Seq<char>
    decreases n,
{
    if n < 16 {
        seq![hex_char(n as int)]
    } else {
        hex(n / 16).push(hex_char((n % 16) as int))
    }
}

/// The lowest `width` hexadecimal digits of `n`, in lower case and with
/// leading zeros.
pub open spec fn hex_padded(n: nat, width: nat) -> Seq<char>
    decreases width,
{
    if width == 0 {
        Seq::empty()
    } else {
        hex_padded(n / 16, (width - 1) as nat).push(hex_char((n % 16) as int))
    }
}

/// `n` in decimal.
pub fn format_decimal(n: u128) -> (out: String)
    ensures
        out@ == decimal(n as nat),
    decreases n,
{
    let last = (48u8 + (n % 10) as u8) as char;
    if n < 10 {
        let mut out: String = String::new();
        out.push(last);
        proof {
            assert(out@ =~= seq![digit_char(n as int)]);
        }
        out
    } else {
        let mut out = format_decimal(n / 10);
        out.push(last);
        out
    }
}

/// The lower case hexadecimal digit of value `d`.
fn hex_digit(d: u8) -> (c: char)
    requires
        d < 16,
    ensures
        c == hex_char(d as int),
{
    if d < 10 {
        (48u8 + d) as char
    } else {
        (97u8 + (d - 10)) as char
    }
}

/// `n` in lower case hexadecimal.
pub fn format_hex(n: u64) -> (out: String)
    ensures
        out@ == hex(n as nat),
    decreases n,
{
    let last = hex_digit((n % 16) as u8);
    if n < 16 {
        let mut out: String = String::new();
        out.push(last);
        proof {
            assert(out@ =~= seq![hex_char(n as int)]);
        }
        out
    } else {
        let mut out = format_hex(n / 16);
        out.push(last);
        out
    }
}

/// The lowest `width` hexadecimal digits of `n`, with leading zeros.
pub fn format_hex_padded(n: u64, width: usize) -> (out: String)
    ensures
        out@ == hex_padded(n as nat, width as nat),
    decreases width,
{
    if width == 0 {
        String::new()
    } else {
        let mut out = format_hex_padded(n / 16, width - 1);
        out.push(hex_digit((n % 16) as u8));
        out
    }
}

/// Why text is not an unsigned number.
#[derive(Clone, Copy, Debug, PartialEq, Eq, Structural)]
pub enum NumberError {
    /// There is no text at all.
    Empty,
    /// A character that is no decimal digit comes first.
    InvalidDigit,
    /// The digits pass the largest value first.
    TooLarge,
}

impl NumberError {
    /// What `describe` says.
    pub open spec fn description(self) -> Seq<char> {
        match self {
            NumberError::Empty => "cannot parse integer from empty string"@,
            NumberError::InvalidDigit => "invalid digit found in string"@,
            NumberError::TooLarge => "number too large to fit in target type"@,
        }
    }

    /// One line for people.
    pub fn describe(&self) -> (out: String)
        ensures
            out@ == self.description(),
    {
        match self {
            NumberError::Empty => "cannot parse integer from empty string".to_owned(),
            NumberError::InvalidDigit => "invalid digit found in string".to_owned(),
            NumberError::TooLarge => "number too large to fit in target type".to_owned(),
        }
    }
}

/// The value of the digits `s`, read from the left, as long as it stays
/// below 2^64. The first offending character decides the error.
pub open spec fn digits_value(s: Seq<char>) -> Result<nat, NumberError>
    decreases s.len(),
{
    if s.len() == 0 {
        Ok(0)
    } else {
        match digits_value(s.drop_last()) {
            Err(e) => Err(e),
            Ok(v) => if !text::is_digit(s.last()) {
                Err(NumberError::InvalidDigit)
            } else if v * 10 + (s.last() as int - '0' as int) > u64::MAX {
                Err(NumberError::TooLarge)
            } else {
                Ok((v * 10 + (s.last() as int - '0' as int)) as nat)
            },
        }
    }
}

/// An unsigned 64-bit number in text: decimal digits, after an optional `+`.
pub open spec fn number_value(s: Seq<char>) -> Result<nat, NumberError> {
    if s.len() == 0 {
        Err(NumberError::Empty)
    } else if s[0] == '+' {
        if s.len() == 1 {
            Err(NumberError::InvalidDigit)
        } else {
            digits_value(s.drop_first())
        }
    } else {
        digits_value(s)
    }
}

/// The value of the digits `chars[from..]`.
fn parse_digits(chars: &Vec<char>, from: usize) -> (r: Result<u64, NumberError>)
    requires
        from <= chars@.len(),
    ensures
        match digits_value(chars@.subrange(from as int, chars@.len() as int)) {
            Ok(v) => r == Ok::<u64, NumberError>(v as u64) && v <= u64::MAX,
            Err(e) => r == Err::<u64, NumberError>(e),
        },
{
    let ghost all = chars@.subrange(from as int, chars@.len() as int);
    let mut value: u64 = 0;
    let mut i: usize = from;
    while i < chars.len()
        invariant
            from <= i <= chars@.len(),
            all == chars@.subrange(from as int, chars@.len() as int),
            digits_value(all.take(i - from)) == Ok::<nat, NumberError>(value as nat),
        decreases chars@.len() - i,
    {
        let c = chars[i];
        proof {
            let t = all.take(i - from + 1);
            assert(t.drop_last() =~= all.take(i - from));
            assert(t.last() == c);
            if digits_value(t) is Err {
                lemma_error_stays(all, i - from + 1);
            }
        }
        if !text::digit(c) {
            return Err(NumberError::InvalidDigit);
        }
        let d: u64 = (c as u8 - 48u8) as u64;
        if value > (u64::MAX - d) / 10 {
            return Err(NumberError::TooLarge);
        }
        value = value * 10 + d;
        i = i + 1;
    }
    proof {
        assert(all.take(all.len() as int) =~= all);
    }
    Ok(value)
}

/// Once a prefix of the digits is in error, the whole is, and in the same.
proof fn lemma_error_stays(s: Seq<char>, n: int)
    requires
        0 <= n <= s.len(),
        digits_value(s.take(n)) is Err,
    ensures
        digits_value(s) == digits_value(s.take(n)),
    decreases s.len(),
{
    if n == s.len() {
        assert(s.take(n) =~= s);
    } else {
        assert(s.drop_last().take(n) =~= s.take(n));
        lemma_error_stays(s.drop_last(), n);
    }
}

/// Read an unsigned 64-bit number.
pub fn parse_number(value: &str) -> (r: Result<u64, NumberError>)
    ensures
        match number_value(value@) {
            Ok(v) => r == Ok::<u64, NumberError>(v as u64) && v <= u64::MAX,
            Err(e) => r == Err::<u64, NumberError>(e),
        },
{
    let chars = text::chars_of(value);
    if chars.len() == 0 {
        return Err(NumberError::Empty);
    }
    if chars[0] == '+' {
        if chars.len() == 1 {
            return Err(NumberError::InvalidDigit);
        }
        proof {
            assert(chars@.subrange(1, chars@.len() as int) =~= chars@.drop_first());
        }
        parse_digits(&chars, 1)
    } else {
        proof {
            assert(chars@.subrange(0, chars@.len() as int) =~= chars@);
        }
        parse_digits(&chars, 0)
    }
}

/// Decimal text holds digits only, at least one, and reads back as the
/// number it was written from.
pub proof fn lemma_decimal_reads_back(n: nat)
    requires
        n <= u64::MAX,
    ensures
        decimal(n).len() > 0,
        forall|i: int| 0 <= i < decimal(n).len() ==> text::is_digit(#[trigger] decimal(n)[i]),
        digits_value(decimal(n)) == Ok::<nat, NumberError>(n),
        number_value(decimal(n)) == Ok::<nat, NumberError>(n),
    decreases n,
{
    if n < 10 {
        let s = decimal(n);
        assert(s.drop_last() =~= Seq::<char>::empty());
        assert(digits_value(s.drop_last()) == Ok::<nat, NumberError>(0));
    } else {
        lemma_decimal_reads_back(n / 10);
        let s = decimal(n);
        assert(s.drop_last() =~= decimal(n / 10));
        assert forall|i: int| 0 <= i < s.len() implies text::is_digit(#[trigger] s[i]) by {
            if i < s.len() - 1 {
                assert(s[i] == decimal(n / 10)[i]);
            }
        }
    }
    assert(text::is_digit(decimal(n)[0]));
}

/// Decimal by position: one digit below ten, and otherwise the digits of the
/// tenth part with the last digit behind them.
pub proof fn law_decimal_by_position(n: nat, d: nat)
    requires
        d < 10,
    ensures
        decimal(d) == seq!["0123456789"@[d as int]],
        n > 0 ==> decimal(10 * n + d) == decimal(n).push("0123456789"@[d as int]),
{
    reveal_strlit("0123456789");
    assert(digit_char(d as int) == "0123456789"@[d as int]);
    if n > 0 {
        assert((10 * n + d) / 10 == n && (10 * n + d) % 10 == d);
    }
}

/// Digits are read from the left, ten times what was read plus the next. A
/// character that is none, or a value of 2^64 or more, is the failure, and
/// the first one stays.
pub proof fn law_digits_by_position(s: Seq<char>, c: char, more: Seq<char>)
    ensures
        digits_value(Seq::empty()) == Ok::<nat, NumberError>(0),
        digits_value(s) matches Ok(v) ==> digits_value(s.push(c)) == if !('0' <= c && c <= '9') {
            Err::<nat, NumberError>(NumberError::InvalidDigit)
        } else if 10 * v + (c as int - '0' as int) >= 0x1_0000_0000_0000_0000 {
            Err(NumberError::TooLarge)
        } else {
            Ok((10 * v + (c as int - '0' as int)) as nat)
        },
        digits_value(s) matches Err(e) ==> digits_value(s + more) == Err::<nat, NumberError>(e),
{
    assert(s.push(c).drop_last() =~= s);
    if digits_value(s) is Err {
        assert((s + more).take(s.len() as int) =~= s);
        lemma_error_stays(s + more, s.len() as int);
    }
}

/// A number is its digits, with or without one `+` before them; no text and
/// a lone sign are failures.
pub proof fn law_number_is_its_digits(digits: Seq<char>)
    ensures
        digits.len() > 0 && digits[0] != '+' ==> number_value(digits) == digits_value(digits),
        digits.len() > 0 ==> number_value(seq!['+'] + digits) == digits_value(digits),
        number_value(seq!['+']) == Err::<nat, NumberError>(NumberError::InvalidDigit),
        number_value(Seq::empty()) == Err::<nat, NumberError>(NumberError::Empty),
{
    assert((seq!['+'] + digits).drop_first() =~= digits);
}

/// The value of hexadecimal digits in lower case.
pub open spec fn read_hex(s: Seq<char>) -> nat
    decreases s.len(),
{
    if s.len() == 0 {
        0
    } else {
        let c = s.last();
        let d = if '0' <= c && c <= '9' {
            c as int - '0' as int
        } else {
            c as int - 'a' as int + 10
        };
        (16 * read_hex(s.drop_last()) + d) as nat
    }
}

/// Hexadecimal text reads back as the number it was written from; padded
/// text has the width asked for and reads back where the number fits it.
pub proof fn law_hex_reads_back(n: nat, width: nat)
    ensures
        read_hex(hex(n)) == n,
        hex_padded(n, width).len() == width,
        n < vstd::arithmetic::power::pow(16, width) ==> read_hex(hex_padded(n, width)) == n,
    decreases n + width,
{
    if n < 16 {
        let s = hex(n);
        assert(s.drop_last() =~= Seq::<char>::empty());
        assert(read_hex(s.drop_last()) == 0);
    } else {
        law_hex_reads_back(n / 16, 0);
        assert(hex(n).drop_last() =~= hex(n / 16));
    }
    vstd::arithmetic::power::lemma_pow0(16);
    if width > 0 {
        let less = (width - 1) as nat;
        vstd::arithmetic::power::lemma_pow_adds(16, 1, less);
        vstd::arithmetic::power::lemma_pow1(16);
        law_hex_reads_back(n / 16, less);
        assert(hex_padded(n, width).drop_last() =~= hex_padded(n / 16, less));
        if n < vstd::arithmetic::power::pow(16, width) {
            assert(n / 16 < vstd::arithmetic::power::pow(16, less)) by {
                assert(n < 16 * vstd::arithmetic::power::pow(16, less));
            }
        }
    }
}

/// Why a text is no number, as people are told.
pub proof fn law_number_errors_by_reason()
    ensures
        NumberError::Empty.description() == "cannot parse integer from empty string"@,
        NumberError::InvalidDigit.description() == "invalid digit found in string"@,
        NumberError::TooLarge.description() == "number too large to fit in target type"@,
{
}

} // verus!
