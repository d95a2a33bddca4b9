//! Decimal numbers as text: writing them, reading them back, and what can be
//! wrong with a text that should hold one.

use vstd::prelude::*;
use crate::text::chars_of;

verus! {

/// Why a text holds no number of the wanted size.
#[derive(Clone, Copy, Debug, PartialEq, Eq, Structural)]
pub enum IntError {
    /// There is nothing to read.
    Empty,
    /// A character is not a decimal digit.
    InvalidDigit,
    /// The number is too large.
    TooLarge,
}

impl IntError {
    /// What went wrong, in words.
    pub open spec fn text(self) -> Seq<char> {
        match self {
            IntError::Empty => "cannot parse integer from empty string"@,
            IntError::InvalidDigit => "invalid digit found in string"@,
            IntError::TooLarge => "number too large to fit in target type"@,
        }
    }

    /// What went wrong, in words.
    pub fn message(self) -> (res: &'static str)
        ensures
            res@ == self.text(),
    {
        match self {
            IntError::Empty => "cannot parse integer from empty string",
            IntError::InvalidDigit => "invalid digit found in string",
            IntError::TooLarge => "number too large to fit in target type",
        }
    }
}

/// A decimal digit.
pub open spec fn is_digit(c: char) -> bool {
    '0' <= c <= '9'
}

/// The value of a decimal digit.
pub open spec fn digit_value(c: char) -> nat {
    (c as int - '0' as int) as nat
}

/// The character that stands for a value below ten.
pub open spec fn digit_char(value: nat) -> char {
    ('0' as int + value) as char
}

/// The number that a run of digits denotes.
pub open spec fn digits_value(s: Seq<char>) -> nat
    decreases s.len(),
{
    if s.len() == 0 {
        0
    } else {
        digits_value(s.drop_last()) * 10 + digit_value(s.last())
    }
}

/// The digits of a number, most significant first and without leading zeros.
pub open spec fn decimal(n: nat) -> Seq<char>
    decreases n,
{
    if n < 10 {
        seq![digit_char(n)]
    } else {
        decimal(n / 10).push(digit_char(n % 10))
    }
}

/// Reading digits from the left: the first character that is no digit, or that
/// makes the number larger than `max`, decides the error.
pub open spec fn read_digits(s: Seq<char>, max: nat) -> Result<nat, IntError>
    decreases s.len(),
{
    if s.len() == 0 {
        Ok(0)
    } else {
        match read_digits(s.drop_last(), max) {
            Err(error) => Err(error),
            Ok(_) => if !is_digit(s.last()) {
                Err(IntError::InvalidDigit)
            } else if digits_value(s) > max {
                Err(IntError::TooLarge)
            } else {
                Ok(digits_value(s))
            },
        }
    }
}

/// The number that a text denotes: digits, at least one of them, with at most
/// one plus sign in front.
pub open spec fn read_number(s: Seq<char>, max: nat) -> Result<nat, IntError> {
    if s.len() == 0 {
        Err(IntError::Empty)
    } else if s[0] == '+' && s.len() > 1 {
        read_digits(s.drop_first(), max)
    } else {
        read_digits(s, max)
    }
}

/// Reading succeeds exactly on runs of digits that denote a number within the
/// bound, and gives that number.
pub proof fn law_read_digits(s: Seq<char>, max: nat)
    ensures
        read_digits(s, max) is Ok <==> (forall|i: int| 0 <= i < s.len() ==> is_digit(#[trigger] s[i]))
            && digits_value(s) <= max,
        read_digits(s, max) matches Ok(n) ==> n == digits_value(s),
    decreases s.len(),
{
    if s.len() > 0 {
        let shorter = s.drop_last();
        law_read_digits(shorter, max);
        if forall|i: int| 0 <= i < s.len() ==> is_digit(#[trigger] s[i]) {
            assert forall|i: int| 0 <= i < shorter.len() implies is_digit(#[trigger] shorter[i]) by {
                assert(shorter[i] == s[i]);
            }
            assert(is_digit(s[s.len() - 1]));
        }
        if forall|i: int| 0 <= i < shorter.len() ==> is_digit(#[trigger] shorter[i]) {
            if is_digit(s.last()) {
                assert forall|i: int| 0 <= i < s.len() implies is_digit(#[trigger] s[i]) by {
                    if i < shorter.len() {
                        assert(shorter[i] == s[i]);
                    }
                }
            }
        }
        assert(digits_value(shorter) <= digits_value(s));
    }
}

proof fn lemma_digit_char(value: nat)
    requires
        value < 10,
    ensures
        is_digit(digit_char(value)),
        digit_value(digit_char(value)) == value,
        digit_char(value) != '+',
        digit_char(value) != '-',
        digit_char(value) != '.',
{
}

/// A number's digits are digits, there is at least one, and they denote the
/// number.
pub proof fn lemma_decimal(n: nat)
    ensures
        decimal(n).len() > 0,
        digits_value(decimal(n)) == n,
        forall|i: int| 0 <= i < decimal(n).len() ==> is_digit(#[trigger] decimal(n)[i]),
    decreases n,
{
    if n < 10 {
        lemma_digit_char(n);
        assert(decimal(n).drop_last() =~= Seq::<char>::empty());
        assert(digits_value(Seq::<char>::empty()) == 0);
    } else {
        lemma_decimal(n / 10);
        lemma_digit_char(n % 10);
        let all = decimal(n);
        assert(all.drop_last() =~= decimal(n / 10));
        assert forall|i: int| 0 <= i < all.len() implies is_digit(#[trigger] all[i]) by {
            if i < decimal(n / 10).len() {
                assert(all[i] == decimal(n / 10)[i]);
            }
        }
    }
}

/// Reading a number that was written gives the number back.
pub proof fn law_decimal_reads_back(n: nat, max: nat)
    requires
        n <= max,
    ensures
        read_number(decimal(n), max) == Ok::<nat, IntError>(n),
{
    lemma_decimal(n);
    law_read_digits(decimal(n), max);
    assert(is_digit(decimal(n)[0]));
}

/// Reads a number of at most `max`.
pub fn parse_number(text: &str, max: u64) -> (res: Result<u64, IntError>)
    ensures
        match (res, read_number(text@, max as nat)) {
            (Ok(n), Ok(m)) => n == m,
            (Err(e), Err(f)) => e == f,
            _ => false,
        },
{
    let chars = chars_of(text);
    if chars.len() == 0 {
        return Err(IntError::Empty);
    }
    let start: usize = if chars[0] == '+' && chars.len() > 1 {
        1
    } else {
        0
    };
    let ghost body = text@.skip(start as int);
    proof {
        if start == 1 {
            assert(body =~= text@.drop_first());
        } else {
            assert(body =~= text@);
        }
    }
    let mut value: u64 = 0;
    let mut i: usize = start;
    while i < chars.len()
        invariant
            start <= i <= chars.len(),
            chars@ == text@,
            body == text@.skip(start as int),
            read_number(text@, max as nat) == read_digits(body, max as nat),
            read_digits(body.take(i - start), max as nat) == Ok::<nat, IntError>(value as nat),
            value == digits_value(body.take(i - start)),
            value <= max,
        decreases chars.len() - i,
    {
        let c = chars[i];
        let ghost seen = body.take(i - start + 1);
        proof {
            assert(seen.drop_last() =~= body.take(i - start));
            assert(seen.last() == c);
        }
        if !('0' <= c && c <= '9') {
            proof {
                lemma_error_stays(body, i - start + 1, max as nat);
            }
            return Err(IntError::InvalidDigit);
        }
        let wide: u128 = value as u128 * 10 + (c as u8 - 48) as u128;
        assert(wide == digits_value(seen));
        if wide > max as u128 {
            proof {
                lemma_error_stays(body, i - start + 1, max as nat);
            }
            return Err(IntError::TooLarge);
        }
        value = wide as u64;
        i = i + 1;
    }
    assert(body.take(i - start) =~= body);
    Ok(value)
}

proof fn lemma_error_stays(s: Seq<char>, n: int, max: nat)
    requires
        0 <= n <= s.len(),
        read_digits(s.take(n), max) is Err,
    ensures
        read_digits(s, max) == read_digits(s.take(n), max),
    decreases s.len(),
{
    if n < s.len() {
        let shorter = s.drop_last();
        assert(shorter.take(n) =~= s.take(n));
        lemma_error_stays(shorter, n, max);
    } else {
        assert(s.take(n) =~= s);
    }
}

/// Writes a number in decimal.
pub fn decimal_text(n: u128) -> (res: String)
    ensures
        res@ == decimal(n as nat),
    decreases n,
{
    let mut res = if n < 10 {
        String::new()
    } else {
        decimal_text(n / 10)
    };
    let digit: u8 = (n % 10) as u8 + 48;
    res.push(digit as char);
    proof {
        if n < 10 {
            assert(res@ =~= decimal(n as nat));
        }
    }
    res
}

/// Appends a number in decimal to a string.
pub fn append_number(target: &mut String, n: u64)
    ensures
        final(target)@ == old(target)@ + decimal(n as nat),
{
    let digits = decimal_text(n as u128);
    target.append(digits.as_str());
}

/// A text is read as a number exactly if it is one or more digits, with a plus
/// sign in front or without, and the number that they denote is not too large.
pub proof fn law_read_number(s: Seq<char>, max: nat, n: nat)
    ensures
        read_number(s, max) == Ok::<nat, IntError>(n) <==> exists|digits: Seq<char>|
            {
                &&& s == digits || s == seq!['+'] + digits
                &&& digits.len() > 0
                &&& forall|i: int| 0 <= i < digits.len() ==> is_digit(#[trigger] digits[i])
                &&& #[trigger] digits_value(digits) == n
                &&& n <= max
            },
        read_number(s, max) == Err::<nat, IntError>(IntError::Empty) <==> s.len() == 0,
{
    law_read_digits(s, max);
    if s.len() > 0 {
        let rest = s.drop_first();
        law_read_digits(rest, max);
        assert(s =~= seq![s[0]] + rest);
        if read_number(s, max) == Ok::<nat, IntError>(n) {
            let digits = if s[0] == '+' && s.len() > 1 {
                rest
            } else {
                s
            };
            assert(digits_value(digits) == n);
        }
        lemma_read_is_not_empty(s, max);
        lemma_read_is_not_empty(rest, max);
    }
    assert forall|digits: Seq<char>|
        {
            &&& s == digits || s == seq!['+'] + digits
            &&& digits.len() > 0
            &&& forall|i: int| 0 <= i < digits.len() ==> is_digit(#[trigger] digits[i])
            &&& #[trigger] digits_value(digits) == n
            &&& n <= max
        } implies read_number(s, max) == Ok::<nat, IntError>(n) by {
        law_read_digits(digits, max);
        assert(is_digit(digits[0]));
        if s == seq!['+'] + digits {
            assert(s[0] == '+');
            assert(s.drop_first() =~= digits);
        }
    }
}

proof fn lemma_read_is_not_empty(s: Seq<char>, max: nat)
    ensures
        read_digits(s, max) != Err::<nat, IntError>(IntError::Empty),
    decreases s.len(),
{
    if s.len() > 0 {
        lemma_read_is_not_empty(s.drop_last(), max);
    }
}

/// A digit at the end of a number counts for itself, and makes what stands before
/// it count tenfold.
pub proof fn law_digits_count_tenfold(s: Seq<char>, digit: nat)
    requires
        digit < 10,
    ensures
        digits_value(s.push(digit_char(digit))) == digits_value(s) * 10 + digit,
        digits_value(Seq::<char>::empty()) == 0,
        digit_char(digit) as int == '0' as int + digit,
{
    lemma_digit_char(digit);
    assert(s.push(digit_char(digit)).drop_last() =~= s);
}

} // verus!
