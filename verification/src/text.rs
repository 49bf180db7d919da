//! Decimal numbers in text.

use vstd::prelude::*;
use vstd::string::*;

verus! {

/// Why a text is not a decimal number within the limit asked for.
#[derive(Clone, Copy, Debug, PartialEq, Eq, Structural)]
pub enum NumberError {
    /// The text is empty.
    Empty,
    /// A character is not a decimal digit, or a sign stands alone.
    InvalidDigit,
    /// The digits are a number above the limit.
    TooLarge,
}

/// A decimal digit, `0` to `9`.
pub open spec fn is_digit(c: char) -> bool {
    '0' <= c && c <= '9'
}

/// The number that a decimal digit stands for.
pub open spec fn digit_value(c: char) -> nat {
    (c as u32 - '0' as u32) as nat
}

/// Every character is a decimal digit.
pub open spec fn all_digits(s: Seq<char>) -> bool {
    forall|i: int| 0 <= i < s.len() ==> is_digit(#[trigger] s[i])
}

/// The number that a sequence of decimal digits writes, most significant first.
pub open spec fn digits_value(s: Seq<char>) -> nat
    decreases s.len(),
{
    if s.len() == 0 {
        0
    } else {
        digits_value(s.drop_last()) * 10 + digit_value(s.last())
    }
}

/// The text without one leading plus sign.
pub open spec fn unsigned_part(s: Seq<char>) -> Seq<char> {
    if s.len() > 0 && s[0] == '+' {
        s.subrange(1, s.len() as int)
    } else {
        s
    }
}

/// The first `k` characters of `s` are digits, and the next one, if there is
/// one, is not.
pub open spec fn digits_end_at(s: Seq<char>, k: int) -> bool {
    &&& 0 <= k <= s.len()
    &&& forall|i: int| 0 <= i < k ==> is_digit(#[trigger] s[i])
    &&& k < s.len() ==> !is_digit(s[k])
}

/// The digits in front of the first character that is not a digit.
pub open spec fn leading_digits(s: Seq<char>) -> Seq<char> {
    s.subrange(0, choose|k: int| digits_end_at(s, k))
}

/// What a text means as a decimal number no greater than `max`: an optional
/// plus sign, then one digit or more, and nothing else. The text is read from
/// the left, and the first fault decides: digits that are a number above the
/// limit come before a character that is no digit, where they stand in front
/// of it.
pub open spec fn decimal_of(s: Seq<char>, max: nat) -> Result<nat, NumberError> {
    let digits = unsigned_part(s);
    if s.len() == 0 {
        Err(NumberError::Empty)
    } else if digits.len() == 0 {
        Err(NumberError::InvalidDigit)
    } else if digits_value(leading_digits(digits)) > max {
        Err(NumberError::TooLarge)
    } else if leading_digits(digits).len() < digits.len() {
        Err(NumberError::InvalidDigit)
    } else {
        Ok(digits_value(digits))
    }
}

proof fn lemma_digits_value_monotone(s: Seq<char>, k: int)
    requires
        0 <= k <= s.len(),
    ensures
        digits_value(s.subrange(0, k)) <= digits_value(s),
    decreases s.len() - k,
{
    if k == s.len() {
        assert(s.subrange(0, k) =~= s);
    } else {
        lemma_digits_value_monotone(s, k + 1);
        let t = s.subrange(0, k + 1);
        assert(t.drop_last() =~= s.subrange(0, k));
    }
}

/// The digits in front end at one place only.
pub proof fn lemma_leading_digits(s: Seq<char>, k: int)
    requires
        digits_end_at(s, k),
    ensures
        leading_digits(s) == s.subrange(0, k),
{
    let chosen = choose|k: int| digits_end_at(s, k);
    if chosen < k {
        assert(is_digit(s[chosen]));
    } else if k < chosen {
        assert(is_digit(s[k]));
    }
}

/// Reads `s` as a decimal number no greater than `max`.
pub fn parse_decimal(s: &str, max: u64) -> (r: Result<u64, NumberError>)
    ensures
        match r {
            Ok(v) => decimal_of(s@, max as nat) == Ok::<nat, NumberError>(v as nat),
            Err(e) => decimal_of(s@, max as nat) == Err::<nat, NumberError>(e),
        },
{
    let n: usize = s.unicode_len();
    if n == 0 {
        return Err(NumberError::Empty);
    }
    let start: usize = if s.get_char(0) == '+' { 1 } else { 0 };
    let ghost digits = unsigned_part(s@);
    assert(digits =~= s@.subrange(start as int, n as int));
    if start == n {
        return Err(NumberError::InvalidDigit);
    }
    let mut value: u64 = 0;
    let mut k: usize = start;
    while k < n
        invariant
            start <= k <= n,
            n == s@.len(),
            start < n,
            digits == unsigned_part(s@),
            digits == s@.subrange(start as int, n as int),
            forall|j: int| 0 <= j < k - start ==> is_digit(#[trigger] digits[j]),
            value <= max,
            value == digits_value(digits.subrange(0, k - start)),
        decreases n - k,
    {
        let c: char = s.get_char(k);
        if !(c >= '0' && c <= '9') {
            proof {
                assert(!is_digit(digits[k - start]));
                lemma_leading_digits(digits, k - start);
            }
            return Err(NumberError::InvalidDigit);
        }
        assert(is_digit(digits[k - start]));
        let d: u64 = (c as u32 - '0' as u32) as u64;
        proof {
            let t = digits.subrange(0, k - start + 1);
            assert(t.drop_last() =~= digits.subrange(0, k - start));
            assert(t.last() == c);
            assert(digits_value(t) == value * 10 + d);
        }
        if d > max || value > (max - d) / 10 {
            proof {
                assert(value * 10 + d > max) by (nonlinear_arith)
                    requires
                        d > max || value > (max - d) / 10,
                        0 <= value,
                ;
                let end = choose|end: int| digits_end_at(digits, end);
                lemma_digits_end(digits);
                if end <= k - start {
                    assert(is_digit(digits[end]));
                }
                let front = leading_digits(digits);
                lemma_digits_value_monotone(front, k - start + 1);
                assert(front.subrange(0, k - start + 1) =~= digits.subrange(0, k - start + 1));
            }
            return Err(NumberError::TooLarge);
        }
        assert(value * 10 + d <= max) by (nonlinear_arith)
            requires
                value <= (max - d) / 10,
                d <= max,
        ;
        value = value * 10 + d;
        k = k + 1;
    }
    proof {
        lemma_leading_digits(digits, n - start);
        assert(digits.subrange(0, n - start) =~= digits);
    }
    Ok(value)
}

/// A number that is read keeps to the limit.
pub proof fn lemma_decimal_within(s: Seq<char>, max: nat)
    ensures
        decimal_of(s, max) matches Ok(value) ==> value <= max,
{
    let digits = unsigned_part(s);
    lemma_digits_end(digits);
    if decimal_of(s, max) is Ok {
        assert(leading_digits(digits) =~= digits);
    }
}

/// In every text the digits in front end somewhere.
pub proof fn lemma_digits_end(s: Seq<char>)
    ensures
        digits_end_at(s, choose|k: int| digits_end_at(s, k)),
    decreases s.len(),
{
    if s.len() == 0 {
        assert(digits_end_at(s, 0));
    } else if !is_digit(s[0]) {
        assert(digits_end_at(s, 0));
    } else {
        let rest = s.drop_first();
        lemma_digits_end(rest);
        let k = choose|k: int| digits_end_at(rest, k);
        assert forall|i: int| 0 <= i < k + 1 implies is_digit(#[trigger] s[i]) by {
            if i > 0 {
                assert(s[i] == rest[i - 1]);
            }
        }
        if k + 1 < s.len() {
            assert(s[k + 1] == rest[k]);
        }
        assert(digits_end_at(s, k + 1));
    }
}

/// The decimal digit for a number below ten.
pub open spec fn digit_char(d: nat) -> char {
    if d == 0 {
        '0'
    } else if d == 1 {
        '1'
    } else if d == 2 {
        '2'
    } else if d == 3 {
        '3'
    } else if d == 4 {
        '4'
    } else if d == 5 {
        '5'
    } else if d == 6 {
        '6'
    } else if d == 7 {
        '7'
    } else if d == 8 {
        '8'
    } else {
        '9'
    }
}

/// A number written in decimal, without leading zeros.
pub open spec fn decimal(n: nat) -> Seq<char>
    decreases n,
{
    if n < 10 {
        seq![digit_char(n)]
    } else {
        decimal(n / 10).push(digit_char(n % 10))
    }
}

/// A digit written and read again is the same digit.
pub proof fn lemma_digit_reads_back(d: nat)
    requires
        d < 10,
    ensures
        is_digit(digit_char(d)),
        digit_value(digit_char(d)) == d,
{
}

/// A number written in decimal and read again is the same number: what
/// `decimal` writes is digits only, at least one, and `decimal_of` reads it
/// as the number under any limit that the number keeps.
pub proof fn lemma_decimal_reads_back(n: nat, max: nat)
    ensures
        decimal(n).len() >= 1,
        all_digits(decimal(n)),
        digits_value(decimal(n)) == n,
        n <= max ==> decimal_of(decimal(n), max) == Ok::<nat, NumberError>(n),
    decreases n,
{
    let text = decimal(n);
    if n < 10 {
        lemma_digit_reads_back(n);
        assert(text.drop_last() =~= Seq::<char>::empty());
        assert(digits_value(text.drop_last()) == 0);
    } else {
        lemma_decimal_reads_back(n / 10, max);
        lemma_digit_reads_back(n % 10);
        assert(text.drop_last() =~= decimal(n / 10));
        assert(text.last() == digit_char(n % 10));
    }
    assert(is_digit(text[0]));
    assert(unsigned_part(text) == text);
    assert(digits_end_at(text, text.len() as int));
    lemma_leading_digits(text, text.len() as int);
    assert(text.subrange(0, text.len() as int) =~= text);
}

/// The text of one decimal digit.
fn digit_text(d: u64) -> (r: &'static str)
    requires
        d < 10,
    ensures
        r@ == seq![digit_char(d as nat)],
{
    proof {
        reveal_strlit("0");
        reveal_strlit("1");
        reveal_strlit("2");
        reveal_strlit("3");
        reveal_strlit("4");
        reveal_strlit("5");
        reveal_strlit("6");
        reveal_strlit("7");
        reveal_strlit("8");
        reveal_strlit("9");
    }
    let r: &'static str = if d == 0 {
        "0"
    } else if d == 1 {
        "1"
    } else if d == 2 {
        "2"
    } else if d == 3 {
        "3"
    } else if d == 4 {
        "4"
    } else if d == 5 {
        "5"
    } else if d == 6 {
        "6"
    } else if d == 7 {
        "7"
    } else if d == 8 {
        "8"
    } else {
        "9"
    };
    assert(r@ =~= seq![digit_char(d as nat)]);
    r
}

/// Appends `n` in decimal to `out`.
pub fn append_decimal(out: &mut String, n: u64)
    ensures
        final(out)@ == old(out)@ + decimal(n as nat),
    decreases n,
{
    if n >= 10 {
        append_decimal(out, n / 10);
        out.append(digit_text(n % 10));
        assert(out@ =~= old(out)@ + decimal(n as nat));
    } else {
        out.append(digit_text(n));
    }
}

/// Three decimal digits for a number below 1000, with zeros in front.
pub open spec fn three_digits(n: nat) -> Seq<char> {
    seq![digit_char(n / 100 % 10), digit_char(n / 10 % 10), digit_char(n % 10)]
}

/// Milliseconds written as seconds with three decimals: `1234` is `1.234`.
pub open spec fn seconds_text(millis: nat) -> Seq<char> {
    decimal(millis / 1000) + "."@ + three_digits(millis % 1000)
}

/// Appends `millis` to `out`, written as seconds with three decimals.
pub fn append_seconds(out: &mut String, millis: u64)
    ensures
        final(out)@ == old(out)@ + seconds_text(millis as nat),
{
    let rest: u64 = millis % 1000;
    append_decimal(out, millis / 1000);
    out.append(".");
    out.append(digit_text(rest / 100 % 10));
    out.append(digit_text(rest / 10 % 10));
    out.append(digit_text(rest % 10));
    assert(out@ =~= old(out)@ + seconds_text(millis as nat));
}

/// Whether `s` begins with `prefix`.
pub fn starts_with(s: &str, prefix: &str) -> (r: bool)
    ensures
        r == prefix@.is_prefix_of(s@),
{
    let n: usize = s.unicode_len();
    let m: usize = prefix.unicode_len();
    if m > n {
        return false;
    }
    let mut i: usize = 0;
    while i < m
        invariant
            i <= m <= n,
            n == s@.len(),
            m == prefix@.len(),
            forall|j: int| 0 <= j < i ==> s@[j] == prefix@[j],
        decreases m - i,
    {
        if s.get_char(i) != prefix.get_char(i) {
            assert(s@.subrange(0, m as int)[i as int] != prefix@[i as int]);
            return false;
        }
        i = i + 1;
    }
    assert(s@.subrange(0, m as int) =~= prefix@);
    true
}

/// Whether `a` and `b` hold the same characters.
pub fn same_text(a: &str, b: &str) -> (r: bool)
    ensures
        r == (a@ == b@),
{
    let r: bool = a.unicode_len() == b.unicode_len() && starts_with(a, b);
    proof {
        if r {
            assert(a@.subrange(0, b@.len() as int) =~= a@);
        }
    }
    r
}

} // verus!
