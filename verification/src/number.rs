//! Decimal and hexadecimal notation.

use vstd::prelude::*;

use crate::text::chars_of;
use crate::text::digit;
use crate::text::hex_digit;
use crate::text::is_digit;
use crate::text::repeated;

verus! {

/// The character that shows a decimal or hexadecimal digit, in lower case.
pub open spec fn digit_char(d: nat) -> char {
    if d < 10 {
        (0x30 + d) as char
    } else {
        (0x57 + d) as char
    }
}

/// What a decimal digit stands for.
pub open spec fn digit_value(c: char) -> nat {
    (c as u32 - 0x30) as nat
}

/// `n` in decimal notation, without leading zeros.
pub open spec fn decimal(n: nat) -> Seq<char>
    decreases n,
{
    if n < 10 {
        seq![digit_char(n)]
    } else {
        decimal(n / 10).push(digit_char(n % 10))
    }
}

/// `bytes` in hexadecimal notation, two lower-case digits for each.
pub open spec fn hex(bytes: Seq<u8>) -> Seq<char>
    decreases bytes.len(),
{
    if bytes.len() == 0 {
        Seq::empty()
    } else {
        hex(bytes.drop_last()).push(digit_char(bytes.last() as nat / 16)).push(
            digit_char(bytes.last() as nat % 16),
        )
    }
}

/// The character of a digit below sixteen.
pub fn to_digit_char(d: u8) -> (r: char)
    requires
        d < 16,
    ensures
        r == digit_char(d as nat),
{
    if d < 10 {
        (0x30 + d) as char
    } else {
        (0x57 + d) as char
    }
}

/// `n` in decimal notation.
pub fn to_decimal(n: u64) -> (r: String)
    ensures
        r@ == decimal(n as nat),
    decreases n,
{
    if n < 10 {
        let mut r = String::new();
        r.push(to_digit_char(n as u8));
        assert(r@ =~= decimal(n as nat));
        r
    } else {
        let mut r = to_decimal(n / 10);
        r.push(to_digit_char((n % 10) as u8));
        r
    }
}

/// `bytes` in hexadecimal notation.
pub fn to_hex(bytes: &[u8]) -> (r: String)
    ensures
        r@ == hex(bytes@),
{
    let mut r = String::new();
    let mut i: usize = 0;
    assert(bytes@.take(0) =~= Seq::<u8>::empty());
    while i < bytes.len()
        invariant
            i <= bytes@.len(),
            r@ == hex(bytes@.take(i as int)),
        decreases bytes@.len() - i,
    {
        let b: u8 = bytes[i];
        assert(bytes@.take(i + 1).drop_last() =~= bytes@.take(i as int));
        r.push(to_digit_char(b / 16));
        r.push(to_digit_char(b % 16));
        i += 1;
    }
    assert(bytes@.take(bytes@.len() as int) =~= bytes@);
    r
}

/// Two hexadecimal digits for each byte.
pub proof fn lemma_hex_len(bytes: Seq<u8>)
    ensures
        hex(bytes).len() == 2 * bytes.len(),
    decreases bytes.len(),
{
    if bytes.len() > 0 {
        lemma_hex_len(bytes.drop_last());
    }
}

/// Hexadecimal notation is made of hexadecimal digits only.
pub proof fn lemma_hex_digits(bytes: Seq<u8>, i: int)
    requires
        0 <= i < hex(bytes).len(),
    ensures
        hex_digit(hex(bytes)[i]),
    decreases bytes.len(),
{
    if bytes.len() > 0 {
        lemma_hex_len(bytes);
        lemma_hex_len(bytes.drop_last());
        if i < hex(bytes.drop_last()).len() {
            lemma_hex_digits(bytes.drop_last(), i);
        }
    }
}

/// Why a text is not a number.
#[derive(Clone, Copy, Debug, PartialEq, Eq, Structural)]
pub enum NumberError {
    Empty,
    InvalidDigit,
    TooLarge,
}

impl NumberError {
    /// The error in words.
    pub open spec fn text(&self) -> Seq<char> {
        match *self {
            NumberError::Empty => "cannot parse integer from empty string"@,
            NumberError::InvalidDigit => "invalid digit found in string"@,
            NumberError::TooLarge => "number too large to fit in target type"@,
        }
    }

    pub fn message(&self) -> (r: &'static str)
        ensures
            r@ == self.text(),
    {
        match self {
            NumberError::Empty => "cannot parse integer from empty string",
            NumberError::InvalidDigit => "invalid digit found in string",
            NumberError::TooLarge => "number too large to fit in target type",
        }
    }
}

/// The number that a run of digits stands for, up to `max`. Read from the
/// left, the first character that is no digit or takes the value over `max`
/// decides the error.
pub open spec fn scanned(s: Seq<char>, max: nat) -> Result<nat, NumberError>
    decreases s.len(),
{
    if s.len() == 0 {
        Ok(0)
    } else {
        match scanned(s.drop_last(), max) {
            Err(e) => Err(e),
            Ok(v) => if !digit(s.last()) {
                Err(NumberError::InvalidDigit)
            } else if v * 10 + digit_value(s.last()) > max {
                Err(NumberError::TooLarge)
            } else {
                Ok(v * 10 + digit_value(s.last()))
            },
        }
    }
}

/// The number that a text stands for: digits with an optional `+` in front.
pub open spec fn parsed(s: Seq<char>, max: nat) -> Result<nat, NumberError> {
    if s.len() == 0 {
        Err(NumberError::Empty)
    } else if s.first() != '+' {
        scanned(s, max)
    } else if s.len() == 1 {
        Err(NumberError::InvalidDigit)
    } else {
        scanned(s.drop_first(), max)
    }
}

/// `r` is the outcome `e`, its number taken as a mathematical one.
pub open spec fn same_outcome(r: Result<u64, NumberError>, e: Result<nat, NumberError>) -> bool {
    match r {
        Ok(v) => e == Ok::<nat, NumberError>(v as nat),
        Err(x) => e == Err::<nat, NumberError>(x),
    }
}

/// Once a prefix fails, so does the whole text, with the same error.
proof fn lemma_scan_stops(s: Seq<char>, i: int, max: nat)
    requires
        0 <= i <= s.len(),
        scanned(s.take(i), max) is Err,
    ensures
        scanned(s, max) == scanned(s.take(i), max),
    decreases s.len(),
{
    if i == s.len() {
        assert(s.take(i) =~= s);
    } else {
        assert(s.drop_last().take(i) =~= s.take(i));
        lemma_scan_stops(s.drop_last(), i, max);
    }
}

/// Reads an unsigned number of at most `max`.
pub fn parse_number(s: &str, max: u64) -> (r: Result<u64, NumberError>)
    ensures
        same_outcome(r, parsed(s@, max as nat)),
{
    let cs = chars_of(s);
    if cs.len() == 0 {
        return Err(NumberError::Empty);
    }
    let start: usize = if cs[0] == '+' {
        1
    } else {
        0
    };
    if start == 1 && cs.len() == 1 {
        return Err(NumberError::InvalidDigit);
    }
    let ghost digits = s@.skip(start as int);
    assert(start == 0 ==> digits =~= s@);
    assert(start == 1 ==> digits =~= s@.drop_first());
    let mut value: u64 = 0;
    let mut i: usize = start;
    assert(digits.take(0) =~= Seq::<char>::empty());
    while i < cs.len()
        invariant
            cs@ == s@,
            start <= i <= cs@.len(),
            digits == s@.skip(start as int),
            value <= max,
            scanned(digits.take(i - start), max as nat) == Ok::<nat, NumberError>(value as nat),
            parsed(s@, max as nat) == scanned(digits, max as nat),
        decreases cs@.len() - i,
    {
        let c: char = cs[i];
        let ghost upto = digits.take(i - start + 1);
        assert(upto.drop_last() =~= digits.take(i - start));
        assert(upto.last() == c);
        if !is_digit(c) {
            proof {
                lemma_scan_stops(digits, i - start + 1, max as nat);
            }
            return Err(NumberError::InvalidDigit);
        }
        let d: u64 = (c as u32 - 0x30) as u64;
        let next: u128 = (value as u128) * 10 + d as u128;
        if next > max as u128 {
            proof {
                lemma_scan_stops(digits, i - start + 1, max as nat);
            }
            return Err(NumberError::TooLarge);
        }
        value = next as u64;
        i += 1;
    }
    assert(digits.take(digits.len() as int) =~= digits);
    Ok(value)
}

// ---------------------------------------------------------------------------
// Laws
// ---------------------------------------------------------------------------

/// Decimal notation digit by digit: below ten it is the one digit, and ten times
/// a number plus a digit is the number with that digit behind it.
pub proof fn law_decimal(n: nat, d: nat)
    requires
        d < 10,
    ensures
        decimal(d) == seq![('0' as u32 + d) as char],
        n > 0 ==> decimal(10 * n + d) == decimal(n).push(('0' as u32 + d) as char),
{
    if n > 0 {
        assert((10 * n + d) / 10 == n);
        assert((10 * n + d) % 10 == d);
    }
}

/// Hexadecimal notation byte by byte: the two characters of a byte stand for its
/// upper and its lower half, with `a` to `f` for ten to fifteen.
pub proof fn law_hex(bytes: Seq<u8>, i: int)
    requires
        0 <= i < bytes.len(),
    ensures
        hex(bytes).len() == 2 * bytes.len(),
        hex(bytes)[2 * i] as u32 == if bytes[i] < 160 {
            '0' as u32 + bytes[i] / 16
        } else {
            'a' as u32 + (bytes[i] / 16 - 10)
        },
        hex(bytes)[2 * i + 1] as u32 == if bytes[i] % 16 < 10 {
            '0' as u32 + bytes[i] % 16
        } else {
            'a' as u32 + (bytes[i] % 16 - 10)
        },
    decreases bytes.len(),
{
    let rest = bytes.drop_last();
    lemma_hex_len(bytes);
    lemma_hex_len(rest);
    if i < rest.len() {
        law_hex(rest, i);
    }
}

/// `n` in decimal notation, with zeros and a sign in front where asked for.
pub open spec fn written(n: nat, zeros: nat, signed: bool) -> Seq<char> {
    if signed {
        seq!['+'] + (repeated('0', zeros) + decimal(n))
    } else {
        repeated('0', zeros) + decimal(n)
    }
}

proof fn lemma_scanned_zeros(k: nat, max: nat)
    ensures
        scanned(repeated('0', k), max) == Ok::<nat, NumberError>(0),
    decreases k,
{
    if k > 0 {
        lemma_scanned_zeros((k - 1) as nat, max);
        assert(repeated('0', k).drop_last() =~= repeated('0', (k - 1) as nat));
    }
}

proof fn lemma_decimal_chars(n: nat)
    ensures
        decimal(n).len() > 0,
        forall|i: int| 0 <= i < decimal(n).len() ==> digit(#[trigger] decimal(n)[i]),
    decreases n,
{
    if n >= 10 {
        lemma_decimal_chars(n / 10);
    }
}

proof fn lemma_scanned_decimal(n: nat, k: nat, max: nat)
    ensures
        scanned(repeated('0', k) + decimal(n), max) == if n <= max {
            Ok::<nat, NumberError>(n)
        } else {
            Err(NumberError::TooLarge)
        },
    decreases n,
{
    let s = repeated('0', k) + decimal(n);
    lemma_decimal_chars(n);
    if n < 10 {
        lemma_scanned_zeros(k, max);
        assert(s.drop_last() =~= repeated('0', k));
        assert(s.last() == digit_char(n));
    } else {
        lemma_scanned_decimal(n / 10, k, max);
        assert(s.drop_last() =~= repeated('0', k) + decimal(n / 10));
        assert(s.last() == digit_char(n % 10));
    }
}

/// Reading undoes writing: a number that was written down, with leading zeros or
/// a `+` or without, is read as itself up to the limit, and refused as too large
/// above it.
pub proof fn law_reading_undoes_writing(n: nat, zeros: nat, signed: bool, max: nat)
    ensures
        parsed(written(n, zeros, signed), max) == if n <= max {
            Ok::<nat, NumberError>(n)
        } else {
            Err(NumberError::TooLarge)
        },
{
    let digits = repeated('0', zeros) + decimal(n);
    lemma_scanned_decimal(n, zeros, max);
    lemma_decimal_chars(n);
    if signed {
        assert(written(n, zeros, true).drop_first() =~= digits);
    } else {
        assert(digits.first() != '+') by {
            if zeros > 0 {
                assert(digits[0] == '0');
            } else {
                assert(digits[0] == decimal(n)[0]);
            }
        }
    }
}

proof fn lemma_digit_char(c: char)
    requires
        digit(c),
    ensures
        digit_value(c) < 10,
        digit_char(digit_value(c)) == c,
        ('0' as u32 + digit_value(c)) as char == c,
{
}

/// Every run of digits is some number that was written down.
pub proof fn law_digits_are_a_number(s: Seq<char>) -> (r: (nat, nat))
    requires
        s.len() > 0,
        forall|i: int| 0 <= i < s.len() ==> '0' as u32 <= #[trigger] s[i] as u32 <= '9' as u32,
    ensures
        s == written(r.0, r.1, false),
    decreases s.len(),
{
    let d = digit_value(s.last());
    assert('0' as u32 <= s[s.len() - 1] as u32 <= '9' as u32);
    lemma_digit_char(s.last());
    if s.len() == 1 {
        assert(repeated('0', 0) + decimal(d) =~= s);
        (d, 0)
    } else {
        let rest = s.drop_last();
        assert forall|i: int| 0 <= i < rest.len() implies '0' as u32 <= #[trigger] rest[i] as u32
            <= '9' as u32 by {
            assert(rest[i] == s[i]);
        }
        let (n, zeros) = law_digits_are_a_number(rest);
        if n == 0 {
            assert(decimal(0) =~= seq!['0']);
            assert(rest =~= repeated('0', zeros + 1));
            assert(repeated('0', zeros + 1) + decimal(d) =~= s);
            (d, zeros + 1)
        } else {
            law_decimal(n, d);
            assert(decimal(10 * n + d) == decimal(n).push(s.last()));
            assert(rest.push(s.last()) =~= s);
            assert(repeated('0', zeros) + decimal(n).push(s.last()) =~= rest.push(s.last()));
            (10 * n + d, zeros)
        }
    }
}

proof fn lemma_scanned_ok(s: Seq<char>, max: nat)
    ensures
        scanned(s, max) matches Ok(v) ==> v <= max && forall|i: int|
            0 <= i < s.len() ==> digit(#[trigger] s[i]),
        scanned(s, max) == Err::<nat, NumberError>(NumberError::InvalidDigit) ==> exists|i: int|
            0 <= i < s.len() && !digit(#[trigger] s[i]),
        scanned(s, max) != Err::<nat, NumberError>(NumberError::Empty),
    decreases s.len(),
{
    if s.len() > 0 {
        let rest = s.drop_last();
        lemma_scanned_ok(rest, max);
        if scanned(s, max) is Ok {
            assert forall|i: int| 0 <= i < s.len() implies digit(#[trigger] s[i]) by {
                if i < rest.len() {
                    assert(digit(rest[i]));
                }
            }
        } else if scanned(rest, max) == Err::<nat, NumberError>(NumberError::InvalidDigit) {
            let i = choose|i: int| 0 <= i < rest.len() && !digit(#[trigger] rest[i]);
            assert(!digit(s[i]));
        } else if scanned(s, max) == Err::<nat, NumberError>(NumberError::InvalidDigit) {
            assert(!digit(s[s.len() - 1]));
        }
    }
}

/// Nothing but digits, with at most one `+` in front, is read as a number. An
/// empty text is told from one with a character that does not belong there, and
/// only a text with such a character is faulted for it.
pub proof fn law_only_digits_are_read(s: Seq<char>, max: nat)
    ensures
        parsed(s, max) matches Ok(v) ==> v <= max && s.len() > 0 && (s.first() == '+' ==> s.len()
            > 1) && forall|i: int|
            0 <= i < s.len() ==> '0' as u32 <= #[trigger] s[i] as u32 <= '9' as u32 || (i == 0
                && s[i] == '+'),
        parsed(s, max) == Err::<nat, NumberError>(NumberError::Empty) <==> s.len() == 0,
        parsed(s, max) == Err::<nat, NumberError>(NumberError::InvalidDigit) ==> s =~= seq!['+']
            || exists|i: int|
            0 <= i < s.len() && !('0' as u32 <= #[trigger] s[i] as u32 <= '9' as u32) && (i == 0
                ==> s[i] != '+'),
{
    if s.len() > 0 {
        if s.first() != '+' {
            lemma_scanned_ok(s, max);
        } else if s.len() > 1 {
            let rest = s.drop_first();
            lemma_scanned_ok(rest, max);
            if scanned(rest, max) is Ok {
                assert forall|i: int| 0 <= i < s.len() implies '0' as u32 <= #[trigger] s[i] as u32
                    <= '9' as u32 || (i == 0 && s[i] == '+') by {
                    if i > 0 {
                        assert(digit(rest[i - 1]));
                    }
                }
            } else if scanned(rest, max) == Err::<nat, NumberError>(NumberError::InvalidDigit) {
                let i = choose|i: int| 0 <= i < rest.len() && !digit(#[trigger] rest[i]);
                assert(s[i + 1] == rest[i]);
            }
        }
    }
}

/// A foreign character behind digits is faulted, unless the digits alone were
/// too many already.
pub proof fn law_foreign_character(n: nat, zeros: nat, signed: bool, c: char, rest: Seq<char>, max: nat)
    requires
        !('0' as u32 <= c as u32 <= '9' as u32),
    ensures
        parsed(written(n, zeros, signed).push(c) + rest, max) == Err::<nat, NumberError>(
            if n <= max {
                NumberError::InvalidDigit
            } else {
                NumberError::TooLarge
            },
        ),
{
    let digits = repeated('0', zeros) + decimal(n);
    lemma_scanned_decimal(n, zeros, max);
    lemma_decimal_chars(n);
    let s = written(n, zeros, signed).push(c) + rest;
    let tail = digits.push(c) + rest;
    assert(tail.take(digits.len() as int + 1).drop_last() =~= digits);
    assert(tail.take(digits.len() as int + 1).last() == c);
    lemma_scan_stops(tail, digits.len() as int + 1, max);
    if signed {
        assert(s.first() == '+');
        assert(s.drop_first() =~= tail);
    } else {
        assert(s =~= tail);
        assert(tail.first() != '+') by {
            if zeros > 0 {
                assert(tail[0] == '0');
            } else {
                assert(tail[0] == decimal(n)[0]);
            }
        }
    }
}

/// What each fault of a number is called.
pub proof fn law_number_faults(e: NumberError)
    ensures
        e == NumberError::Empty ==> e.text() == "cannot parse integer from empty string"@,
        e == NumberError::InvalidDigit ==> e.text() == "invalid digit found in string"@,
        e == NumberError::TooLarge ==> e.text() == "number too large to fit in target type"@,
{
}

/// What is read is what the text stands for: the same number, or the same fault.
pub proof fn law_same_outcome(v: u64, x: NumberError, n: nat, y: NumberError)
    ensures
        same_outcome(Ok(v), Ok(n)) <==> v == n,
        same_outcome(Err(x), Err(y)) <==> x == y,
        !same_outcome(Ok(v), Err(y)),
        !same_outcome(Err(x), Ok(n)),
{
}

} // verus!
