//! Decimal notation of integers: reading it as Rust's integer parsers do, and writing it.
use crate::text::{chars_of, text_of};
use vstd::prelude::*;

verus! {

/// A decimal digit.
pub open spec fn is_digit(c: char) -> bool {
    '0' <= c <= '9'
}

/// The number that decimal digits stand for.
pub open spec fn digits_value(digits: Seq<char>) -> int
    decreases digits.len(),
{
    if digits.len() == 0 {
        0
    } else {
        digits_value(digits.drop_last()) * 10 + (digits.last() as int - '0' as int)
    }
}

/// Whether a text is one or more decimal digits.
pub open spec fn is_digits(s: Seq<char>) -> bool {
    s.len() > 0 && forall|i: int| 0 <= i < s.len() ==> is_digit(#[trigger] s[i])
}

/// The integer that a text writes in decimal: digits behind an optional plus sign, or, where
/// `signed`, behind an optional sign.
pub open spec fn decimal_value(s: Seq<char>, signed: bool) -> Option<int> {
    let negative = signed && s.len() > 0 && s[0] == '-';
    let digits = if negative || (s.len() > 0 && s[0] == '+') {
        s.skip(1)
    } else {
        s
    };
    if !is_digits(digits) {
        None
    } else if negative {
        Some(-digits_value(digits))
    } else {
        Some(digits_value(digits))
    }
}

/// The integer that a text writes in decimal, where it lies between two bounds.
pub open spec fn parse_decimal(s: Seq<char>, signed: bool, least: int, most: int) -> Option<int> {
    match decimal_value(s, signed) {
        Some(value) if least <= value <= most => Some(value),
        _ => None,
    }
}

/// Reads the sign and the digits of a decimal integer whose size is at most 2^64.
fn read_decimal(text: &str, signed: bool) -> (value: Option<i128>)
    ensures
        match value {
            Some(value) => decimal_value(text@, signed) == Some(value as int) && -0x1_0000_0000_0000_0000
                <= value <= 0x1_0000_0000_0000_0000,
            None => match decimal_value(text@, signed) {
                Some(value) => value < -0x1_0000_0000_0000_0000 || 0x1_0000_0000_0000_0000 < value,
                None => true,
            },
        },
{
    let chars = chars_of(text);
    let negative = signed && chars.len() > 0 && chars[0] == '-';
    let start: usize = if negative || (chars.len() > 0 && chars[0] == '+') {
        1
    } else {
        0
    };
    let ghost digits = chars@.skip(start as int);
    assert(start == 0 ==> digits == chars@);
    if start == chars.len() {
        return None;
    }
    let mut i: usize = start;
    let mut total: i128 = 0;
    let mut large = false;
    while i < chars.len()
        invariant
            start <= i <= chars.len(),
            start < chars.len(),
            chars@ == text@,
            negative == (signed && chars[0] == '-'),
            start == (if negative || chars[0] == '+' {
                1int
            } else {
                0int
            }),
            start == 0 ==> digits == chars@,
            digits == chars@.skip(start as int),
            forall|j: int| 0 <= j < i - start ==> is_digit(#[trigger] digits[j]),
            0 <= total <= 0x1_0000_0000_0000_0000,
            !large ==> total == digits_value(digits.take(i - start)),
            large ==> digits_value(digits.take(i - start)) > 0x1_0000_0000_0000_0000,
        decreases chars.len() - i,
    {
        let c = chars[i];
        assert(c == digits[i - start]);
        if !('0' <= c && c <= '9') {
            assert(!is_digit(digits[i - start]));
            return None;
        }
        let digit: i128 = (c as u8 - 48) as i128;
        proof {
            assert(digits.take(i + 1 - start).drop_last() == digits.take(i - start));
        }
        if !large {
            let next: i128 = total * 10 + digit;
            if next > 0x1_0000_0000_0000_0000 {
                large = true;
            } else {
                total = next;
            }
        }
        i += 1;
    }
    assert(digits.take(i - start) == digits);
    if large {
        None
    } else if negative {
        Some(-total)
    } else {
        Some(total)
    }
}

/// Reads an `i64` in decimal.
pub fn parse_i64(text: &str) -> (value: Option<i64>)
    ensures
        match value {
            Some(value) => parse_decimal(text@, true, i64::MIN as int, i64::MAX as int) == Some(
                value as int,
            ),
            None => parse_decimal(text@, true, i64::MIN as int, i64::MAX as int) is None,
        },
{
    match read_decimal(text, true) {
        Some(value) if i64::MIN as i128 <= value && value <= i64::MAX as i128 => Some(value as i64),
        _ => None,
    }
}

/// Reads an `i32` in decimal.
pub fn parse_i32(text: &str) -> (value: Option<i32>)
    ensures
        match value {
            Some(value) => parse_decimal(text@, true, i32::MIN as int, i32::MAX as int) == Some(
                value as int,
            ),
            None => parse_decimal(text@, true, i32::MIN as int, i32::MAX as int) is None,
        },
{
    match read_decimal(text, true) {
        Some(value) if i32::MIN as i128 <= value && value <= i32::MAX as i128 => Some(value as i32),
        _ => None,
    }
}

/// Reads a `u64` in decimal.
pub fn parse_u64(text: &str) -> (value: Option<u64>)
    ensures
        match value {
            Some(value) => parse_decimal(text@, false, 0, u64::MAX as int) == Some(value as int),
            None => parse_decimal(text@, false, 0, u64::MAX as int) is None,
        },
{
    match read_decimal(text, false) {
        Some(value) if 0 <= value && value <= u64::MAX as i128 => Some(value as u64),
        _ => None,
    }
}

/// Reads a `usize` in decimal.
pub fn parse_usize(text: &str) -> (value: Option<usize>)
    ensures
        match value {
            Some(value) => parse_decimal(text@, false, 0, usize::MAX as int) == Some(value as int),
            None => parse_decimal(text@, false, 0, usize::MAX as int) is None,
        },
{
    match read_decimal(text, false) {
        Some(value) if 0 <= value && value <= usize::MAX as i128 => Some(value as usize),
        _ => None,
    }
}

/// The decimal digits of a number.
pub open spec fn decimal_text(n: nat) -> Seq<char>
    decreases n,
{
    if n < 10 {
        seq![('0' as u32 + n) as char]
    } else {
        decimal_text(n / 10).push(('0' as u32 + n % 10) as char)
    }
}

/// A text filled up with zeros in front to a width.
pub open spec fn zero_filled(s: Seq<char>, width: nat) -> Seq<char>
    decreases width - s.len(),
{
    if s.len() < width {
        zero_filled(seq!['0'] + s, width)
    } else {
        s
    }
}

/// The decimal digits of a number.
fn digits_of(n: u64) -> (chars: Vec<char>)
    ensures
        chars@ == decimal_text(n as nat),
    decreases n,
{
    let mut chars: Vec<char> = if n < 10 {
        Vec::new()
    } else {
        digits_of(n / 10)
    };
    chars.push((48 + (n % 10) as u8) as char);
    chars
}

/// Writes a number in decimal.
pub fn decimal(n: u64) -> (text: String)
    ensures
        text@ == decimal_text(n as nat),
{
    text_of(digits_of(n).as_slice())
}

/// Writes a number in decimal with at least `width` digits.
pub fn padded_decimal(n: u64, width: usize) -> (text: String)
    ensures
        text@ == zero_filled(decimal_text(n as nat), width as nat),
{
    let mut chars = digits_of(n);
    while chars.len() < width
        invariant
            zero_filled(chars@, width as nat) == zero_filled(decimal_text(n as nat), width as nat),
        decreases width - chars.len(),
    {
        let ghost before = chars@;
        chars.insert(0, '0');
        assert(chars@ == seq!['0'] + before);
    }
    text_of(chars.as_slice())
}

/// The digits of a number read as that number.
pub proof fn decimal_text_reads_back(n: nat)
    ensures
        is_digits(decimal_text(n)),
        digits_value(decimal_text(n)) == n,
        decimal_value(decimal_text(n), false) == Some(n as int),
        decimal_value(decimal_text(n), true) == Some(n as int),
    decreases n,
{
    if n >= 10 {
        decimal_text_reads_back(n / 10);
        assert(decimal_text(n).drop_last() == decimal_text(n / 10));
        assert(is_digit(decimal_text(n / 10)[0]));
        assert(decimal_text(n)[0] == decimal_text(n / 10)[0]);
    } else {
        assert(decimal_text(n).drop_last() == Seq::<char>::empty());
        assert(digits_value(decimal_text(n).drop_last()) == 0);
    }
    assert(is_digit(decimal_text(n)[0]));
}

/// An integer in decimal, with a minus sign where it is negative.
pub open spec fn signed_text(n: int) -> Seq<char> {
    if n < 0 {
        seq!['-'] + decimal_text((-n) as nat)
    } else {
        decimal_text(n as nat)
    }
}

/// Writes an integer in decimal.
pub fn signed_decimal(n: i64) -> (text: String)
    ensures
        text@ == signed_text(n as int),
{
    if n < 0 {
        let size: u64 = (-(n as i128)) as u64;
        let mut chars = digits_of(size);
        let ghost digits = chars@;
        chars.insert(0, '-');
        assert(chars@ =~= seq!['-'] + digits);
        text_of(chars.as_slice())
    } else {
        decimal(n as u64)
    }
}

/// An integer in decimal, filled up with zeros to a width that counts the sign.
pub open spec fn padded_signed_text(n: int, width: nat) -> Seq<char> {
    if n < 0 {
        seq!['-'] + zero_filled(
            decimal_text((-n) as nat),
            if width > 0 {
                (width - 1) as nat
            } else {
                0
            },
        )
    } else {
        zero_filled(decimal_text(n as nat), width)
    }
}

/// Writes an integer in decimal, filled up with zeros to a width that counts the sign.
pub fn padded_signed(n: i32, width: usize) -> (text: String)
    ensures
        text@ == padded_signed_text(n as int, width as nat),
{
    if n < 0 {
        let size: u64 = (-(n as i64)) as u64;
        let digits = padded_decimal(
            size,
            if width > 0 {
                width - 1
            } else {
                0
            },
        );
        let mut chars = chars_of(digits.as_str());
        chars.insert(0, '-');
        assert(chars@ =~= seq!['-'] + digits@);
        text_of(chars.as_slice())
    } else {
        padded_decimal(n as u64, width)
    }
}

/// Decimal digits are read from the front: each digit more is ten times what was read, and the
/// digit.
pub proof fn digits_are_read_from_the_front(digits: Seq<char>, digit: char)
    requires
        '0' <= digit <= '9',
    ensures
        digits_value(Seq::empty()) == 0,
        digits_value(digits.push(digit)) == 10 * digits_value(digits) + (digit as int - '0' as int),
        is_digits(seq![digit]),
        is_digits(digits) ==> is_digits(digits.push(digit)),
{
    assert(digits.push(digit).drop_last() =~= digits);
}

/// A number is read from digits, with a plus sign in front or none, and, where there may be a sign,
/// its opposite from digits behind a minus sign. Whatever else a text holds, it is no number.
pub proof fn numbers_are_read_from_digits(digits: Seq<char>, text: Seq<char>, least: int, most: int)
    requires
        is_digits(digits),
    ensures
        ({
            let n = digits_value(digits);
            &&& decimal_value(digits, true) == Some(n)
            &&& decimal_value(digits, false) == Some(n)
            &&& decimal_value(seq!['+'] + digits, true) == Some(n)
            &&& decimal_value(seq!['+'] + digits, false) == Some(n)
            &&& decimal_value(seq!['-'] + digits, true) == Some(-n)
            &&& decimal_value(seq!['-'] + digits, false) is None
            &&& least <= n <= most ==> parse_decimal(digits, true, least, most) == Some(n)
                && parse_decimal(digits, false, least, most) == Some(n)
            &&& !(least <= n <= most) ==> parse_decimal(digits, true, least, most) is None
                && parse_decimal(digits, false, least, most) is None
            &&& least <= -n <= most ==> parse_decimal(seq!['-'] + digits, true, least, most)
                == Some(-n)
        }),
        text.len() == 0 ==> parse_decimal(text, true, least, most) is None && parse_decimal(
            text,
            false,
            least,
            most,
        ) is None,
        (exists|i: int|
            1 <= i < text.len() && !('0' <= #[trigger] text[i] <= '9')) ==> parse_decimal(
            text,
            true,
            least,
            most,
        ) is None && parse_decimal(text, false, least, most) is None,
        text.len() > 0 && !('0' <= text[0] <= '9') && text[0] != '+' && text[0] != '-'
            ==> parse_decimal(text, true, least, most) is None && parse_decimal(
            text,
            false,
            least,
            most,
        ) is None,
{
    assert(is_digit(digits[0]));
    assert((seq!['+'] + digits).skip(1) =~= digits);
    assert((seq!['-'] + digits).skip(1) =~= digits);
    assert(!is_digits(seq!['-'] + digits)) by {
        assert((seq!['-'] + digits)[0] == '-');
        assert(!is_digit('-'));
    }
    if exists|i: int| 1 <= i < text.len() && !('0' <= #[trigger] text[i] <= '9') {
        let i = choose|i: int| 1 <= i < text.len() && !('0' <= #[trigger] text[i] <= '9');
        assert(!is_digit(text[i]));
        assert(text.skip(1)[i - 1] == text[i]);
    }
    if text.len() > 0 && !('0' <= text[0] <= '9') {
        assert(!is_digit(text[0]));
    }
}

/// Numbers are written in decimal, the last digit last; integers below zero behind a minus sign.
pub proof fn numbers_are_written_in_decimal(n: nat, digit: nat, i: int)
    requires
        digit < 10,
    ensures
        decimal_text(digit).len() == 1,
        decimal_text(digit)[0] as int == '0' as int + digit,
        n > 0 ==> decimal_text(10 * n + digit) == decimal_text(n) + decimal_text(digit),
        i >= 0 ==> signed_text(i) == decimal_text(i as nat),
        i < 0 ==> signed_text(i) == seq!['-'] + decimal_text((-i) as nat),
{
    if n > 0 {
        assert((10 * n + digit) / 10 == n && (10 * n + digit) % 10 == digit);
        assert(decimal_text(10 * n + digit) =~= decimal_text(n) + decimal_text(digit));
    }
}

/// Filling up with zeros puts zeros in front until the width is reached, and changes nothing else.
pub proof fn filling_up_puts_zeros_in_front(s: Seq<char>, width: nat)
    ensures
        s.len() >= width ==> zero_filled(s, width) == s,
        s.len() < width ==> zero_filled(s, width).len() == width && zero_filled(s, width).skip(
            width - s.len(),
        ) == s && forall|i: int|
            0 <= i < width - s.len() ==> #[trigger] zero_filled(s, width)[i] == '0',
    decreases width - s.len(),
{
    if s.len() < width {
        let more = seq!['0'] + s;
        filling_up_puts_zeros_in_front(more, width);
        let filled = zero_filled(s, width);
        if more.len() < width {
            assert(filled.skip(width - more.len()) == more);
            assert(filled.skip(width - s.len()) =~= more.skip(1));
            assert(more.skip(1) =~= s);
            assert forall|i: int| 0 <= i < width - s.len() implies #[trigger] filled[i] == '0' by {
                if i == width - more.len() {
                    assert(filled.skip(width - more.len())[0] == filled[i]);
                }
            }
        } else {
            assert(filled == more);
            assert(more.skip(1) =~= s);
        }
    }
}

} // verus!
