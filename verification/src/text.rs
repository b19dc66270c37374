//! Characters, numbers and lines of text.

use vstd::arithmetic::power::*;
use vstd::prelude::*;
use vstd::string::*;

verus! {

/// `String::push` appends one character.
pub assume_specification[ String::push ](text: &mut String, ch: char)
    ensures
        final(text)@ == old(text)@.push(ch),
;

/// The characters of a string.
pub fn chars_of(text: &str) -> (chars: Vec<char>)
    ensures
        chars@ == text@,
{
    let mut chars: Vec<char> = Vec::new();
    for c in it: text.chars()
        invariant
            chars@ == it.seq().take(it.index()),
    {
        chars.push(c);
    }
    chars
}

/// Whether two strings hold the same characters.
pub fn same_text(a: &str, b: &str) -> (same: bool)
    ensures
        same == (a@ == b@),
{
    a.to_string() == b.to_string()
}

/// The characters of each of several strings.
pub open spec fn views(strings: Seq<String>) -> Seq<Seq<char>> {
    Seq::new(strings.len(), |i: int| strings[i]@)
}

/// Several strings are looked at one by one, each as it is.
pub proof fn lemma_views(strings: Seq<String>)
    ensures
        views(strings).len() == strings.len(),
        forall|i: int| 0 <= i < strings.len() ==> #[trigger] views(strings)[i] == strings[i]@,
{
}

// White space
/// The characters with the Unicode property `White_Space`.
pub open spec fn white_space(c: char) -> bool {
    ||| '\u{9}' <= c <= '\u{d}'
    ||| c == ' '
    ||| c == '\u{85}'
    ||| c == '\u{a0}'
    ||| c == '\u{1680}'
    ||| '\u{2000}' <= c <= '\u{200a}'
    ||| c == '\u{2028}'
    ||| c == '\u{2029}'
    ||| c == '\u{202f}'
    ||| c == '\u{205f}'
    ||| c == '\u{3000}'
}

/// A text without the white space that it begins with.
pub open spec fn trimmed_start(text: Seq<char>) -> Seq<char>
    decreases text.len(),
{
    if text.len() > 0 && white_space(text.first()) {
        trimmed_start(text.drop_first())
    } else {
        text
    }
}

/// A text without the white space that it ends with.
pub open spec fn trimmed_end(text: Seq<char>) -> Seq<char>
    decreases text.len(),
{
    if text.len() > 0 && white_space(text.last()) {
        trimmed_end(text.drop_last())
    } else {
        text
    }
}

/// A text without the white space around it.
pub open spec fn trimmed(text: Seq<char>) -> Seq<char> {
    trimmed_end(trimmed_start(text))
}

/// Whether a character is white space.
pub fn is_white_space(c: char) -> (white: bool)
    ensures
        white == white_space(c),
        white <==> {
            ||| 0x9 <= c as u32 <= 0xd
            ||| c as u32 == 0x20
            ||| c as u32 == 0x85
            ||| c as u32 == 0xa0
            ||| c as u32 == 0x1680
            ||| 0x2000 <= c as u32 <= 0x200a
            ||| c as u32 == 0x2028
            ||| c as u32 == 0x2029
            ||| c as u32 == 0x202f
            ||| c as u32 == 0x205f
            ||| c as u32 == 0x3000
        },
{
    ('\u{9}' <= c && c <= '\u{d}') || c == ' ' || c == '\u{85}' || c == '\u{a0}' || c == '\u{1680}'
        || ('\u{2000}' <= c && c <= '\u{200a}') || c == '\u{2028}' || c == '\u{2029}' || c
        == '\u{202f}' || c == '\u{205f}' || c == '\u{3000}'
}

/// Removes the white space around a text.
pub fn trim(text: &str) -> (result: String)
    ensures
        result@ == trimmed(text@),
{
    let chars = chars_of(text);
    let mut start: usize = 0;
    assert(chars@.skip(0) == chars@);
    while start < chars.len() && is_white_space(chars[start])
        invariant
            start <= chars.len(),
            trimmed_start(chars@) == trimmed_start(chars@.skip(start as int)),
        decreases chars.len() - start,
    {
        assert(chars@.skip(start as int).drop_first() == chars@.skip(start + 1));
        start = start + 1;
    }
    assert(trimmed_start(chars@) == chars@.skip(start as int));
    let mut end: usize = chars.len();
    assert(chars@.skip(start as int) == chars@.subrange(start as int, end as int));
    while start < end && is_white_space(chars[end - 1])
        invariant
            start <= end <= chars.len(),
            trimmed(chars@) == trimmed_end(chars@.subrange(start as int, end as int)),
        decreases end,
    {
        assert(chars@.subrange(start as int, end as int).drop_last() == chars@.subrange(
            start as int,
            end - 1,
        ));
        end = end - 1;
    }
    let mut result = String::new();
    let mut i: usize = start;
    while i < end
        invariant
            start <= i <= end <= chars.len(),
            result@ == chars@.subrange(start as int, i as int),
        decreases end - i,
    {
        result.push(chars[i]);
        i = i + 1;
    }
    result
}

/// Trimming removes nothing but white space: what is left stands between two runs of it, and
/// neither begins nor ends with it.
pub proof fn lemma_trimmed_is_the_middle(text: Seq<char>) -> (bounds: (int, int))
    ensures
        0 <= bounds.0 <= bounds.1 <= text.len(),
        trimmed(text) == text.subrange(bounds.0, bounds.1),
        forall|i: int| 0 <= i < bounds.0 ==> white_space(#[trigger] text[i]),
        forall|i: int| bounds.1 <= i < text.len() ==> white_space(#[trigger] text[i]),
        trimmed(text).len() > 0 ==> !white_space(trimmed(text).first()) && !white_space(
            trimmed(text).last(),
        ),
{
    let start = lemma_trimmed_start(text);
    let rest = text.skip(start);
    let end = lemma_trimmed_end(rest);
    assert(text.subrange(start, start + end) == rest.take(end));
    assert forall|i: int| start + end <= i < text.len() implies white_space(#[trigger] text[i]) by {
        assert(rest[i - start] == text[i]);
    }
    (start, start + end)
}

proof fn lemma_trimmed_start(text: Seq<char>) -> (start: int)
    ensures
        0 <= start <= text.len(),
        trimmed_start(text) == text.skip(start),
        forall|i: int| 0 <= i < start ==> white_space(#[trigger] text[i]),
        start < text.len() ==> !white_space(text[start]),
    decreases text.len(),
{
    if text.len() > 0 && white_space(text.first()) {
        let rest = lemma_trimmed_start(text.drop_first());
        assert(text.drop_first().skip(rest) == text.skip(rest + 1));
        assert forall|i: int| 0 <= i < rest + 1 implies white_space(#[trigger] text[i]) by {
            if i > 0 {
                assert(text.drop_first()[i - 1] == text[i]);
            }
        }
        rest + 1
    } else {
        assert(text.skip(0) == text);
        0
    }
}

proof fn lemma_trimmed_end(text: Seq<char>) -> (end: int)
    ensures
        0 <= end <= text.len(),
        trimmed_end(text) == text.take(end),
        forall|i: int| end <= i < text.len() ==> white_space(#[trigger] text[i]),
        end > 0 ==> !white_space(text[end - 1]),
    decreases text.len(),
{
    if text.len() > 0 && white_space(text.last()) {
        let end = lemma_trimmed_end(text.drop_last());
        assert(text.drop_last().take(end) == text.take(end));
        assert forall|i: int| end <= i < text.len() implies white_space(#[trigger] text[i]) by {
            if i < text.len() - 1 {
                assert(text.drop_last()[i] == text[i]);
            }
        }
        end
    } else {
        assert(text.take(text.len() as int) == text);
        text.len() as int
    }
}

/// A text that neither begins nor ends with white space is left as it is; so trimming twice
/// is trimming once.
pub proof fn lemma_trim_is_idempotent(text: Seq<char>)
    ensures
        text.len() > 0 && !white_space(text.first()) && !white_space(text.last()) ==> trimmed(text)
            == text,
        trimmed(trimmed(text)) == trimmed(text),
{
    lemma_trimmed_is_the_middle(text);
}

// Decimal numbers
/// The character of a decimal digit.
pub open spec fn digit_char(d: nat) -> char {
    (48 + d) as char
}

/// A number in decimal notation, without leading zeros.
pub open spec fn decimal(n: nat) -> Seq<char>
    decreases n,
{
    if n < 10 {
        seq![digit_char(n)]
    } else {
        decimal(n / 10).push(digit_char(n % 10))
    }
}

/// Writes a number in decimal notation.
pub fn decimal_text(n: u64) -> (text: String)
    ensures
        text@ == decimal(n as nat),
    decreases n,
{
    let mut text = if n < 10 {
        String::new()
    } else {
        decimal_text(n / 10)
    };
    text.push((48 + (n % 10) as u8) as char);
    assert(n < 10 ==> n % 10 == n);
    assert(text@ == decimal(n as nat));
    text
}

/// Whether a character is a decimal digit.
pub open spec fn is_digit(c: char) -> bool {
    '0' <= c <= '9'
}

/// Whether a text holds decimal digits only.
pub open spec fn all_digits(text: Seq<char>) -> bool {
    forall|i: int| 0 <= i < text.len() ==> is_digit(#[trigger] text[i])
}

/// The number that a run of digits stands for.
pub open spec fn digits_value(digits: Seq<char>) -> nat
    decreases digits.len(),
{
    if digits.len() == 0 {
        0
    } else {
        digits_value(digits.drop_last()) * 10 + (digits.last() as nat - 48) as nat
    }
}

/// A number without its optional plus sign.
pub open spec fn unsigned_part(text: Seq<char>) -> Seq<char> {
    if text.len() > 0 && text.first() == '+' {
        text.drop_first()
    } else {
        text
    }
}

/// The number that a text stands for: an optional plus sign, then digits and nothing else.
pub open spec fn number(text: Seq<char>) -> Option<nat> {
    let digits = unsigned_part(text);
    if digits.len() > 0 && all_digits(digits) {
        Some(digits_value(digits))
    } else {
        None
    }
}

/// The number that a text stands for, if it fits the machine's word.
pub open spec fn index(text: Seq<char>) -> Option<usize> {
    match number(text) {
        Some(n) => if n <= usize::MAX {
            Some(n as usize)
        } else {
            None
        },
        None => None,
    }
}

/// Reads a number that fits the machine's word.
pub fn parse_index(text: &str) -> (result: Option<usize>)
    ensures
        result == index(text@),
{
    let chars = chars_of(text);
    let start: usize = if chars.len() > 0 && chars[0] == '+' {
        1
    } else {
        0
    };
    let ghost digits = unsigned_part(chars@);
    assert(digits == chars@.skip(start as int));
    if start == chars.len() {
        return None;
    }
    let mut value: usize = 0;
    let mut overflow: bool = false;
    let mut i: usize = start;
    while i < chars.len()
        invariant
            start <= i <= chars.len(),
            digits == chars@.skip(start as int),
            digits == unsigned_part(text@),
            forall|k: int| 0 <= k < i - start ==> is_digit(#[trigger] digits[k]),
            !overflow ==> value == digits_value(digits.take(i - start)),
            overflow ==> digits_value(digits.take(i - start)) > usize::MAX,
        decreases chars.len() - i,
    {
        let c = chars[i];
        assert(digits[i - start] == c);
        if c < '0' || c > '9' {
            assert(!is_digit(digits[i - start]));
            return None;
        }
        let d: usize = c as usize - 48;
        assert(digits.take(i - start + 1).drop_last() == digits.take(i - start));
        assert(digits.take(i - start + 1).last() == c);
        if value <= usize::MAX / 10 && value * 10 <= usize::MAX - d {
            value = value * 10 + d;
        } else {
            overflow = true;
        }
        i = i + 1;
    }
    assert(digits.take(digits.len() as int) == digits);
    if overflow {
        None
    } else {
        Some(value)
    }
}

/// Reading a number in decimal notation gives the number back.
pub proof fn lemma_decimal_round_trip(n: nat)
    ensures
        number(decimal(n)) == Some(n),
        n <= usize::MAX ==> index(decimal(n)) == Some(n as usize),
{
    lemma_decimal_digits(n);
}

proof fn lemma_decimal_digits(n: nat)
    ensures
        decimal(n).len() > 0,
        all_digits(decimal(n)),
        digits_value(decimal(n)) == n,
    decreases n,
{
    if n < 10 {
        assert(decimal(n).drop_last() == Seq::<char>::empty());
        assert(digits_value(decimal(n).drop_last()) == 0);
    } else {
        lemma_decimal_digits(n / 10);
        assert(decimal(n).drop_last() == decimal(n / 10));
    }
}

/// A number in decimal notation has one digit for each power of ten up to the highest that it
/// reaches, and the digit is what the number holds of that power. So it has no leading zero.
pub proof fn lemma_decimal_by_place(n: nat)
    ensures
        decimal(n).len() > 0,
        n < pow(10, decimal(n).len()),
        decimal(n).len() > 1 ==> pow(10, (decimal(n).len() - 1) as nat) <= n,
        forall|i: int|
            0 <= i < decimal(n).len() ==> (#[trigger] decimal(n)[i]) as int == 48 + n as int / pow(
                10,
                (decimal(n).len() - 1 - i) as nat,
            ) % 10,
    decreases n,
{
    reveal(pow);
    let digits = decimal(n);
    let len = digits.len();
    assert(pow(10, 0) == 1);
    assert(n as int / 1 == n);
    if n < 10 {
        assert(pow(10, 1) == 10 * pow(10, 0));
    } else {
        let q = n / 10;
        lemma_decimal_by_place(q);
        let before = decimal(q);
        assert(len == before.len() + 1);
        assert(pow(10, len) == 10 * pow(10, before.len()));
        assert(pow(10, (len - 1) as nat) == 10 * pow(10, (len - 2) as nat));
        assert forall|i: int| 0 <= i < len implies (#[trigger] digits[i]) as int == 48 + n as int
            / pow(10, (len - 1 - i) as nat) % 10 by {
            if i < len - 1 {
                let p = pow(10, (len - 2 - i) as nat);
                assert(digits[i] == before[i]);
                assert(pow(10, (len - 1 - i) as nat) == 10 * p);
                lemma_pow_positive(10, (len - 2 - i) as nat);
                vstd::arithmetic::div_mod::lemma_div_denominator(n as int, 10, p);
            }
        }
        if before.len() == 1 {
            assert(pow(10, (len - 2) as nat) == 1);
        }
    }
}

/// A text is a number exactly where it holds digits, at least one, and before them at most a
/// plus sign.
pub proof fn lemma_what_is_a_number(text: Seq<char>)
    ensures
        number(text) is Some <==> {
            let start: int = if text.len() > 0 && text[0] == '+' {
                1
            } else {
                0
            };
            &&& start < text.len()
            &&& forall|i: int| start <= i < text.len() ==> '0' <= #[trigger] text[i] <= '9'
        },
{
    let digits = unsigned_part(text);
    let start: int = if text.len() > 0 && text[0] == '+' {
        1
    } else {
        0
    };
    assert(digits == text.skip(start));
    if all_digits(digits) {
        assert forall|i: int| start <= i < text.len() implies '0' <= #[trigger] text[i] <= '9' by {
            assert(digits[i - start] == text[i]);
        }
    }
    if forall|i: int| start <= i < text.len() ==> '0' <= #[trigger] text[i] <= '9' {
        assert forall|i: int| 0 <= i < digits.len() implies is_digit(#[trigger] digits[i]) by {
            assert(text[i + start] == digits[i]);
        }
    }
}

/// A digit is its own number; a further digit makes the number ten times as large and adds the
/// digit; a plus sign before it changes nothing. A number that fits the machine's word is an
/// index, and no other text is.
pub proof fn lemma_number_by_digits(digits: Seq<char>, c: char, text: Seq<char>, k: usize)
    requires
        digits.len() > 0,
        forall|i: int| 0 <= i < digits.len() ==> '0' <= #[trigger] digits[i] <= '9',
        '0' <= c <= '9',
    ensures
        number(seq![c]) == Some((c as u32 - 48) as nat),
        number(digits) is Some,
        number(digits.push(c)) == Some((number(digits)->0 * 10 + (c as u32 - 48)) as nat),
        number(seq!['+'] + digits) == number(digits),
        index(text) == Some(k) <==> number(text) == Some(k as nat),
{
    let one = seq![c];
    assert(one.drop_last() == Seq::<char>::empty());
    assert(digits_value(one.drop_last()) == 0);
    assert(digits_value(one) == (c as nat - 48) as nat);
    assert(unsigned_part(one) == one);
    assert(all_digits(one));
    assert(unsigned_part(digits) == digits);
    assert(all_digits(digits));
    let more = digits.push(c);
    assert(more.drop_last() == digits);
    assert(unsigned_part(more) == more);
    assert(all_digits(more));
    let signed = seq!['+'] + digits;
    assert(signed.drop_first() == digits);
}

/// White space around a number in decimal notation is trimmed, and nothing of the number.
pub proof fn lemma_trimmed_decimal(before: Seq<char>, n: nat, after: Seq<char>)
    requires
        forall|i: int| 0 <= i < before.len() ==> white_space(#[trigger] before[i]),
        forall|i: int| 0 <= i < after.len() ==> white_space(#[trigger] after[i]),
    ensures
        trimmed(before + decimal(n) + after) == decimal(n),
{
    let text = before + decimal(n) + after;
    lemma_decimal_digits(n);
    let (start, end) = lemma_trimmed_is_the_middle(text);
    let first = before.len() as int;
    let last = first + decimal(n).len() - 1;
    assert(text[first] == decimal(n)[0]);
    assert(text[last] == decimal(n)[last - first]);
    assert(start <= first && last < end);
    assert(trimmed(text).first() == text[start]);
    assert(trimmed(text).last() == text[end - 1]);
    if start < first {
        assert(text[start] == before[start]);
    }
    if end - 1 > last {
        assert(text[end - 1] == after[end - 1 - last - 1]);
    }
    assert(text.subrange(first, last + 1) == decimal(n));
}

// Hexadecimal numbers
/// The character of a hexadecimal digit, in capital or in small letters.
pub open spec fn hex_char(d: nat, capital: bool) -> char {
    if d < 10 {
        (48 + d) as char
    } else if capital {
        (55 + d) as char
    } else {
        (87 + d) as char
    }
}

/// The last `len` hexadecimal digits of a number.
pub open spec fn hex(n: nat, len: nat, capital: bool) -> Seq<char>
    decreases len,
{
    if len == 0 {
        Seq::empty()
    } else {
        hex(n / 16, (len - 1) as nat, capital).push(hex_char(n % 16, capital))
    }
}

/// Writes the last `len` digits of a number in capital hexadecimal notation.
pub fn hex_text(n: u128, len: usize) -> (text: String)
    ensures
        text@ == hex(n as nat, len as nat, true),
    decreases len,
{
    if len == 0 {
        return String::new();
    }
    let mut text = hex_text(n / 16, len - 1);
    let d: u8 = (n % 16) as u8;
    if d < 10 {
        text.push((48 + d) as char);
    } else {
        text.push((55 + d) as char);
    }
    text
}

/// The value of a hexadecimal digit in capital letters.
pub open spec fn hex_digit_value(c: char) -> nat {
    if c <= '9' {
        (c as nat - 48) as nat
    } else {
        (c as nat - 55) as nat
    }
}

/// The number that a run of capital hexadecimal digits stands for.
pub open spec fn hex_value(digits: Seq<char>) -> nat
    decreases digits.len(),
{
    if digits.len() == 0 {
        0
    } else {
        hex_value(digits.drop_last()) * 16 + hex_digit_value(digits.last())
    }
}

/// Whether a character is a capital hexadecimal digit.
pub open spec fn is_hex_digit(c: char) -> bool {
    '0' <= c <= '9' || 'A' <= c <= 'F'
}

/// The digits of a number in hexadecimal notation are what the number holds of each power of
/// sixteen, the highest first.
pub proof fn lemma_hex_by_place(n: nat, len: nat, capital: bool)
    ensures
        hex(n, len, capital).len() == len,
        forall|i: int|
            #![trigger hex(n, len, capital)[i]]
            0 <= i < len ==> {
                let d = n as int / pow(16, (len - 1 - i) as nat) % 16;
                hex(n, len, capital)[i] as int == if d < 10 {
                    48 + d
                } else if capital {
                    55 + d
                } else {
                    87 + d
                }
            },
    decreases len,
{
    reveal(pow);
    if len > 0 {
        let before = hex(n / 16, (len - 1) as nat, capital);
        let digits = hex(n, len, capital);
        lemma_hex_by_place(n / 16, (len - 1) as nat, capital);
        assert(pow(16, 0) == 1);
        assert(n as int / 1 == n);
        assert forall|i: int| 0 <= i < len implies ({
            let d = n as int / pow(16, (len - 1 - i) as nat) % 16;
            (#[trigger] digits[i]) as int == if d < 10 {
                48 + d
            } else if capital {
                55 + d
            } else {
                87 + d
            }
        }) by {
            if i < len - 1 {
                let p = pow(16, (len - 2 - i) as nat);
                assert(digits[i] == before[i]);
                assert(pow(16, (len - 1 - i) as nat) == 16 * p);
                lemma_pow_positive(16, (len - 2 - i) as nat);
                vstd::arithmetic::div_mod::lemma_div_denominator(n as int, 16, p);
            }
        }
    }
}

/// A number of at most 128 bits takes 32 capital hexadecimal digits, and they give it back.
pub proof fn lemma_hex_round_trip(n: u128)
    ensures
        hex(n as nat, 32, true).len() == 32,
        forall|i: int| 0 <= i < 32 ==> is_hex_digit(#[trigger] hex(n as nat, 32, true)[i]),
        hex_value(hex(n as nat, 32, true)) == n,
{
    lemma_hex_digits(n as nat, 32);
    lemma_pow16();
}

/// A power of sixteen.
pub open spec fn pow16(k: nat) -> nat
    decreases k,
{
    if k == 0 {
        1
    } else {
        16 * pow16((k - 1) as nat)
    }
}

proof fn lemma_pow16()
    ensures
        pow16(32) == u128::MAX + 1,
{
    reveal_with_fuel(pow16, 33);
}

proof fn lemma_hex_digits(n: nat, len: nat)
    ensures
        hex(n, len, true).len() == len,
        forall|i: int| 0 <= i < len ==> is_hex_digit(#[trigger] hex(n, len, true)[i]),
        n < pow16(len) ==> hex_value(hex(n, len, true)) == n,
    decreases len,
{
    if len > 0 {
        lemma_hex_digits(n / 16, (len - 1) as nat);
        assert(hex(n, len, true).drop_last() == hex(n / 16, (len - 1) as nat, true));
    }
}

} // verus!
