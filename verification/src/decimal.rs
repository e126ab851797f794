//! Decimal notation for identifiers: writing a number and reading one.

use vstd::prelude::*;

verus! {

/// The character that writes the digit `d`.
pub open spec fn digit_char(d: nat) -> char
    recommends
        d < 10,
{
    ('0' as nat + d) as char
}

/// The decimal notation of `n`: no sign, no leading zero, `"0"` for zero.
pub open spec fn decimal(n: nat) -> Seq<char>
    decreases n,
{
    if n < 10 {
        seq![digit_char(n)]
    } else {
        decimal(n / 10).push(digit_char(n % 10))
    }
}

/// The digit `d` as a text of one character.
fn digit_str(d: usize) -> (s: &'static str)
    requires
        d < 10,
    ensures
        s@ == seq![digit_char(d as nat)],
{
    proof {
        reveal_strlit("0");
        reveal_strlit("1");
        reveal_strlit("2");
        reveal_strlit("3");
        reveal_strlit("4");
        reveal_strlit("5");
        reveal_strlit("6");
        reveal_strlit("7");
        reveal_strlit("8");
        reveal_strlit("9");
    }
    match d {
        0 => "0",
        1 => "1",
        2 => "2",
        3 => "3",
        4 => "4",
        5 => "5",
        6 => "6",
        7 => "7",
        8 => "8",
        _ => "9",
    }
}

/// Appends the decimal notation of `n` to `out`.
pub fn append_decimal(out: &mut String, n: usize)
    ensures
        final(out)@ == old(out)@ + decimal(n as nat),
    decreases n,
{
    if n >= 10 {
        append_decimal(out, n / 10);
    }
    out.append(digit_str(n % 10));
}

/// The decimal notation of `n` as a string.
pub fn to_decimal(n: usize) -> (text: String)
    ensures
        text@ == decimal(n as nat),
{
    let mut text = String::new();
    append_decimal(&mut text, n);
    text
}

/// Whether `c` is one of the ten decimal digits.
pub open spec fn is_digit(c: char) -> bool {
    '0' <= c <= '9'
}

/// The number that the digit `c` stands for.
pub open spec fn digit_value(c: char) -> nat
    recommends
        is_digit(c),
{
    (c as nat - '0' as nat) as nat
}

/// Whether `s` holds decimal digits only.
pub open spec fn all_digits(s: Seq<char>) -> bool {
    forall|i: int| 0 <= i < s.len() ==> is_digit(#[trigger] s[i])
}

/// The number that a run of decimal digits writes, most significant digit first.
pub open spec fn decimal_value(s: Seq<char>) -> nat
    decreases s.len(),
{
    if s.len() == 0 {
        0
    } else {
        10 * decimal_value(s.drop_last()) + digit_value(s.last())
    }
}

/// What is left of `s` once a leading `+` is taken off.
pub open spec fn unsigned_part(s: Seq<char>) -> Seq<char> {
    if s.len() > 0 && s[0] == '+' {
        s.drop_first()
    } else {
        s
    }
}

/// The number that `s` writes, if it writes one that fits the machine word: an optional `+`,
/// then one or more decimal digits and nothing else. Leading zeros are allowed.
pub open spec fn parse_decimal(s: Seq<char>) -> Option<nat> {
    let digits = unsigned_part(s);
    if digits.len() > 0 && all_digits(digits) && decimal_value(digits) <= usize::MAX {
        Some(decimal_value(digits))
    } else {
        None
    }
}

/// The decimal notation of a number consists of digits, at least one, and writes that
/// number.
pub proof fn lemma_decimal_is_digits(n: nat)
    ensures
        decimal(n).len() > 0,
        all_digits(decimal(n)),
        decimal_value(decimal(n)) == n,
    decreases n,
{
    let text = decimal(n);
    if n < 10 {
        assert(text.drop_last() =~= Seq::<char>::empty());
        assert(digit_value(text.last()) == n);
    } else {
        lemma_decimal_is_digits(n / 10);
        assert(text.drop_last() =~= decimal(n / 10));
        assert(digit_value(text.last()) == n % 10);
    }
    assert(decimal_value(text) == 10 * decimal_value(text.drop_last()) + digit_value(text.last()));
}

/// Reading the decimal notation of a number that fits the machine word gives the number
/// back: an identifier can be typed in as the list shows it.
pub proof fn lemma_decimal_reads_back(n: nat)
    requires
        n <= usize::MAX,
    ensures
        parse_decimal(decimal(n)) == Some(n),
{
    lemma_decimal_is_digits(n);
}

/// A longer run of digits writes a number at least as large as each of its prefixes.
proof fn lemma_decimal_value_grows(s: Seq<char>, k: int)
    requires
        0 <= k <= s.len(),
    ensures
        decimal_value(s.take(k)) <= decimal_value(s),
    decreases s.len(),
{
    if k < s.len() {
        lemma_decimal_value_grows(s.drop_last(), k);
        assert(s.drop_last().take(k) =~= s.take(k));
    } else {
        assert(s.take(k) =~= s);
    }
}

/// A text with a character outside ASCII writes no number.
proof fn lemma_only_ascii_parses(s: Seq<char>)
    requires
        !vstd::utf8::is_ascii_chars(s),
    ensures
        parse_decimal(s) is None,
{
    let i = choose|i: int| 0 <= i < s.len() && !('\0' <= #[trigger] s[i] <= '\u{7f}');
    let digits = unsigned_part(s);
    if s[0] == '+' {
        assert(!is_digit(digits[i - 1]));
    } else {
        assert(!is_digit(digits[i]));
    }
}

/// Reads a number in decimal notation: an optional `+`, then digits. Anything else, and a
/// number that does not fit the machine word, gives `None`.
pub fn parse_usize(text: &str) -> (number: Option<usize>)
    ensures
        match number {
            Some(n) => parse_decimal(text@) == Some(n as nat),
            None => parse_decimal(text@) is None,
        },
{
    if !text.is_ascii() {
        proof {
            lemma_only_ascii_parses(text@);
        }
        return None;
    }
    let bytes = text.as_bytes();
    proof {
        vstd::string::is_ascii_spec_bytes(text);
    }
    let len = bytes.len();
    let start: usize = if len > 0 && bytes[0] == '+' as u8 {
        1
    } else {
        0
    };
    let ghost digits = unsigned_part(text@);
    if start == len {
        return None;
    }
    let mut value: usize = 0;
    let mut i: usize = start;
    while i < len
        invariant
            start <= i <= len,
            len == text@.len(),
            len == bytes@.len(),
            forall|k: int| 0 <= k < len ==> bytes@[k] == (#[trigger] text@[k]) as u8,
            forall|k: int| 0 <= k < len ==> '\0' <= (#[trigger] text@[k]) <= '\u{7f}',
            digits == unsigned_part(text@),
            digits.len() == len - start,
            forall|k: int| 0 <= k < digits.len() ==> digits[k] == text@[start + k],
            all_digits(digits.take(i - start)),
            value == decimal_value(digits.take(i - start)),
        decreases len - i,
    {
        let b = bytes[i];
        assert(digits.take(i + 1 - start).drop_last() =~= digits.take(i - start));
        if !('0' as u8 <= b && b <= '9' as u8) {
            assert(!is_digit(digits[i - start]));
            return None;
        }
        let d: usize = (b - '0' as u8) as usize;
        let scaled = match value.checked_mul(10) {
            Some(v) => v,
            None => {
                proof {
                    lemma_decimal_value_grows(digits, i + 1 - start);
                }
                return None;
            },
        };
        value = match scaled.checked_add(d) {
            Some(v) => v,
            None => {
                proof {
                    lemma_decimal_value_grows(digits, i + 1 - start);
                }
                return None;
            },
        };
        i += 1;
    }
    assert(digits.take(len - start) =~= digits);
    Some(value)
}

} // verus!
