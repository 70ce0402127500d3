//! Characters, decimal numerals, and the search for a character in a text.

use vstd::prelude::*;
use vstd::string::StringExecFns;

verus! {

/// Whether `c` is one of the ten decimal digits.
pub open spec fn is_digit(c: char) -> bool {
    '0' <= c <= '9'
}

/// The number that the digit `c` stands for.
pub open spec fn digit_value(c: char) -> int {
    c as int - '0' as int
}

/// The character that writes the digit `d`.
pub open spec fn digit_char(d: int) -> char {
    ('0' as int + d) as char
}

/// Whether `s` is a non-empty run of decimal digits.
pub open spec fn is_numeral(s: Seq<char>) -> bool {
    s.len() > 0 && forall|i: int| 0 <= i < s.len() ==> is_digit(#[trigger] s[i])
}

/// The number that a run of decimal digits writes, most significant digit first.
pub open spec fn numeral_value(s: Seq<char>) -> int
    decreases s.len(),
{
    if s.len() == 0 {
        0
    } else {
        10 * numeral_value(s.drop_last()) + digit_value(s.last())
    }
}

/// The `i32` that the run of digits `digits` writes, negated where `negative` is set. `None`
/// where `digits` is not a run of digits, or the number does not fit.
pub open spec fn numeral_i32(negative: bool, digits: Seq<char>) -> Option<i32> {
    let value = if negative {
        -numeral_value(digits)
    } else {
        numeral_value(digits)
    };
    if is_numeral(digits) && i32::MIN <= value <= i32::MAX {
        Some(value as i32)
    } else {
        None
    }
}

/// The `i32` that `s` writes in decimal: an optional `+` or `-`, then at least one digit and
/// nothing else, no space either. `None` for any other text, and for a number that does not
/// fit.
pub open spec fn parse_i32(s: Seq<char>) -> Option<i32> {
    if s.len() > 0 && (s[0] == '-' || s[0] == '+') {
        numeral_i32(s[0] == '-', s.drop_first())
    } else {
        numeral_i32(false, s)
    }
}

/// The decimal numeral of `n`: no sign, and no leading zero except for zero itself.
pub open spec fn decimal_text(n: nat) -> Seq<char>
    decreases n,
{
    if n < 10 {
        seq![digit_char(n as int)]
    } else {
        decimal_text(n / 10).push(digit_char((n % 10) as int))
    }
}

/// A run of digits never writes a negative number.
pub proof fn lemma_numeral_value_nonnegative(s: Seq<char>)
    requires
        forall|i: int| 0 <= i < s.len() ==> is_digit(#[trigger] s[i]),
    ensures
        0 <= numeral_value(s),
    decreases s.len(),
{
    if s.len() > 0 {
        lemma_numeral_value_nonnegative(s.drop_last());
        assert(is_digit(s[s.len() - 1]));
    }
}

/// A run of digits is worth at least as much as any of its leading parts.
pub proof fn lemma_numeral_value_grows(s: Seq<char>, k: int)
    requires
        0 <= k <= s.len(),
        forall|i: int| 0 <= i < s.len() ==> is_digit(#[trigger] s[i]),
    ensures
        0 <= numeral_value(s.take(k)) <= numeral_value(s),
    decreases s.len() - k,
{
    if k == s.len() {
        assert(s.take(k) =~= s);
        lemma_numeral_value_nonnegative(s);
    } else {
        lemma_numeral_value_grows(s, k + 1);
        assert(s.take(k + 1).drop_last() =~= s.take(k));
        assert(is_digit(s[k]));
        lemma_numeral_value_nonnegative(s.take(k));
    }
}

/// The decimal numeral of a number is a run of digits that writes this number: it reads back
/// as the number it was written from, and it holds no `-`.
pub proof fn lemma_decimal_text_reads_back(n: nat)
    ensures
        is_numeral(decimal_text(n)),
        numeral_value(decimal_text(n)) == n,
        n <= i32::MAX ==> parse_i32(decimal_text(n)) == Some(n as i32),
        !decimal_text(n).contains('-'),
    decreases n,
{
    let text = decimal_text(n);
    if n < 10 {
        assert(text.drop_last() =~= Seq::<char>::empty());
        assert(numeral_value(text) == 10 * numeral_value(text.drop_last()) + digit_value(
            text.last(),
        ));
    } else {
        lemma_decimal_text_reads_back(n / 10);
        let shorter = decimal_text(n / 10);
        assert(text.drop_last() =~= shorter);
        assert forall|i: int| 0 <= i < text.len() implies is_digit(#[trigger] text[i]) by {
            if i < shorter.len() {
                assert(text[i] == shorter[i]);
            }
        }
    }
    assert(is_digit(text[0]));
}

/// Collects the characters of `s` into a vector, in order.
pub fn chars_of(s: &str) -> (out: Vec<char>)
    ensures
        out@ == s@,
{
    let mut out: Vec<char> = Vec::new();
    for c in it: s.chars()
        invariant
            out@ == it.seq().take(it.index()),
    {
        out.push(c);
    }
    out
}

/// Finds where `c` first stands in `chars`.
pub fn first_index_of(chars: &[char], c: char) -> (found: Option<usize>)
    ensures
        match found {
            Some(i) => chars@.index_of_first(c) == Some(i as int) && i < chars.len(),
            None => chars@.index_of_first(c) is None,
        },
        found is Some <==> chars@.contains(c),
{
    let n: usize = chars.len();
    let mut i: usize = 0;
    while i < n
        invariant
            n == chars@.len(),
            i <= n,
            forall|j: int| 0 <= j < i ==> chars@[j] != c,
        decreases n - i,
    {
        if chars[i] == c {
            proof {
                chars@.index_of_first_ensures(c);
            }
            return Some(i);
        }
        i += 1;
    }
    proof {
        chars@.index_of_first_ensures(c);
    }
    None
}

/// Finds where `c` last stands in `chars`.
pub fn last_index_of(chars: &[char], c: char) -> (found: Option<usize>)
    ensures
        match found {
            Some(i) => chars@.index_of_last(c) == Some(i as int) && i < chars.len(),
            None => chars@.index_of_last(c) is None,
        },
        found is Some <==> chars@.contains(c),
{
    let n: usize = chars.len();
    let mut i: usize = n;
    while i > 0
        invariant
            n == chars@.len(),
            i <= n,
            forall|j: int| i <= j < n ==> chars@[j] != c,
        decreases i,
    {
        i -= 1;
        if chars[i] == c {
            proof {
                chars@.index_of_last_ensures(c);
            }
            return Some(i);
        }
    }
    proof {
        chars@.index_of_last_ensures(c);
    }
    None
}

/// Reads `text` as a decimal `i32`: an optional sign, then digits only, at least one.
pub fn parse_decimal(text: &str) -> (parsed: Option<i32>)
    ensures
        parsed == parse_i32(text@),
{
    let chars: Vec<char> = chars_of(text);
    let n: usize = chars.len();
    if n == 0 {
        return None;
    }
    let negative: bool = chars[0] == '-';
    let start: usize = if negative || chars[0] == '+' {
        1
    } else {
        0
    };
    let ghost digits = chars@.subrange(start as int, n as int);
    proof {
        if start == 1 {
            assert(digits =~= text@.drop_first());
        } else {
            assert(digits =~= text@);
        }
        if is_numeral(digits) {
            lemma_numeral_value_nonnegative(digits);
        }
    }
    if start == n {
        return None;
    }
    // The magnitude is given up as soon as it passes 2^31: from there on no sign makes it fit.
    let mut magnitude: i64 = 0;
    let mut i: usize = start;
    while i < n
        invariant
            n == chars@.len(),
            start <= i <= n,
            start < n,
            digits == chars@.subrange(start as int, n as int),
            parse_i32(text@) == numeral_i32(negative, digits),
            forall|j: int| 0 <= j < i - start ==> is_digit(#[trigger] digits[j]),
            magnitude == numeral_value(digits.take(i - start)),
            0 <= magnitude <= 0x8000_0000,
        decreases n - i,
    {
        let c: char = chars[i];
        assert(digits[i - start] == c);
        if !('0' <= c && c <= '9') {
            return None;
        }
        let digit: i64 = (c as u32 - '0' as u32) as i64;
        proof {
            assert(digits.take(i - start + 1).drop_last() =~= digits.take(i - start));
        }
        magnitude = magnitude * 10 + digit;
        if magnitude > 0x8000_0000 {
            proof {
                if is_numeral(digits) {
                    lemma_numeral_value_grows(digits, i - start + 1);
                }
            }
            return None;
        }
        i += 1;
    }
    proof {
        assert(digits.take(n - start) =~= digits);
    }
    if negative {
        Some((-magnitude) as i32)
    } else if magnitude <= 0x7fff_ffff {
        Some(magnitude as i32)
    } else {
        None
    }
}

/// The one-character text of a single digit.
fn digit_text(d: u32) -> (text: &'static str)
    requires
        d < 10,
    ensures
        text@ == seq![digit_char(d as int)],
{
    proof {
        reveal_strlit("0");
        reveal_strlit("1");
        reveal_strlit("2");
        reveal_strlit("3");
        reveal_strlit("4");
        reveal_strlit("5");
        reveal_strlit("6");
        reveal_strlit("7");
        reveal_strlit("8");
        reveal_strlit("9");
    }
    let text: &'static str = match d {
        0 => "0",
        1 => "1",
        2 => "2",
        3 => "3",
        4 => "4",
        5 => "5",
        6 => "6",
        7 => "7",
        8 => "8",
        _ => "9",
    };
    assert(text@ =~= seq![digit_char(d as int)]);
    text
}

/// Writes `n` in decimal.
pub fn decimal_label(n: u32) -> (label: String)
    ensures
        label@ == decimal_text(n as nat),
    decreases n,
{
    if n < 10 {
        String::from_str(digit_text(n))
    } else {
        let mut label: String = decimal_label(n / 10);
        label.append(digit_text(n % 10));
        label
    }
}

} // verus!
