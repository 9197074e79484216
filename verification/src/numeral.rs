//! Integers as text: what a run of digits denotes, how a number is written
//! in binary and in decimal, and that reading gives back what was written.

use vstd::arithmetic::power2::lemma2_to64;
use vstd::arithmetic::power2::lemma_pow2_unfold;
use vstd::arithmetic::power2::pow2;
use vstd::prelude::*;
use vstd::string::StringExecFns;

verus! {

/// The ASCII code of `-`.
const MINUS: u8 = 45;

/// The ASCII code of `+`.
const PLUS: u8 = 43;

/// The ASCII code of `0`.
const ZERO: u8 = 48;

/// The ASCII code of `9`.
const NINE: u8 = 57;

/// `c` is one of the ten ASCII digits.
pub open spec fn is_digit(c: char) -> bool {
    '0' <= c <= '9'
}

/// The number that the ASCII digit `c` stands for.
pub open spec fn digit_value(c: char) -> int {
    c as int - '0' as int
}

/// The ASCII digit for `d`, where `0 <= d <= 9`.
pub open spec fn digit_char(d: int) -> char {
    (d + '0' as int) as char
}

/// Every character of `s` is an ASCII digit.
pub open spec fn all_digits(s: Seq<char>) -> bool {
    forall|i: int| 0 <= i < s.len() ==> is_digit(#[trigger] s[i])
}

/// The number that a run of digits denotes in the given base; 0 for the
/// empty run.
pub open spec fn numeral_value(s: Seq<char>, base: int) -> int
    decreases s.len(),
{
    if s.len() == 0 {
        0
    } else {
        numeral_value(s.drop_last(), base) * base + digit_value(s.last())
    }
}

/// The number that a run of digits denotes in base ten.
pub open spec fn digits_value(s: Seq<char>) -> int {
    numeral_value(s, 10)
}

/// The text starts with a sign character.
pub open spec fn has_sign(text: Seq<char>) -> bool {
    text.len() > 0 && (text[0] == '-' || text[0] == '+')
}

/// The text without its sign character, if it has one.
pub open spec fn unsigned_part(text: Seq<char>) -> Seq<char> {
    if has_sign(text) {
        text.subrange(1, text.len() as int)
    } else {
        text
    }
}

/// The integer that a decimal text denotes: an optional `+` or `-`, then one
/// or more ASCII digits and nothing else. Leading zeros are allowed. `None`
/// for any other text.
pub open spec fn decimal_value(text: Seq<char>) -> Option<int> {
    let digits = unsigned_part(text);
    if digits.len() == 0 || !all_digits(digits) {
        None
    } else if text[0] == '-' {
        Some(-digits_value(digits))
    } else {
        Some(digits_value(digits))
    }
}

/// The signed 64-bit integer that a decimal text denotes; `None` where the
/// text denotes no integer, or one outside the 64-bit range.
pub open spec fn parsed_i64(text: Seq<char>) -> Option<i64> {
    match decimal_value(text) {
        Some(v) => if i64::MIN <= v <= i64::MAX {
            Some(v as i64)
        } else {
            None
        },
        None => None,
    }
}

/// The shortest text of `n` in a base from 2 to 10: no sign, no leading zero
/// but for 0 itself.
pub open spec fn numeral(n: nat, base: nat) -> Seq<char>
    decreases n,
    when base >= 2
    via numeral_decreases
{
    if n < base {
        seq![digit_char(n as int)]
    } else {
        numeral(n / base, base).push(digit_char((n % base) as int))
    }
}

#[via_fn]
proof fn numeral_decreases(n: nat, base: nat) {
    if n >= base {
        lemma_quotient_smaller(n, base);
    }
}

/// Division by 2 or more makes a positive number smaller.
proof fn lemma_quotient_smaller(n: nat, base: nat)
    requires
        base >= 2,
        n > 0,
    ensures
        n / base < n,
{
    assert(n / base < n) by (nonlinear_arith)
        requires
            base >= 2,
            n > 0,
    ;
}

/// The shortest decimal text of `n`.
pub open spec fn decimal_text(n: nat) -> Seq<char> {
    numeral(n, 10)
}

/// The shortest binary text of `n`.
pub open spec fn binary_text(n: nat) -> Seq<char> {
    numeral(n, 2)
}

/// The lowest `width` bits of `n` as binary text of exactly `width` digits,
/// leading zeros included.
pub open spec fn binary_field(n: nat, width: nat) -> Seq<char>
    decreases width,
{
    if width == 0 {
        Seq::empty()
    } else {
        binary_field(n / 2, (width - 1) as nat).push(digit_char((n % 2) as int))
    }
}

/// `text` with zeros put before it up to `width` characters; `text` itself
/// where it is no shorter than that.
pub open spec fn zero_padded(text: Seq<char>, width: nat) -> Seq<char> {
    if text.len() >= width {
        text
    } else {
        Seq::new((width - text.len()) as nat, |i: int| '0') + text
    }
}

/// A run of digits denotes at least what any of its prefixes denotes.
proof fn lemma_prefix_value(s: Seq<char>, k: int)
    requires
        all_digits(s),
        0 <= k <= s.len(),
    ensures
        0 <= digits_value(s.take(k)) <= digits_value(s),
    decreases s.len() - k,
{
    lemma_value_nonnegative(s.take(k));
    if k == s.len() {
        assert(s.take(k) =~= s);
    } else {
        lemma_prefix_value(s, k + 1);
        lemma_value_step(s, k);
    }
}

/// One more digit: ten times what stood before, plus the digit.
proof fn lemma_value_step(s: Seq<char>, k: int)
    requires
        0 <= k < s.len(),
    ensures
        digits_value(s.take(k + 1)) == digits_value(s.take(k)) * 10 + digit_value(s[k]),
{
    assert(s.take(k + 1).drop_last() =~= s.take(k));
}

/// A run of digits denotes no negative number.
proof fn lemma_value_nonnegative(s: Seq<char>)
    requires
        all_digits(s),
    ensures
        0 <= digits_value(s),
    decreases s.len(),
{
    if s.len() > 0 {
        lemma_value_nonnegative(s.drop_last());
    }
}

/// Reads a signed 64-bit integer from its decimal text.
pub fn parse_i64(s: &str) -> (r: Option<i64>)
    ensures
        r == parsed_i64(s@),
{
    broadcast use vstd::string::is_ascii_spec_bytes;

    if !s.is_ascii() {
        proof {
            let j: int = choose|j: int| 0 <= j < s@.len() && !('\0' <= #[trigger] s@[j] <= '\u{7f}');
            if j > 0 && has_sign(s@) {
                assert(!is_digit(unsigned_part(s@)[j - 1]));
            }
        }
        return None;
    }
    let bytes: &[u8] = s.as_bytes();
    let n: usize = bytes.len();
    assert(forall|j: int| 0 <= j < n ==> #[trigger] bytes@[j] == s@[j] as u8);
    if n == 0 {
        return None;
    }
    let first: u8 = bytes[0];
    let negative: bool = first == MINUS;
    let start: usize = if first == MINUS || first == PLUS {
        1
    } else {
        0
    };
    let limit: u64 = if negative {
        0x8000_0000_0000_0000
    } else {
        0x7FFF_FFFF_FFFF_FFFF
    };
    let ghost digits: Seq<char> = unsigned_part(s@);
    if start == n {
        return None;
    }
    let mut magnitude: u64 = 0;
    let mut i: usize = start;
    while i < n
        invariant
            s.is_ascii(),
            n == s@.len(),
            n == bytes@.len(),
            forall|j: int| 0 <= j < n ==> #[trigger] bytes@[j] == s@[j] as u8,
            start <= i <= n,
            digits == unsigned_part(s@),
            digits =~= s@.subrange(start as int, n as int),
            negative <==> s@[0] == '-',
            limit == if negative {
                0x8000_0000_0000_0000u64
            } else {
                0x7FFF_FFFF_FFFF_FFFFu64
            },
            all_digits(digits.take(i - start)),
            magnitude == digits_value(digits.take(i - start)),
            magnitude <= limit,
        decreases n - i,
    {
        let b: u8 = bytes[i];
        let ghost k: int = i - start;
        if b < ZERO || b > NINE {
            assert(!is_digit(digits[k]));
            return None;
        }
        let d: u64 = (b - ZERO) as u64;
        proof {
            lemma_value_step(digits, k);
        }
        if magnitude > (limit - d) / 10 {
            proof {
                if all_digits(digits) {
                    lemma_prefix_value(digits, k + 1);
                }
            }
            return None;
        }
        magnitude = magnitude * 10 + d;
        i = i + 1;
    }
    assert(digits.take(n - start) =~= digits);
    if negative {
        if magnitude == 0x8000_0000_0000_0000 {
            Some(i64::MIN)
        } else {
            Some(-(magnitude as i64))
        }
    } else {
        Some(magnitude as i64)
    }
}

/// The one-character text of a digit.
fn digit_str(d: u64) -> (r: &'static str)
    requires
        d < 10,
    ensures
        r@ == seq![digit_char(d as int)],
{
    proof {
        reveal_strlit("0");
        reveal_strlit("1");
        reveal_strlit("2");
        reveal_strlit("3");
        reveal_strlit("4");
        reveal_strlit("5");
        reveal_strlit("6");
        reveal_strlit("7");
        reveal_strlit("8");
        reveal_strlit("9");
    }
    match d {
        0 => "0",
        1 => "1",
        2 => "2",
        3 => "3",
        4 => "4",
        5 => "5",
        6 => "6",
        7 => "7",
        8 => "8",
        _ => "9",
    }
}

/// Appends the shortest text of `n` in the given base to `out`.
pub fn push_numeral(n: u64, base: u64, out: &mut String)
    requires
        2 <= base <= 10,
    ensures
        final(out)@ == old(out)@ + numeral(n as nat, base as nat),
    decreases n,
{
    if n >= base {
        proof {
            lemma_quotient_smaller(n as nat, base as nat);
        }
        push_numeral(n / base, base, out);
    }
    assert(n < base ==> n % base == n) by (nonlinear_arith)
        requires
            base > 0,
    ;
    out.append(digit_str(n % base));
}

/// The shortest decimal text of `n`.
pub fn decimal_string(n: u64) -> (r: String)
    ensures
        r@ == decimal_text(n as nat),
{
    let mut out = String::new();
    push_numeral(n, 10, &mut out);
    out
}

/// The shortest binary text of `n`.
pub fn binary_string(n: u64) -> (r: String)
    ensures
        r@ == binary_text(n as nat),
{
    let mut out = String::new();
    push_numeral(n, 2, &mut out);
    out
}

/// What is written is what is read: the shortest text of a number in a base
/// is made of digits below the base, starts with no zero unless the number
/// is 0, and denotes that number.
pub proof fn lemma_numeral_value(n: nat, base: nat)
    requires
        2 <= base <= 10,
    ensures
        numeral(n, base).len() > 0,
        forall|i: int|
            0 <= i < numeral(n, base).len() ==> 0 <= digit_value(#[trigger] numeral(n, base)[i])
                < base,
        n > 0 ==> numeral(n, base)[0] != '0',
        numeral_value(numeral(n, base), base as int) == n,
    decreases n,
{
    let text: Seq<char> = numeral(n, base);
    if n < base {
        assert(numeral_value(text.drop_last(), base as int) == 0);
    } else {
        lemma_quotient_smaller(n, base);
        lemma_numeral_value(n / base, base);
        let front: Seq<char> = numeral(n / base, base);
        assert(text.drop_last() =~= front);
        assert(0 <= n % base < base && n == (n / base) * base + n % base) by (nonlinear_arith)
            requires
                base >= 2,
        ;
        assert(n / base > 0) by (nonlinear_arith)
            requires
                n >= base,
                base >= 2,
        ;
        assert forall|i: int| 0 <= i < text.len() implies 0 <= digit_value(#[trigger] text[i])
            < base by {
            if i < front.len() {
                assert(text[i] == front[i]);
            }
        }
    }
}

/// The bits of 0 are zeros.
proof fn lemma_binary_field_of_zero(width: nat)
    ensures
        binary_field(0, width) == Seq::new(width, |i: int| '0'),
    decreases width,
{
    if width > 0 {
        lemma_binary_field_of_zero((width - 1) as nat);
    }
}

/// The shortest binary text of a number below 2^`width` has at most `width`
/// digits, and with zeros before it is the number's `width` lowest bits.
pub proof fn lemma_binary_text_padded(n: nat, width: nat)
    requires
        width >= 1,
        n < pow2(width),
    ensures
        binary_text(n).len() <= width,
        zero_padded(binary_text(n), width) == binary_field(n, width),
    decreases width,
{
    let text: Seq<char> = binary_text(n);
    let rest: nat = (width - 1) as nat;
    lemma_pow2_unfold(width);
    if n < 2 {
        lemma_binary_field_of_zero(rest);
    } else {
        assert(rest >= 1) by {
            if rest == 0 {
                lemma_pow2_unfold(1);
                assert(pow2(0) == 1) by {
                    lemma2_to64();
                }
            }
        }
        lemma_binary_text_padded(n / 2, rest);
        let front: Seq<char> = binary_text(n / 2);
        assert(zero_padded(text, width) =~= zero_padded(front, rest).push(
            digit_char((n % 2) as int),
        ));
    }
}

/// Fields side by side: the bits of `high * 2^width + low`, where `low` is
/// below 2^`width`, are the bits of `high` followed by the `width` bits of
/// `low`.
pub proof fn lemma_binary_field_concat(high: nat, high_width: nat, low: nat, width: nat)
    requires
        low < pow2(width),
    ensures
        binary_field(high * pow2(width) + low, high_width + width) == binary_field(
            high,
            high_width,
        ) + binary_field(low, width),
    decreases width,
{
    let whole: nat = high * pow2(width) + low;
    if width == 0 {
        assert(pow2(0) == 1) by {
            lemma2_to64();
        }
        assert(binary_field(high, high_width) + binary_field(low, 0) =~= binary_field(
            high,
            high_width,
        ));
    } else {
        let rest: nat = (width - 1) as nat;
        lemma_pow2_unfold(width);
        assert(high * pow2(width) == 2 * (high * pow2(rest))) by (nonlinear_arith)
            requires
                pow2(width) == 2 * pow2(rest),
        ;
        lemma_binary_field_concat(high, high_width, low / 2, rest);
        assert(whole / 2 == high * pow2(rest) + low / 2);
        assert(whole % 2 == low % 2);
        assert(binary_field(whole, high_width + width) =~= binary_field(high, high_width)
            + binary_field(low, width));
    }
}

/// The shortest decimal text of a number is read back as that number.
pub proof fn lemma_decimal_round_trip(n: nat)
    ensures
        decimal_value(decimal_text(n)) == Some(n as int),
{
    lemma_numeral_value(n, 10);
    let text: Seq<char> = decimal_text(n);
    assert forall|i: int| 0 <= i < text.len() implies is_digit(#[trigger] text[i]) by {
        assert(0 <= digit_value(text[i]) < 10);
    }
}

} // verus!
