//! Numbers written out as text and read back.
use vstd::prelude::*;
use vstd::slice::slice_subrange;
use vstd::string::*;

use crate::text::chars_of;

verus! {

/// The character of one digit, in lower case from ten on.
pub open spec fn digit_char(d: nat) -> char
    recommends
        d < 16,
{
    if d < 10 {
        (48 + d) as char
    } else {
        (87 + d) as char
    }
}

/// The digits of `n` in the given base, without leading zeros.
pub open spec fn digits(n: nat, base: nat) -> Seq<char>
    decreases n,
{
    if base < 2 || n < base {
        seq![digit_char(n)]
    } else {
        proof {
            assert(n / base < n) by (nonlinear_arith)
                requires
                    2 <= base <= n,
            ;
        }
        digits(n / base, base).push(digit_char(n % base))
    }
}

/// The last `width` digits of `n` in the given base, with leading zeros.
pub open spec fn fixed_digits(n: nat, base: nat, width: nat) -> Seq<char>
    decreases width,
{
    if width == 0 {
        Seq::empty()
    } else {
        fixed_digits(n / base, base, (width - 1) as nat).push(digit_char(n % base))
    }
}

/// `n` in decimal.
pub open spec fn decimal(n: int) -> Seq<char> {
    if n < 0 {
        seq!['-'] + digits((-n) as nat, 10)
    } else {
        digits(n as nat, 10)
    }
}

/// Two lower-case hexadecimal digits for each byte.
pub open spec fn hex_of(bytes: Seq<u8>) -> Seq<char>
    decreases bytes.len(),
{
    if bytes.len() == 0 {
        Seq::empty()
    } else {
        hex_of(bytes.drop_last()) + fixed_digits(bytes.last() as nat, 16, 2)
    }
}

/// The number that a row of decimal digits stands for.
pub open spec fn digits_value(s: Seq<char>) -> nat
    decreases s.len(),
{
    if s.len() == 0 {
        0
    } else {
        digits_value(s.drop_last()) * 10 + (s.last() as nat - 48) as nat
    }
}

/// Whether every character is a decimal digit.
pub open spec fn all_digits(s: Seq<char>) -> bool {
    forall|i: int| 0 <= i < s.len() ==> '0' <= #[trigger] s[i] <= '9'
}

/// Without a leading plus sign.
pub open spec fn without_plus(s: Seq<char>) -> Seq<char> {
    if s.len() > 0 && s[0] == '+' {
        s.subrange(1, s.len() as int)
    } else {
        s
    }
}

/// The unsigned 64-bit number that `s` writes out: decimal digits after an
/// optional plus sign. Nothing else is a number, nor is one that does not fit.
pub open spec fn read_u64(s: Seq<char>) -> Option<u64> {
    let d = without_plus(s);
    if d.len() > 0 && all_digits(d) && digits_value(d) <= u64::MAX {
        Some(digits_value(d) as u64)
    } else {
        None
    }
}

/// A longer row of digits does not stand for a smaller number.
proof fn lemma_digits_value_grows(s: Seq<char>, i: int)
    requires
        0 <= i <= s.len(),
    ensures
        digits_value(s.take(i)) <= digits_value(s),
    decreases s.len(),
{
    if i == s.len() {
        assert(s.take(i) =~= s);
    } else {
        assert(s.drop_last().take(i) =~= s.take(i));
        lemma_digits_value_grows(s.drop_last(), i);
    }
}

/// Whether a character is a decimal digit or one of the letters that stand for
/// the digits from ten to fifteen.
pub open spec fn is_digit_char(c: char) -> bool {
    '0' <= c <= '9' || 'a' <= c <= 'f'
}

/// Numbers are written in digits only.
pub proof fn lemma_digit_chars(n: nat, base: nat)
    requires
        2 <= base <= 16,
    ensures
        forall|i: int| 0 <= i < digits(n, base).len() ==> is_digit_char(#[trigger] digits(n, base)[i]),
    decreases n,
{
    if n >= base {
        assert(n / base < n) by (nonlinear_arith)
            requires
                2 <= base <= n,
        ;
        assert(n % base < base) by (nonlinear_arith)
            requires
                2 <= base,
        ;
        lemma_digit_chars(n / base, base);
        assert(digits(n, base) == digits(n / base, base).push(digit_char(n % base)));
    } else {
        assert(digits(n, base) == seq![digit_char(n)]);
    }
}

/// Rows of digits of a given width hold digits only.
pub proof fn lemma_fixed_digit_chars(n: nat, base: nat, width: nat)
    requires
        2 <= base <= 16,
    ensures
        fixed_digits(n, base, width).len() == width,
        forall|i: int|
            0 <= i < width ==> is_digit_char(#[trigger] fixed_digits(n, base, width)[i]),
    decreases width,
{
    if width > 0 {
        assert(n % base < base) by (nonlinear_arith)
            requires
                2 <= base,
        ;
        lemma_fixed_digit_chars(n / base, base, (width - 1) as nat);
    }
}

/// Different digits have different characters.
proof fn lemma_digit_char(a: nat, b: nat)
    requires
        a < 16,
        b < 16,
        digit_char(a) == digit_char(b),
    ensures
        a == b,
{
    assert(digit_char(a) as int == if a < 10 {
        48 + a
    } else {
        87 + a
    });
    assert(digit_char(b) as int == if b < 10 {
        48 + b
    } else {
        87 + b
    });
}

/// Different numbers are written differently.
pub proof fn lemma_digits_differ(a: nat, b: nat, base: nat)
    requires
        2 <= base <= 16,
        digits(a, base) == digits(b, base),
    ensures
        a == b,
    decreases a,
{
    let s = digits(a, base);
    let t = digits(b, base);
    lemma_digits_len(a, base);
    lemma_digits_len(b, base);
    if a < base || b < base {
        assert(a < base && b < base);
        assert(s == seq![digit_char(a)] && t == seq![digit_char(b)]);
        assert(s[0] == t[0]);
        lemma_digit_char(a, b);
    } else {
        assert(a / base < a && a % base < base && b % base < base) by (nonlinear_arith)
            requires
                2 <= base <= a,
        ;
        assert(s == digits(a / base, base).push(digit_char(a % base)));
        assert(t == digits(b / base, base).push(digit_char(b % base)));
        assert(s.last() == digit_char(a % base) && t.last() == digit_char(b % base));
        assert(s.drop_last() =~= digits(a / base, base));
        assert(t.drop_last() =~= digits(b / base, base));
        lemma_digits_differ(a / base, b / base, base);
        lemma_digit_char(a % base, b % base);
        assert(a == (a / base) * base + a % base) by (nonlinear_arith)
            requires
                base >= 2,
        ;
        assert(b == (b / base) * base + b % base) by (nonlinear_arith)
            requires
                base >= 2,
        ;
    }
}

/// A number has one digit if it is below the base, and more otherwise.
proof fn lemma_digits_len(n: nat, base: nat)
    requires
        2 <= base,
    ensures
        digits(n, base).len() >= 1,
        digits(n, base).len() == 1 <==> n < base,
    decreases n,
{
    if n >= base {
        assert(n / base < n) by (nonlinear_arith)
            requires
                2 <= base <= n,
        ;
        lemma_digits_len(n / base, base);
    }
}

/// `hex_of` gives two characters for each byte.
pub proof fn lemma_hex_len(bytes: Seq<u8>)
    ensures
        hex_of(bytes).len() == 2 * bytes.len(),
    decreases bytes.len(),
{
    reveal_with_fuel(fixed_digits, 3);
    if bytes.len() > 0 {
        lemma_hex_len(bytes.drop_last());
    }
}

/// The character of one digit.
fn digit(d: u8) -> (r: char)
    requires
        d < 16,
    ensures
        r == digit_char(d as nat),
{
    if d < 10 {
        (48 + d) as char
    } else {
        (87 + d) as char
    }
}

/// Appends the digits of `n` in the given base.
pub fn push_digits(out: &mut String, n: u128, base: u128)
    requires
        2 <= base <= 16,
    ensures
        final(out)@ == old(out)@ + digits(n as nat, base as nat),
    decreases n,
{
    if n >= base {
        proof {
            assert(n / base < n) by (nonlinear_arith)
                requires
                    2 <= base <= n,
            ;
        }
        push_digits(out, n / base, base);
    }
    let d: u128 = n % base;
    let ghost before = out@;
    out.push(digit(d as u8));
    proof {
        if n < base {
            assert(n % base == n) by (nonlinear_arith)
                requires
                    0 <= n < base,
            ;
        }
        assert(out@ =~= old(out)@ + digits(n as nat, base as nat));
    }
}

/// Appends `n` in decimal.
pub fn push_decimal(out: &mut String, n: i64)
    ensures
        final(out)@ == old(out)@ + decimal(n as int),
{
    if n < 0 {
        out.push('-');
        push_digits(out, (-(n as i128)) as u128, 10);
        proof {
            assert(out@ =~= old(out)@ + decimal(n as int));
        }
    } else {
        push_digits(out, n as u128, 10);
    }
}

/// `n` in decimal.
pub fn decimal_string(n: u64) -> (r: String)
    ensures
        r@ == decimal(n as int),
{
    let mut out = String::new();
    push_digits(&mut out, n as u128, 10);
    proof {
        assert(out@ =~= decimal(n as int));
    }
    out
}

/// `n` in decimal.
pub fn signed_string(n: i64) -> (r: String)
    ensures
        r@ == decimal(n as int),
{
    let mut out = String::new();
    push_decimal(&mut out, n);
    proof {
        assert(out@ =~= decimal(n as int));
    }
    out
}

/// Appends the last `width` digits of `n` in the given base.
pub fn push_fixed(out: &mut String, n: u64, base: u64, width: usize)
    requires
        2 <= base <= 16,
    ensures
        final(out)@ == old(out)@ + fixed_digits(n as nat, base as nat, width as nat),
    decreases width,
{
    if width > 0 {
        push_fixed(out, n / base, base, width - 1);
        let d: u64 = n % base;
        out.push(digit(d as u8));
    }
    proof {
        assert(out@ =~= old(out)@ + fixed_digits(n as nat, base as nat, width as nat));
    }
}

/// Two lower-case hexadecimal digits for each byte.
pub fn hex(bytes: &[u8]) -> (r: String)
    ensures
        r@ == hex_of(bytes@),
{
    let mut out = String::new();
    let n: usize = bytes.len();
    for i in 0..n
        invariant
            n == bytes@.len(),
            out@ == hex_of(bytes@.take(i as int)),
    {
        push_fixed(&mut out, bytes[i] as u64, 16, 2);
        proof {
            assert(bytes@.take(i + 1).drop_last() =~= bytes@.take(i as int));
        }
    }
    proof {
        assert(bytes@.take(n as int) =~= bytes@);
    }
    out
}

/// Reads an unsigned 64-bit number.
pub fn parse_u64(s: &[char]) -> (r: Option<u64>)
    ensures
        r == read_u64(s@),
{
    let d: &[char] = if s.len() > 0 && s[0] == '+' {
        slice_subrange(s, 1, s.len())
    } else {
        s
    };
    let n: usize = d.len();
    if n == 0 {
        return None;
    }
    let mut value: u64 = 0;
    for i in 0..n
        invariant
            n == d@.len(),
            d@ == without_plus(s@),
            n > 0,
            all_digits(d@.take(i as int)),
            value == digits_value(d@.take(i as int)),
    {
        let c: char = d[i];
        if c < '0' || c > '9' {
            proof {
                assert(!all_digits(d@)) by {
                    assert(d@[i as int] == c);
                }
            }
            return None;
        }
        let v: u64 = c as u64 - 48;
        proof {
            assert(d@.take(i + 1).drop_last() =~= d@.take(i as int));
            assert(digits_value(d@.take(i + 1)) == value * 10 + v);
            lemma_digits_value_grows(d@, i + 1);
            assert(all_digits(d@.take(i + 1)));
        }
        match value.checked_mul(10) {
            Some(tens) => match tens.checked_add(v) {
                Some(next) => {
                    value = next;
                },
                None => {
                    return None;
                },
            },
            None => {
                return None;
            },
        }
    }
    proof {
        assert(d@.take(n as int) =~= d@);
    }
    Some(value)
}

/// Reads an unsigned 64-bit number.
pub fn parse_u64_str(s: &str) -> (r: Option<u64>)
    ensures
        r == read_u64(s@),
{
    parse_u64(chars_of(s).as_slice())
}

// ---- laws ---------------------------------------------------------------

/// The value of a row of digits, by its last digit and the digits before it.
pub proof fn law_digits_value(s: Seq<char>, d: nat)
    requires
        d < 10,
    ensures
        digits_value(Seq::<char>::empty()) == 0,
        digit_char(d) as int == '0' as int + d,
        digits_value(s.push(digit_char(d))) == 10 * digits_value(s) + d,
{
    assert(s.push(digit_char(d)).drop_last() =~= s);
}

/// A number in decimal is its digits and nothing else, stands for the number,
/// and does not begin with a zero unless it is zero.
pub proof fn law_decimal(n: nat)
    ensures
        all_digits(decimal(n as int)),
        digits_value(decimal(n as int)) == n,
        decimal(n as int).len() > 0,
        n > 0 ==> decimal(n as int)[0] != '0',
        n < 10 ==> decimal(n as int) == seq![('0' as int + n) as char],
        n > 0 ==> decimal(-(n as int)) == seq!['-'] + decimal(n as int),
    decreases n,
{
    if n < 10 {
        assert(digits(n, 10) =~= seq![digit_char(n)]);
        assert(digits(n, 10).drop_last() =~= Seq::<char>::empty());
        reveal_with_fuel(digits_value, 2);
    } else {
        law_decimal(n / 10);
        let before = digits(n / 10, 10);
        law_digits_value(before, n % 10);
        assert(digits(n, 10)[0] == before[0]);
    }
}

/// A number that fits is read back from its decimal digits, with or without a
/// plus sign in front.
pub proof fn law_read_back(n: u64)
    ensures
        read_u64(decimal(n as int)) == Some(n),
        read_u64(seq!['+'] + decimal(n as int)) == Some(n),
{
    law_decimal(n as nat);
    let d = decimal(n as int);
    assert('0' <= d[0] <= '9');
    let signed = seq!['+'] + d;
    assert(signed.subrange(1, signed.len() as int) =~= d);
}

/// What holds anything but digits behind an optional plus sign is no number,
/// nor is the empty text.
pub proof fn law_no_number(s: Seq<char>, i: int)
    ensures
        read_u64(Seq::<char>::empty()) is None,
        1 <= i < s.len() && !('0' <= s[i] <= '9') ==> read_u64(s) is None,
        s.len() > 0 && s[0] != '+' && !('0' <= s[0] <= '9') ==> read_u64(s) is None,
{
    if 1 <= i < s.len() && !('0' <= s[i] <= '9') {
        if s[0] == '+' {
            assert(without_plus(s)[i - 1] == s[i]);
        } else {
            assert(without_plus(s)[i] == s[i]);
        }
    }
}

/// Digits of a fixed number stand for the number, where it has no more of them,
/// with zeros in front.
pub proof fn law_fixed_digits(n: nat, width: nat)
    ensures
        fixed_digits(n, 10, width).len() == width,
        all_digits(fixed_digits(n, 10, width)),
        n < 10 ==> width == 2 ==> fixed_digits(n, 10, width) == seq!['0', ('0' as int + n) as char],
        10 <= n < 100 ==> width == 2 ==> fixed_digits(n, 10, width) == decimal(n as int),
    decreases width,
{
    lemma_fixed_digit_chars(n, 10, width);
    if width > 0 {
        law_fixed_digits(n / 10, (width - 1) as nat);
    }
    if width == 2 {
        reveal_with_fuel(fixed_digits, 3);
        reveal_with_fuel(digits, 3);
        if n < 100 {
            assert(n / 10 % 10 == n / 10);
            assert(fixed_digits(n, 10, 2) =~= seq![digit_char(n / 10), digit_char(n % 10)]);
            if n >= 10 {
                assert(digits(n, 10) =~= seq![digit_char(n / 10), digit_char(n % 10)]);
            }
        }
    }
}

/// Each byte gives two hexadecimal digits in lower case, the higher one first.
pub proof fn law_hex(bytes: Seq<u8>, i: int)
    requires
        0 <= i < bytes.len(),
    ensures
        hex_of(bytes).len() == 2 * bytes.len(),
        hex_of(bytes)[2 * i] == "0123456789abcdef"@[bytes[i] as int / 16],
        hex_of(bytes)[2 * i + 1] == "0123456789abcdef"@[bytes[i] as int % 16],
    decreases bytes.len(),
{
    reveal_strlit("0123456789abcdef");
    lemma_hex_len(bytes);
    lemma_hex_len(bytes.drop_last());
    reveal_with_fuel(fixed_digits, 3);
    let b = bytes.last() as nat;
    assert(b / 16 < 16 && (b / 16) % 16 == b / 16);
    let two = fixed_digits(b, 16, 2);
    assert(two =~= seq![digit_char(b / 16), digit_char(b % 16)]);
    if i < bytes.len() - 1 {
        law_hex(bytes.drop_last(), i);
    }
}

} // verus!
