//! Numbers as text.
use vstd::prelude::*;
use vstd::slice::slice_subrange;

use crate::text::string_of;

verus! {

/// The character of a digit below sixteen, in lower case.
pub open spec fn digit(d: nat) -> char {
    if d < 10 {
        (48 + d) as char
    } else {
        (87 + d) as char
    }
}

/// `n` in decimal, without leading zeros.
pub open spec fn dec(n: nat) -> Seq<char>
    decreases n,
{
    if n < 10 {
        seq![digit(n)]
    } else {
        dec(n / 10).push(digit(n % 10))
    }
}

/// `n` in lower-case hexadecimal, without leading zeros.
pub open spec fn hex(n: nat) -> Seq<char>
    decreases n,
{
    if n < 16 {
        seq![digit(n)]
    } else {
        hex(n / 16).push(digit(n % 16))
    }
}

/// `s` with zeros in front, up to `width` characters.
pub open spec fn zero_padded(s: Seq<char>, width: nat) -> Seq<char> {
    if s.len() < width {
        Seq::new((width - s.len()) as nat, |i: int| '0') + s
    } else {
        s
    }
}

/// `n` in hexadecimal with at least `width` digits.
pub open spec fn hex_wide(n: nat, width: nat) -> Seq<char> {
    zero_padded(hex(n), width)
}

/// The character of a digit below sixteen.
fn digit_char(d: u8) -> (c: char)
    requires
        d < 16,
    ensures
        c == digit(d as nat),
{
    if d < 10 {
        (48 + d) as char
    } else {
        (87 + d) as char
    }
}

/// Appends `n` in decimal.
pub fn push_dec(out: &mut String, n: u64)
    ensures
        final(out)@ == old(out)@ + dec(n as nat),
    decreases n,
{
    if n < 10 {
        out.push(digit_char(n as u8));
        assert(out@ =~= old(out)@ + dec(n as nat));
    } else {
        push_dec(out, n / 10);
        let ghost before = out@;
        out.push(digit_char((n % 10) as u8));
        assert(out@ =~= old(out)@ + dec(n as nat));
    }
}

/// `n` in decimal.
pub fn dec_text(n: u64) -> (s: String)
    ensures
        s@ == dec(n as nat),
{
    let mut out = String::new();
    push_dec(&mut out, n);
    assert(Seq::<char>::empty() + dec(n as nat) =~= dec(n as nat));
    out
}

/// The hexadecimal digits of `n`.
fn hex_chars(n: u64) -> (v: Vec<char>)
    ensures
        v@ == hex(n as nat),
    decreases n,
{
    if n < 16 {
        let mut v: Vec<char> = Vec::new();
        v.push(digit_char(n as u8));
        assert(v@ =~= hex(n as nat));
        v
    } else {
        let mut v = hex_chars(n / 16);
        v.push(digit_char((n % 16) as u8));
        v
    }
}

/// Appends `n` in hexadecimal with at least `width` digits.
pub fn push_hex(out: &mut String, n: u64, width: usize)
    ensures
        final(out)@ == old(out)@ + hex_wide(n as nat, width as nat),
{
    let digits = hex_chars(n);
    let ghost start = out@;
    let mut pad: usize = if digits.len() < width {
        width - digits.len()
    } else {
        0
    };
    let ghost all = pad as nat;
    while pad > 0
        invariant
            pad <= all,
            out@ == start + Seq::new((all - pad) as nat, |i: int| '0'),
        decreases pad,
    {
        out.push('0');
        pad = pad - 1;
        assert(out@ =~= start + Seq::new((all - pad) as nat, |i: int| '0'));
    }
    out.append(string_of(digits.as_slice()).as_str());
    assert(out@ =~= start + hex_wide(n as nat, width as nat));
}

/// `n` in hexadecimal with at least `width` digits.
pub fn hex_text(n: u64, width: usize) -> (s: String)
    ensures
        s@ == hex_wide(n as nat, width as nat),
{
    let mut out = String::new();
    push_hex(&mut out, n, width);
    assert(Seq::<char>::empty() + hex_wide(n as nat, width as nat) =~= hex_wide(
        n as nat,
        width as nat,
    ));
    out
}

/// The fraction of a second that `millis` are, without trailing zeros.
pub open spec fn second_fraction(millis: nat) -> Seq<char> {
    if millis % 100 == 0 {
        dec(millis / 100)
    } else if millis % 10 == 0 {
        zero_padded(dec(millis / 10), 2)
    } else {
        zero_padded(dec(millis), 3)
    }
}

/// A span of time as text: whole milliseconds below a second, seconds from there on.
pub open spec fn span_text(millis: nat) -> Seq<char> {
    if millis == 0 {
        "0ns"@
    } else if millis < 1000 {
        dec(millis) + "ms"@
    } else if millis % 1000 == 0 {
        dec(millis / 1000) + "s"@
    } else {
        dec(millis / 1000) + "."@ + second_fraction(millis % 1000) + "s"@
    }
}

/// Appends `n` in decimal with at least `width` digits.
pub fn push_dec_wide(out: &mut String, n: u64, width: usize)
    ensures
        final(out)@ == old(out)@ + zero_padded(dec(n as nat), width as nat),
{
    let digits = dec_text(n);
    let ghost start = out@;
    let len: usize = digits.as_str().unicode_len();
    let mut pad: usize = if len < width {
        width - len
    } else {
        0
    };
    let ghost all = pad as nat;
    while pad > 0
        invariant
            pad <= all,
            out@ == start + Seq::new((all - pad) as nat, |i: int| '0'),
        decreases pad,
    {
        out.push('0');
        pad = pad - 1;
        assert(out@ =~= start + Seq::new((all - pad) as nat, |i: int| '0'));
    }
    out.append(digits.as_str());
    assert(out@ =~= start + zero_padded(dec(n as nat), width as nat));
}

/// Appends a span of time.
pub fn push_span(out: &mut String, millis: u64)
    ensures
        final(out)@ == old(out)@ + span_text(millis as nat),
{
    let ghost start = out@;
    if millis == 0 {
        out.append("0ns");
        return;
    }
    if millis < 1000 {
        push_dec(out, millis);
        out.append("ms");
        assert(out@ =~= start + span_text(millis as nat));
        return;
    }
    push_dec(out, millis / 1000);
    let rest: u64 = millis % 1000;
    if rest != 0 {
        out.append(".");
        if rest % 100 == 0 {
            push_dec(out, rest / 100);
        } else if rest % 10 == 0 {
            push_dec_wide(out, rest / 10, 2);
        } else {
            push_dec_wide(out, rest, 3);
        }
    }
    out.append("s");
    assert(out@ =~= start + span_text(millis as nat));
}

// ---------------------------------------------------------------------------------------
// Reading numbers
// ---------------------------------------------------------------------------------------
/// The value of a digit, in either case, below `base`.
pub open spec fn digit_value(c: char, base: nat) -> Option<nat> {
    let v: int = if '0' <= c <= '9' {
        c as int - 48
    } else if 'a' <= c <= 'f' {
        c as int - 87
    } else if 'A' <= c <= 'F' {
        c as int - 55
    } else {
        99
    };
    if v < base {
        Some(v as nat)
    } else {
        None
    }
}

/// The number that digits in base `base` stand for, if they are all digits; none at all stand
/// for zero.
pub open spec fn digits_value(s: Seq<char>, base: nat) -> Option<nat>
    decreases s.len(),
{
    if s.len() == 0 {
        Some(0)
    } else {
        match (digits_value(s.drop_last(), base), digit_value(s.last(), base)) {
            (Some(front), Some(d)) => Some(base * front + d),
            _ => None,
        }
    }
}

/// The number that `s` stands for: at least one digit in base `base`, and no more than `most`.
pub open spec fn number_in(s: Seq<char>, base: nat, most: nat) -> Option<nat> {
    if s.len() == 0 {
        None
    } else {
        match digits_value(s, base) {
            Some(n) => if n <= most {
                Some(n)
            } else {
                None
            },
            None => None,
        }
    }
}

/// The decimal number that `s` stands for, which a plus sign may precede.
pub open spec fn decimal_in(s: Seq<char>, most: nat) -> Option<nat> {
    if s.len() > 0 && s[0] == '+' {
        number_in(s.skip(1), 10, most)
    } else {
        number_in(s, 10, most)
    }
}

fn digit_of(c: char, base: u64) -> (r: Option<u64>)
    requires
        base <= 16,
    ensures
        match r {
            Some(d) => digit_value(c, base as nat) == Some(d as nat) && d < base,
            None => digit_value(c, base as nat) is None,
        },
{
    let v: u64 = if '0' <= c && c <= '9' {
        c as u64 - 48
    } else if 'a' <= c && c <= 'f' {
        c as u64 - 87
    } else if 'A' <= c && c <= 'F' {
        c as u64 - 55
    } else {
        99
    };
    if v < base {
        Some(v)
    } else {
        None
    }
}

/// A prefix that is no number, or too large a one, makes the whole one no better.
proof fn lemma_prefix_value(s: Seq<char>, base: nat, most: nat, n: int)
    requires
        1 <= n <= s.len(),
        base >= 1,
        number_in(s.take(n), base, most) is None,
    ensures
        number_in(s, base, most) is None,
    decreases s.len() - n,
{
    if n < s.len() {
        let next = s.take(n + 1);
        assert(next.drop_last() =~= s.take(n));
        match (digits_value(s.take(n), base), digit_value(s[n], base)) {
            (Some(front), Some(d)) => {
                assert(base * front >= front) by (nonlinear_arith)
                    requires
                        base >= 1,
                ;
            },
            _ => {},
        }
        lemma_prefix_value(s, base, most, n + 1);
    } else {
        assert(s.take(n) =~= s);
    }
}

/// The number that `s` stands for in base `base`.
pub fn parse_number(s: &[char], base: u64, most: u64) -> (r: Option<u64>)
    requires
        1 <= base <= 16,
    ensures
        match r {
            Some(n) => number_in(s@, base as nat, most as nat) == Some(n as nat),
            None => number_in(s@, base as nat, most as nat) is None,
        },
{
    if s.len() == 0 {
        return None;
    }
    let mut n: u64 = 0;
    let mut i: usize = 0;
    while i < s.len()
        invariant
            i <= s.len(),
            1 <= base <= 16,
            n <= most || i == 0,
            i == 0 ==> n == 0,
            digits_value(s@.take(i as int), base as nat) == Some(n as nat),
        decreases s.len() - i,
    {
        let ghost next = s@.take(i + 1);
        assert(next.drop_last() =~= s@.take(i as int));
        assert(next.last() == s@[i as int]);
        let d: u64 = match digit_of(s[i], base) {
            Some(d) => d,
            None => {
                proof {
                    lemma_prefix_value(s@, base as nat, most as nat, i + 1);
                }
                return None;
            },
        };
        assert((base as u128) * (n as u128) <= 16 * u64::MAX) by (nonlinear_arith)
            requires
                base <= 16,
        ;
        let wide: u128 = (base as u128) * (n as u128) + (d as u128);
        assert(wide == base * n + d) by (nonlinear_arith)
            requires
                wide == (base as u128) * (n as u128) + (d as u128),
        ;
        if wide > most as u128 {
            proof {
                lemma_prefix_value(s@, base as nat, most as nat, i + 1);
            }
            return None;
        }
        n = wide as u64;
        i = i + 1;
    }
    assert(s@.take(s.len() as int) =~= s@);
    Some(n)
}

/// The decimal number that `s` stands for, which a plus sign may precede.
pub fn parse_decimal(s: &[char], most: u64) -> (r: Option<u64>)
    ensures
        match r {
            Some(n) => decimal_in(s@, most as nat) == Some(n as nat),
            None => decimal_in(s@, most as nat) is None,
        },
{
    if s.len() > 0 && s[0] == '+' {
        let rest = slice_subrange(s, 1, s.len());
        assert(rest@ =~= s@.skip(1));
        parse_number(rest, 10, most)
    } else {
        parse_number(s, 10, most)
    }
}

// ---------------------------------------------------------------------------------------
// What holds of them
// ---------------------------------------------------------------------------------------
/// A number in hexadecimal reads as that number again, whatever the width it is filled up to;
/// its digits are lower-case ones, and it has exactly that width where the number fits.
pub proof fn hexadecimal_is_read_back(n: nat, width: nat)
    ensures
        digits_value(hex_wide(n, width), 16) == Some(n),
        hex_wide(n, width).len() >= width,
        hex_wide(n, width).len() > 0,
        n < 0x1_0000_0000 ==> hex_wide(n, 8).len() == 8,
        n < 0x1_0000 ==> hex_wide(n, 4).len() == 4,
        n < 0x100 ==> hex_wide(n, 2).len() == 2,
        forall|i: int|
            0 <= i < hex_wide(n, width).len() ==> '0' <= #[trigger] hex_wide(n, width)[i] <= '9'
                || 'a' <= hex_wide(n, width)[i] <= 'f',
{
    lemma_hex(n);
    lemma_hex_len(n);
    let s = hex(n);
    if s.len() < width {
        lemma_zeros_in_front(s, (width - s.len()) as nat, 16);
    }
}

proof fn lemma_hex(n: nat)
    ensures
        hex(n).len() > 0,
        digits_value(hex(n), 16) == Some(n),
        forall|i: int|
            0 <= i < hex(n).len() ==> '0' <= #[trigger] hex(n)[i] <= '9' || 'a' <= hex(n)[i]
                <= 'f',
    decreases n,
{
    if n >= 16 {
        lemma_hex(n / 16);
        assert(hex(n).drop_last() =~= hex(n / 16));
        assert(hex(n).last() == digit(n % 16));
    } else {
        assert(hex(n).drop_last() =~= Seq::<char>::empty());
        assert(digits_value(Seq::<char>::empty(), 16) == Some(0nat));
    }
}

proof fn lemma_hex_len(n: nat)
    ensures
        n < 0x10 ==> hex(n).len() == 1,
        n < 0x100 ==> hex(n).len() <= 2,
        n < 0x1000 ==> hex(n).len() <= 3,
        n < 0x1_0000 ==> hex(n).len() <= 4,
        n < 0x10_0000 ==> hex(n).len() <= 5,
        n < 0x100_0000 ==> hex(n).len() <= 6,
        n < 0x1000_0000 ==> hex(n).len() <= 7,
        n < 0x1_0000_0000 ==> hex(n).len() <= 8,
    decreases n,
{
    if n >= 16 {
        lemma_hex_len(n / 16);
    }
}

proof fn lemma_zeros_in_front(s: Seq<char>, k: nat, base: nat)
    requires
        base >= 1,
        digits_value(s, base) is Some,
    ensures
        digits_value(Seq::new(k, |i: int| '0') + s, base) == digits_value(s, base),
    decreases s.len(), k,
{
    let zeros = Seq::new(k, |i: int| '0');
    let all = zeros + s;
    if s.len() > 0 {
        assert(all.drop_last() =~= zeros + s.drop_last());
        assert(all.last() == s.last());
        lemma_zeros_in_front(s.drop_last(), k, base);
    } else if k > 0 {
        assert(all =~= zeros);
        assert(zeros.drop_last() =~= Seq::new((k - 1) as nat, |i: int| '0'));
        assert(Seq::new((k - 1) as nat, |i: int| '0') + s =~= Seq::new(
            (k - 1) as nat,
            |i: int| '0',
        ));
        lemma_zeros_in_front(s, (k - 1) as nat, base);
        assert(base * 0 == 0) by (nonlinear_arith);
    } else {
        assert(all =~= s);
    }
}

/// Two numbers are told apart by their digits, at any width.
pub proof fn hexadecimal_tells_apart(a: nat, b: nat, width: nat)
    requires
        a != b,
    ensures
        hex_wide(a, width) != hex_wide(b, width),
{
    hexadecimal_is_read_back(a, width);
    hexadecimal_is_read_back(b, width);
}

/// Zeros in front of the digits of a decimal number do not change it.
pub proof fn zeros_keep_the_value(s: Seq<char>, k: nat)
    requires
        digits_value(s, 10) is Some,
    ensures
        digits_value(Seq::new(k, |i: int| '0') + s, 10) == digits_value(s, 10),
{
    lemma_zeros_in_front(s, k, 10);
}

/// A decimal number is read where it is no larger than it may be, with a plus sign or without;
/// nothing else is one.
pub proof fn decimals_are_read(n: nat, most: nat, s: Seq<char>)
    ensures
        decimal_in(dec(n), most) == (if n <= most {
            Some(n)
        } else {
            None
        }),
        decimal_in(seq!['+'] + dec(n), most) == decimal_in(dec(n), most),
        decimal_in(Seq::empty(), most) is None,
        decimal_in(seq!['+'], most) is None,
        (exists|i: int| 0 < i < s.len() && !('0' <= #[trigger] s[i] <= '9')) ==> decimal_in(s, most)
            is None,
        s.len() > 0 && s[0] != '+' && !('0' <= s[0] <= '9') ==> decimal_in(s, most) is None,
{
    if s.len() > 0 && !('0' <= s[0] <= '9') {
        lemma_not_digits(s, 0);
    }
    lemma_dec(n);
    assert('0' <= dec(n)[0] <= '9');
    let signed = seq!['+'] + dec(n);
    assert(signed.skip(1) =~= dec(n));
    assert(seq!['+'].skip(1) =~= Seq::<char>::empty());
    if exists|i: int| 0 < i < s.len() && !('0' <= #[trigger] s[i] <= '9') {
        let i = choose|i: int| 0 < i < s.len() && !('0' <= #[trigger] s[i] <= '9');
        lemma_not_digits(s, i);
        let t = s.skip(1);
        assert(t[i - 1] == s[i]);
        lemma_not_digits(t, i - 1);
    }
}

proof fn lemma_dec(n: nat)
    ensures
        dec(n).len() > 0,
        digits_value(dec(n), 10) == Some(n),
        forall|i: int| 0 <= i < dec(n).len() ==> '0' <= #[trigger] dec(n)[i] <= '9',
    decreases n,
{
    if n >= 10 {
        lemma_dec(n / 10);
        assert(dec(n).drop_last() =~= dec(n / 10));
        assert(dec(n).last() == digit(n % 10));
    } else {
        assert(dec(n).drop_last() =~= Seq::<char>::empty());
        assert(digits_value(Seq::<char>::empty(), 10) == Some(0nat));
    }
}

proof fn lemma_not_digits(s: Seq<char>, i: int)
    requires
        0 <= i < s.len(),
        !('0' <= s[i] <= '9'),
    ensures
        digits_value(s, 10) is None,
    decreases s.len(),
{
    if i < s.len() - 1 {
        lemma_not_digits(s.drop_last(), i);
    }
}

/// The digits have their usual values, whatever their case, as far as the base goes.
pub proof fn digits_have_their_values(c: char)
    ensures
        digit_value(c, 10) is Some <==> '0' <= c <= '9',
        digit_value(c, 16) is Some <==> '0' <= c <= '9' || 'a' <= c <= 'f' || 'A' <= c <= 'F',
        '0' <= c <= '9' ==> digit_value(c, 10) == Some((c as int - '0' as int) as nat)
            && digit_value(c, 16) == digit_value(c, 10),
        'a' <= c <= 'f' ==> digit_value(c, 16) == Some((c as int - 'a' as int + 10) as nat),
        'A' <= c <= 'F' ==> digit_value(c, 16) == Some((c as int - 'A' as int + 10) as nat),
{
}

/// A number has no zeros in front, unless it is zero or a width was asked for; then there are as
/// many as it takes.
pub proof fn numbers_are_as_short_as_they_can_be(n: nat, width: nat)
    ensures
        n > 0 ==> dec(n)[0] != '0' && hex(n)[0] != '0',
        n == 0 ==> dec(n) == seq!['0'] && hex(n) == seq!['0'],
        ({
            let short = hex(n);
            let wide = hex_wide(n, width);
            &&& wide.len() == if short.len() < width {
                width
            } else {
                short.len()
            }
            &&& wide.skip(wide.len() - short.len()) == short
            &&& forall|i: int| 0 <= i < wide.len() - short.len() ==> wide[i] == '0'
        }),
{
    lemma_first_digits(n);
    let short = hex(n);
    let wide = hex_wide(n, width);
    assert(wide.skip(wide.len() - short.len()) =~= short);
    assert(dec(0) =~= seq!['0']);
    assert(hex(0) =~= seq!['0']);
}

proof fn lemma_first_digits(n: nat)
    ensures
        dec(n).len() > 0 && hex(n).len() > 0,
        n > 0 ==> dec(n)[0] != '0' && hex(n)[0] != '0',
    decreases n,
{
    if n >= 10 {
        lemma_first_digits(n / 10);
    }
    if n >= 16 {
        lemma_first_digits(n / 16);
    }
}

} // verus!
