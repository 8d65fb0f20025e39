//! Reading numbers from the bytes of a text token.
use crate::fixed::{clamp, Fixed};
use vstd::prelude::*;

verus! {

/// The byte is one of the ten decimal digits.
pub open spec fn is_digit(b: u8) -> bool {
    '0' as u8 <= b <= '9' as u8
}

/// What a digit stands for; nothing for any other byte.
pub open spec fn digit_of(b: u8) -> nat {
    if is_digit(b) {
        (b - '0' as u8) as nat
    } else {
        0
    }
}

/// Every byte of `s` is a digit.
pub open spec fn all_digits(s: Seq<u8>) -> bool {
    forall|i: int| 0 <= i < s.len() ==> is_digit(#[trigger] s[i])
}

/// The number that results when the digits of `tail` are written behind the
/// number `head`.
pub open spec fn append_value(head: nat, tail: Seq<u8>) -> nat
    decreases tail.len(),
{
    if tail.len() == 0 {
        head
    } else {
        append_value(head, tail.drop_last()) * 10 + digit_of(tail.last())
    }
}

/// The number that a string of digits writes in base ten.
pub open spec fn digits_value(s: Seq<u8>) -> nat {
    append_value(0, s)
}

/// The end of the longest run of digits that starts at `from`.
pub open spec fn digit_run_end(s: Seq<u8>, from: int) -> int
    decreases s.len() - from,
{
    if 0 <= from < s.len() && is_digit(s[from]) {
        digit_run_end(s, from + 1)
    } else {
        from
    }
}

/// Largest value that the running sums below tell apart; beyond it they
/// only record that it was passed.
const CEILING: u128 = 1_000_000_000_000_000_000_000_000_000_000;

/// What a running sum holds for the number `v`.
spec fn capped(v: nat) -> nat {
    if v < CEILING {
        v
    } else {
        CEILING as nat
    }
}

/// Digits written in two parts give the number that they give at once.
proof fn lemma_append_split(head: nat, a: Seq<u8>, b: Seq<u8>)
    ensures
        append_value(head, a + b) == append_value(append_value(head, a), b),
    decreases b.len(),
{
    if b.len() == 0 {
        assert(a + b == a);
    } else {
        lemma_append_split(head, a, b.drop_last());
        assert((a + b).drop_last() == a + b.drop_last());
        assert((a + b).last() == b.last());
    }
}

/// Finds where the run of digits that starts at `from` ends.
fn scan_digits(s: &[u8], from: usize) -> (end: usize)
    requires
        from <= s.len(),
    ensures
        from <= end <= s.len(),
        end == digit_run_end(s@, from as int),
        all_digits(s@.subrange(from as int, end as int)),
        end < s.len() ==> !is_digit(s@[end as int]),
{
    let mut i: usize = from;
    while i < s.len() && s[i] >= '0' as u8 && s[i] <= '9' as u8
        invariant
            from <= i <= s.len(),
            digit_run_end(s@, from as int) == digit_run_end(s@, i as int),
            forall|j: int| from <= j < i ==> is_digit(#[trigger] s@[j]),
        decreases s.len() - i,
    {
        i = i + 1;
    }
    i
}

/// Writes the digits of `s` between `from` and `to` behind the running sum
/// `acc`, which stands for the number `v`.
fn append_digits(acc: u128, Ghost(v): Ghost<nat>, s: &[u8], from: usize, to: usize) -> (r: u128)
    requires
        from <= to <= s.len(),
        all_digits(s@.subrange(from as int, to as int)),
        acc == capped(v),
    ensures
        r == capped(append_value(v, s@.subrange(from as int, to as int))),
{
    let mut acc: u128 = acc;
    let mut i: usize = from;
    while i < to
        invariant
            from <= i <= to <= s.len(),
            all_digits(s@.subrange(from as int, to as int)),
            acc == capped(append_value(v, s@.subrange(from as int, i as int))),
        decreases to - i,
    {
        let ghost before = s@.subrange(from as int, i as int);
        let ghost after = s@.subrange(from as int, i + 1);
        proof {
            assert(after.drop_last() == before);
            assert(after.last() == s@[i as int]);
            assert(s@.subrange(from as int, to as int)[i - from] == s@[i as int]);
        }
        let d: u128 = (s[i] - '0' as u8) as u128;
        let next: u128 = acc * 10 + d;
        acc = if next < CEILING { next } else { CEILING };
        i = i + 1;
    }
    acc
}

/// The digits of a number written without a sign or with a plus sign.
pub open spec fn unsigned_digits(s: Seq<u8>) -> Seq<u8> {
    if s.len() > 0 && s[0] == '+' as u8 {
        s.skip(1)
    } else {
        s
    }
}

/// `s` writes a whole number that is not negative: an optional plus sign
/// and then one digit or more, with nothing else before, between or after.
pub open spec fn is_unsigned_text(s: Seq<u8>) -> bool {
    unsigned_digits(s).len() > 0 && all_digits(unsigned_digits(s))
}

/// The number that such a text writes.
pub open spec fn unsigned_value(s: Seq<u8>) -> nat {
    digits_value(unsigned_digits(s))
}

/// Reads a whole number that fits 64 bits. Gives nothing where the token
/// is no such number, be it by its form or by its size.
pub fn parse_u64(token: &[u8]) -> (r: Option<u64>)
    ensures
        r is Some <==> is_unsigned_text(token@) && unsigned_value(token@) <= u64::MAX,
        r matches Some(v) ==> v == unsigned_value(token@),
{
    let start: usize = if token.len() > 0 && token[0] == '+' as u8 {
        1
    } else {
        0
    };
    let end = scan_digits(token, start);
    proof {
        assert(unsigned_digits(token@) == token@.subrange(start as int, token@.len() as int));
        if end < token.len() {
            assert(unsigned_digits(token@)[end - start] == token@[end as int]);
        }
    }
    if end != token.len() || end == start {
        return None;
    }
    let total = append_digits(0, Ghost(0), token, start, end);
    if total > u64::MAX as u128 {
        None
    } else {
        Some(total as u64)
    }
}

/// Ten to the power `n`.
pub open spec fn pow10(n: nat) -> nat
    decreases n,
{
    if n == 0 {
        1
    } else {
        10 * pow10((n - 1) as nat)
    }
}

/// How many bytes the sign at the start of `s` takes: one or none.
pub open spec fn sign_len(s: Seq<u8>) -> int {
    if s.len() > 0 && (s[0] == '+' as u8 || s[0] == '-' as u8) {
        1
    } else {
        0
    }
}

/// `s` starts with a minus sign.
pub open spec fn is_negative(s: Seq<u8>) -> bool {
    s.len() > 0 && s[0] == '-' as u8
}

/// `s` writes a whole number: an optional sign and then one digit or more.
pub open spec fn is_integer_text(s: Seq<u8>) -> bool {
    s.skip(sign_len(s)).len() > 0 && all_digits(s.skip(sign_len(s)))
}

/// The whole number that such a text writes.
pub open spec fn integer_value(s: Seq<u8>) -> int {
    if is_negative(s) {
        -(digits_value(s.skip(sign_len(s))) as int)
    } else {
        digits_value(s.skip(sign_len(s))) as int
    }
}

/// Where the digits before the point end.
pub open spec fn int_end(s: Seq<u8>) -> int {
    digit_run_end(s, sign_len(s))
}

/// A point follows the digits before it.
pub open spec fn has_point(s: Seq<u8>) -> bool {
    int_end(s) < s.len() && s[int_end(s)] == '.' as u8
}

/// Where the digits behind the point start.
pub open spec fn frac_start(s: Seq<u8>) -> int {
    if has_point(s) {
        int_end(s) + 1
    } else {
        int_end(s)
    }
}

/// Where the digits behind the point end.
pub open spec fn frac_end(s: Seq<u8>) -> int {
    digit_run_end(s, frac_start(s))
}

/// An exponent mark follows the digits.
pub open spec fn has_exponent(s: Seq<u8>) -> bool {
    frac_end(s) < s.len() && (s[frac_end(s)] == 'e' as u8 || s[frac_end(s)] == 'E' as u8)
}

/// The text behind the exponent mark.
pub open spec fn exponent_text(s: Seq<u8>) -> Seq<u8> {
    s.skip(frac_end(s) + 1)
}

/// All digits of the number, those before the point and those behind it.
pub open spec fn mantissa_digits(s: Seq<u8>) -> Seq<u8> {
    s.subrange(sign_len(s), int_end(s)) + s.subrange(frac_start(s), frac_end(s))
}

/// `s` writes a decimal number: an optional sign; digits with at most one
/// point before, among or behind them, and at least one digit; then
/// optionally `e` or `E` and a whole number, the power of ten to scale by.
pub open spec fn is_decimal(s: Seq<u8>) -> bool {
    &&& mantissa_digits(s).len() > 0
    &&& if has_exponent(s) {
        is_integer_text(exponent_text(s))
    } else {
        frac_end(s) == s.len()
    }
}

/// The power of ten that the text scales its digits by; zero where it
/// gives none.
pub open spec fn decimal_exponent(s: Seq<u8>) -> int {
    if has_exponent(s) {
        integer_value(exponent_text(s))
    } else {
        0
    }
}

/// The number written by the first `keep` of the digits `d`, with zeros
/// standing in for digits that `d` does not have.
pub open spec fn shifted_value(d: Seq<u8>, keep: int) -> nat {
    if keep <= 0 {
        0
    } else if keep <= d.len() {
        digits_value(d.take(keep))
    } else {
        digits_value(d) * pow10((keep - d.len()) as nat)
    }
}

/// How many of its digits the text has before the ninth place behind the
/// point, once the exponent has moved the point.
pub open spec fn kept_digits(s: Seq<u8>) -> int {
    int_end(s) - sign_len(s) + decimal_exponent(s) + 9
}

/// The raw value of the decimal number that `s` writes. Digits beyond the
/// ninth place behind the point are dropped, and a number too large to hold
/// becomes the largest value of its sign.
pub open spec fn decimal_raw(s: Seq<u8>) -> int {
    let size = clamp(
        shifted_value(mantissa_digits(s), kept_digits(s)) as int,
        0,
        i64::MAX as int,
    );
    if is_negative(s) {
        -size
    } else {
        size
    }
}

/// Powers of ten grow with their exponent, from one on.
proof fn lemma_pow10_grows(i: nat, j: nat)
    requires
        i <= j,
    ensures
        1 <= pow10(i) <= pow10(j),
    decreases j,
{
    if j > 0 {
        if i < j {
            lemma_pow10_grows(i, (j - 1) as nat);
        } else {
            lemma_pow10_grows((i - 1) as nat, (j - 1) as nat);
        }
    }
}

/// The ceiling is ten to the power thirty.
proof fn lemma_pow10_ceiling()
    ensures
        pow10(30) == CEILING,
{
    assert(pow10(10) == 10_000_000_000) by {
        reveal_with_fuel(pow10, 11);
    }
    assert(pow10(20) == 10_000_000_000 * pow10(10)) by {
        reveal_with_fuel(pow10, 11);
    }
    assert(pow10(30) == 10_000_000_000 * pow10(20)) by {
        reveal_with_fuel(pow10, 11);
    }
}

/// Reads the whole number that starts at `from` and runs to the end of the
/// token, limited to the ceiling in size.
fn read_exponent(s: &[u8], from: usize) -> (r: Option<i128>)
    requires
        from <= s.len(),
    ensures
        r is Some <==> is_integer_text(s@.skip(from as int)),
        r matches Some(e) ==> e == clamp(
            integer_value(s@.skip(from as int)),
            -(CEILING as int),
            CEILING as int,
        ),
{
    let ghost text = s@.skip(from as int);
    let minus = from < s.len() && s[from] == '-' as u8;
    let start: usize = if from < s.len() && (s[from] == '+' as u8 || s[from] == '-' as u8) {
        from + 1
    } else {
        from
    };
    let end = scan_digits(s, start);
    proof {
        assert(text.skip(sign_len(text)) == s@.subrange(start as int, s@.len() as int));
        if end < s.len() {
            assert(text.skip(sign_len(text))[end - start] == s@[end as int]);
        }
    }
    if end != s.len() || end == start {
        return None;
    }
    let size = append_digits(0, Ghost(0), s, start, end);
    if minus {
        Some(-(size as i128))
    } else {
        Some(size as i128)
    }
}

/// Computes the size of the number whose digits lie in `s` from `a0` to
/// `a1` and from `b0` to `b1`, of which the first `keep` count.
fn shifted_size(
    s: &[u8],
    a0: usize,
    a1: usize,
    b0: usize,
    b1: usize,
    keep: i128,
    Ghost(true_keep): Ghost<int>,
) -> (r: i64)
    requires
        a0 <= a1 <= b0 <= b1 <= s.len(),
        all_digits(s@.subrange(a0 as int, a1 as int)),
        all_digits(s@.subrange(b0 as int, b1 as int)),
        -2 * CEILING <= keep <= 2 * CEILING,
        keep == true_keep || (keep < 0 && true_keep < 0) || ({
            &&& keep > (a1 - a0) + (b1 - b0) + 30
            &&& true_keep > (a1 - a0) + (b1 - b0) + 30
        }),
    ensures
        r == clamp(
            shifted_value(
                s@.subrange(a0 as int, a1 as int) + s@.subrange(b0 as int, b1 as int),
                true_keep,
            ) as int,
            0,
            i64::MAX as int,
        ),
{
    let ghost a = s@.subrange(a0 as int, a1 as int);
    let ghost b = s@.subrange(b0 as int, b1 as int);
    let ghost d = a + b;
    let la: usize = a1 - a0;
    let lb: usize = b1 - b0;
    if keep <= 0 {
        return 0;
    }
    let na: usize = if keep >= la as i128 {
        la
    } else {
        keep as usize
    };
    let acc = append_digits(0, Ghost(0), s, a0, a0 + na);
    proof {
        assert(s@.subrange(a0 as int, a0 + na) == a.take(na as int));
        assert(d.take(na as int) == a.take(na as int));
    }
    if na < la {
        return if acc > i64::MAX as u128 {
            i64::MAX
        } else {
            acc as i64
        };
    }
    proof {
        assert(a.take(na as int) == a);
    }
    let rest: i128 = keep - la as i128;
    let nb: usize = if rest >= lb as i128 {
        lb
    } else {
        rest as usize
    };
    let acc = append_digits(acc, Ghost(digits_value(a)), s, b0, b0 + nb);
    proof {
        assert(s@.subrange(b0 as int, b0 + nb) == b.take(nb as int));
        lemma_append_split(0, a, b.take(nb as int));
        assert(d.take(la + nb) == a + b.take(nb as int));
    }
    if nb < lb {
        return if acc > i64::MAX as u128 {
            i64::MAX
        } else {
            acc as i64
        };
    }
    proof {
        assert(b.take(nb as int) == b);
        assert(d.take(la + nb) == d);
    }
    let pad: i128 = rest - lb as i128;
    let ghost v = digits_value(d);
    let ghost true_pad = true_keep - d.len();
    if pad == 0 {
        return if acc > i64::MAX as u128 {
            i64::MAX
        } else {
            acc as i64
        };
    }
    if acc == 0 {
        assert(v * pow10(true_pad as nat) == 0) by (nonlinear_arith)
            requires
                v == 0,
        ;
        return 0;
    }
    let mut acc: u128 = acc;
    let mut j: i128 = 0;
    proof {
        assert(v * pow10(0) == v) by (nonlinear_arith)
            requires
                pow10(0) == 1,
        ;
    }
    while j < pad && acc < CEILING
        invariant
            0 <= j <= pad <= 2 * CEILING,
            v >= 1,
            acc == capped(v * pow10(j as nat)),
        decreases pad - j,
    {
        proof {
            assert(v * pow10((j + 1) as nat) == (v * pow10(j as nat)) * 10) by (nonlinear_arith)
                requires
                    pow10((j + 1) as nat) == 10 * pow10(j as nat),
            ;
        }
        let next: u128 = acc * 10;
        acc = if next < CEILING { next } else { CEILING };
        j = j + 1;
    }
    proof {
        lemma_pow10_ceiling();
        if acc < CEILING {
            // The loop ran to its end without reaching the ceiling.
            assert(j == pad);
            if pad > 30 {
                lemma_pow10_grows(30, pad as nat);
                assert(v * pow10(pad as nat) >= pow10(30)) by (nonlinear_arith)
                    requires
                        v >= 1,
                        pow10(pad as nat) >= pow10(30),
                ;
            }
            assert(pad == true_pad);
        } else {
            // The ceiling was reached, with `j` zeros or fewer than the
            // number has.
            if keep == true_keep {
                lemma_pow10_grows(j as nat, true_pad as nat);
                assert(v * pow10(true_pad as nat) >= v * pow10(j as nat)) by (nonlinear_arith)
                    requires
                        v >= 1,
                        pow10(true_pad as nat) >= pow10(j as nat),
                ;
            } else {
                lemma_pow10_grows(30, true_pad as nat);
                assert(v * pow10(true_pad as nat) >= pow10(30)) by (nonlinear_arith)
                    requires
                        v >= 1,
                        pow10(true_pad as nat) >= pow10(30),
                ;
            }
        }
        assert(acc == capped(v * pow10(true_pad as nat)));
    }
    if acc > i64::MAX as u128 {
        i64::MAX
    } else {
        acc as i64
    }
}

/// Reads a decimal number. Gives nothing where the token does not write
/// one.
pub fn parse_decimal(token: &[u8]) -> (r: Option<Fixed>)
    ensures
        r is Some <==> is_decimal(token@),
        r matches Some(v) ==> v@ == decimal_raw(token@),
{
    let n = token.len();
    let minus = n > 0 && token[0] == '-' as u8;
    let a0: usize = if n > 0 && (token[0] == '+' as u8 || token[0] == '-' as u8) {
        1
    } else {
        0
    };
    let a1 = scan_digits(token, a0);
    let b0: usize = if a1 < n && token[a1] == '.' as u8 {
        a1 + 1
    } else {
        a1
    };
    let b1 = scan_digits(token, b0);
    if a1 - a0 == 0 && b1 - b0 == 0 {
        return None;
    }
    let exponent: i128 = if b1 < n && (token[b1] == 'e' as u8 || token[b1] == 'E' as u8) {
        match read_exponent(token, b1 + 1) {
            Some(e) => e,
            None => {
                return None;
            },
        }
    } else if b1 == n {
        0
    } else {
        return None;
    };
    let keep: i128 = (a1 - a0) as i128 + exponent + 9;
    let size = shifted_size(token, a0, a1, b0, b1, keep, Ghost(kept_digits(token@)));
    if minus {
        Some(Fixed { raw: -size })
    } else {
        Some(Fixed { raw: size })
    }
}

} // verus!
