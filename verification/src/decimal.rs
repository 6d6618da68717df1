//! Exact parsing of decimal number tokens (`3.5`, `100`, `+.25`) into
//! fixed-point nano-units.
//!
//! The accepted grammar is an optional sign, then digits with at most one
//! dot and at least one digit. Fraction digits beyond the ninth are
//! truncated; values above `u64::MAX` nano-units are rejected.

use vstd::prelude::*;

verus! {

/// `c` is an ASCII decimal digit.
pub open spec fn is_digit(c: char) -> bool {
    c >= '0' && c <= '9'
}

/// Numeric value of a digit character; non-digits count as zero.
pub open spec fn digit_val(c: char) -> int {
    if is_digit(c) {
        (c as u32) - ('0' as u32)
    } else {
        0
    }
}

/// Value of a digit string read left to right in base ten.
pub open spec fn digits_val(s: Seq<char>) -> int
    decreases s.len(),
{
    if s.len() == 0 {
        0
    } else {
        digits_val(s.drop_last()) * 10 + digit_val(s.last())
    }
}

/// Every character of `s` is a digit.
pub open spec fn all_digits(s: Seq<char>) -> bool {
    forall|i: int| 0 <= i < s.len() ==> is_digit(#[trigger] s[i])
}

/// Index of the first `.` in `s`, or `s.len()` if there is none.
pub open spec fn first_dot(s: Seq<char>) -> int
    decreases s.len(),
{
    if s.len() == 0 {
        0
    } else if s[0] == '.' {
        0
    } else {
        1 + first_dot(s.drop_first())
    }
}

/// Ten to the power `e`.
pub open spec fn pow10(e: nat) -> int
    decreases e,
{
    if e == 0 {
        1
    } else {
        10 * pow10((e - 1) as nat)
    }
}

/// The token starts with an explicit sign.
pub open spec fn has_sign(s: Seq<char>) -> bool {
    s.len() > 0 && (s[0] == '+' || s[0] == '-')
}

/// The token starts with a minus sign.
pub open spec fn is_neg(s: Seq<char>) -> bool {
    s.len() > 0 && s[0] == '-'
}

/// The token with any leading sign removed.
pub open spec fn body_of(s: Seq<char>) -> Seq<char> {
    if has_sign(s) {
        s.drop_first()
    } else {
        s
    }
}

/// The unsigned body is a well-formed decimal: digits with at most one
/// dot and at least one digit.
pub open spec fn valid_body(b: Seq<char>) -> bool {
    let d = first_dot(b);
    &&& all_digits(b.take(d))
    &&& (d == b.len() || all_digits(b.skip(d + 1)))
    &&& (d > 0 || b.len() > d + 1)
}

/// The whole token is a well-formed decimal number.
pub open spec fn valid_decimal(s: Seq<char>) -> bool {
    valid_body(body_of(s))
}

/// Nano-unit value of the fraction digits: the first nine digits,
/// right-padded with zeros.
pub open spec fn frac_nanos(f: Seq<char>) -> int {
    if f.len() >= 9 {
        digits_val(f.take(9))
    } else {
        digits_val(f) * pow10((9 - f.len()) as nat)
    }
}

/// Fraction digits of a well-formed body (empty if there is no dot).
pub open spec fn frac_part(b: Seq<char>) -> Seq<char> {
    if first_dot(b) == b.len() {
        Seq::empty()
    } else {
        b.skip(first_dot(b) + 1)
    }
}

/// Nano-unit value of a well-formed body.
pub open spec fn body_nanos(b: Seq<char>) -> int {
    digits_val(b.take(first_dot(b))) * 1_000_000_000 + frac_nanos(frac_part(b))
}

/// What `parse_decimal_nanos` returns: the nano-unit value for a
/// well-formed, unsigned-or-plus-signed token whose value is
/// representable, and `None` otherwise.
pub open spec fn parse_decimal_spec(s: Seq<char>) -> Option<u64> {
    if valid_decimal(s) && !is_neg(s) && body_nanos(body_of(s)) <= u64::MAX {
        Some(body_nanos(body_of(s)) as u64)
    } else {
        None
    }
}

/// A digit string's value is non-negative.
pub proof fn lemma_digits_val_nonneg(s: Seq<char>)
    ensures
        digits_val(s) >= 0,
    decreases s.len(),
{
    if s.len() > 0 {
        lemma_digits_val_nonneg(s.drop_last());
    }
}

/// Appending one digit multiplies the value by ten and adds the digit.
pub proof fn lemma_digits_val_push(s: Seq<char>, c: char)
    ensures
        digits_val(s.push(c)) == digits_val(s) * 10 + digit_val(c),
{
    assert(s.push(c).drop_last() =~= s);
    assert(s.push(c).last() == c);
}

/// A digit string's value is at least the value of any prefix.
pub proof fn lemma_digits_val_prefix(s: Seq<char>, n: int)
    requires
        0 <= n <= s.len(),
    ensures
        digits_val(s.take(n)) <= digits_val(s),
    decreases s.len() - n,
{
    if n < s.len() {
        lemma_digits_val_prefix(s, n + 1);
        let t = s.take(n + 1);
        assert(t.drop_last() =~= s.take(n));
        assert(digits_val(t) == digits_val(s.take(n)) * 10 + digit_val(t.last()));
        lemma_digits_val_nonneg(s.take(n));
        assert(digit_val(t.last()) >= 0);
        assert(digits_val(s.take(n)) * 10 >= digits_val(s.take(n))) by (nonlinear_arith)
            requires
                digits_val(s.take(n)) >= 0,
        ;
    } else {
        assert(s.take(n) =~= s);
    }
}

/// Characterization of `first_dot`: if no dot occurs before `i` and
/// either `i` is the end or a dot stands at `i`, the first dot is `i`.
pub proof fn lemma_first_dot_is(s: Seq<char>, i: int)
    requires
        0 <= i <= s.len(),
        forall|j: int| 0 <= j < i ==> s[j] != '.',
        i == s.len() || s[i] == '.',
    ensures
        first_dot(s) == i,
    decreases s.len(),
{
    if s.len() > 0 && i > 0 {
        lemma_first_dot_is(s.drop_first(), i - 1);
    }
}

/// `pow10` is positive.
pub proof fn lemma_pow10_pos(e: nat)
    ensures
        pow10(e) >= 1,
    decreases e,
{
    if e > 0 {
        lemma_pow10_pos((e - 1) as nat);
    }
}


/// `frac_nanos` is non-negative.
pub proof fn lemma_frac_nanos_nonneg(f: Seq<char>)
    ensures
        frac_nanos(f) >= 0,
{
    if f.len() >= 9 {
        lemma_digits_val_nonneg(f.take(9));
    } else {
        lemma_digits_val_nonneg(f);
        lemma_pow10_pos((9 - f.len()) as nat);
        assert(digits_val(f) * pow10((9 - f.len()) as nat) >= 0) by (nonlinear_arith)
            requires
                digits_val(f) >= 0,
                pow10((9 - f.len()) as nat) >= 1,
        ;
    }
}

/// Splitting an exponent splits the power.
pub proof fn lemma_pow10_add(a: nat, b: nat)
    ensures
        pow10(a + b) == pow10(a) * pow10(b),
    decreases a,
{
    if a > 0 {
        lemma_pow10_add((a - 1) as nat, b);
        assert(pow10(((a - 1) + b) as nat) == pow10((a - 1) as nat) * pow10(b));
        assert(pow10(a + b) == 10 * pow10((a + b - 1) as nat));
        assert(10 * (pow10((a - 1) as nat) * pow10(b)) == (10 * pow10((a - 1) as nat)) * pow10(
            b,
        )) by (nonlinear_arith);
    }
}

/// Bounds of `first_dot`: it lies in `0..=len`, points at a dot when it
/// is not the end, and nothing before it is a dot.
pub proof fn lemma_first_dot_bounds(s: Seq<char>)
    ensures
        0 <= first_dot(s) <= s.len(),
        first_dot(s) < s.len() ==> s[first_dot(s)] == '.',
        forall|j: int| 0 <= j < first_dot(s) ==> s[j] != '.',
    decreases s.len(),
{
    if s.len() > 0 && s[0] != '.' {
        lemma_first_dot_bounds(s.drop_first());
        assert forall|j: int| 0 <= j < first_dot(s) implies s[j] != '.' by {
            if j > 0 {
                assert(s.drop_first()[j - 1] != '.');
            }
        }
    }
}

/// Ten to the power `e`, executable.
fn pow10_exec(e: u64) -> (r: u64)
    requires
        e <= 9,
    ensures
        r == pow10(e as nat),
        r <= 1_000_000_000,
{
    let mut p: u64 = 1;
    let mut k: u64 = 0;
    while k < e
        invariant
            k <= e <= 9,
            p == pow10(k as nat),
        decreases e - k,
    {
        proof {
            lemma_pow10_add(k as nat, 1);
            lemma_pow10_monotone(k as nat, 8);
            reveal_with_fuel(pow10, 10);
        }
        p = p * 10;
        k = k + 1;
    }
    proof {
        lemma_pow10_monotone(e as nat, 9);
        reveal_with_fuel(pow10, 10);
    }
    p
}

/// `pow10` is monotone in the exponent.
pub proof fn lemma_pow10_monotone(a: nat, b: nat)
    requires
        a <= b,
    ensures
        pow10(a) <= pow10(b),
    decreases b,
{
    if a < b {
        lemma_pow10_monotone(a, (b - 1) as nat);
        lemma_pow10_pos((b - 1) as nat);
    }
}


/// Parse a decimal token into nano-units.
///
/// Succeeds exactly on well-formed, non-negative decimals whose value
/// fits in `u64` nano-units; the optional `+` sign is accepted, a `-`
/// sign (and everything malformed) is rejected.
#[verifier::rlimit(100)]
pub fn parse_decimal_nanos(s: &str) -> (r: Option<u64>)
    ensures
        r == parse_decimal_spec(s@),
{
    let n = s.unicode_len();
    if n == 0 {
        return None;
    }
    let c0 = s.get_char(0);
    if c0 == '-' {
        return None;
    }
    let start: usize = if c0 == '+' {
        1
    } else {
        0
    };
    let ghost b = s@.skip(start as int);
    proof {
        assert(body_of(s@) =~= b);
        assert(body_of(s@) == b);
    }
    // Integer part: scan digits, accumulating the value.
    let mut i = start;
    let mut ival: u128 = 0;
    let mut stop = false;
    while i < n && !stop
        invariant
            start <= i <= n,
            n == s@.len(),
            start <= 1,
            b == s@.skip(start as int),
            body_of(s@) == b,
            forall|j: int| start <= j < i ==> is_digit(#[trigger] s@[j]),
            ival == digits_val(s@.subrange(start as int, i as int)),
            ival <= u64::MAX,
            stop ==> i < n && !is_digit(s@[i as int]),
        decreases n - i, (if stop { 0int } else { 1int }),
    {
        let c = s.get_char(i);
        if c >= '0' && c <= '9' {
            let d = ((c as u32) - 48) as u128;
            proof {
                lemma_digits_val_push(s@.subrange(start as int, i as int), c);
                assert(s@.subrange(start as int, i as int).push(c) =~= s@.subrange(
                    start as int,
                    i + 1,
                ));
            }
            ival = ival * 10 + d;
            if ival > u64::MAX as u128 {
                // Even before seeing the rest, the value is too large.
                proof {
                    lemma_too_large(s@, b, start as int, i + 1, ival as int);
                }
                return None;
            }
            i += 1;
        } else {
            stop = true;
        }
    }
    if !stop {
        // No dot: the whole body must be digits, and non-empty.
        proof {
            assert(b =~= s@.subrange(start as int, n as int));
        }
        if i == start {
            proof {
                lemma_first_dot_bounds(b);
            }
            return None;
        }
        proof {
            lemma_first_dot_is(b, b.len() as int);
            assert(b.take(b.len() as int) =~= b);
            lemma_digits_val_nonneg(Seq::<char>::empty());
        }
        let total: u128 = ival * 1_000_000_000;
        proof {
            assert(frac_part(b) =~= Seq::<char>::empty());
            assert(frac_nanos(Seq::<char>::empty()) == 0) by {
                reveal_with_fuel(pow10, 10);
            }
            assert(body_nanos(b) == ival * 1_000_000_000);
        }
        if total > u64::MAX as u128 {
            return None;
        }
        return Some(total as u64);
    }
    // Stopped on a non-digit.
    let c = s.get_char(i);
    if c != '.' {
        // Neither digit nor dot: the token is malformed.
        proof {
            lemma_not_decimal_at(s@, b, start as int, i as int);
        }
        return None;
    }
    let ghost d = i - start;
    proof {
        lemma_first_dot_is(b, d);
        assert(b.take(d) =~= s@.subrange(start as int, i as int));
    }
    // Fraction part: scan digits, accumulating the first nine.
    let mut j = i + 1;
    let mut facc: u64 = 0;
    let mut flen: u64 = 0;
    let mut fstop = false;
    while j < n && !fstop
        invariant
            i + 1 <= j <= n,
            i < n,
            n == s@.len(),
            start <= i,
            start <= 1,
            b == s@.skip(start as int),
            body_of(s@) == b,
            forall|k: int| i + 1 <= k < j ==> is_digit(#[trigger] s@[k]),
            flen == if j - (i + 1) < 9 {
                j - (i + 1)
            } else {
                9int
            },
            facc == digits_val(s@.subrange(i + 1, i + 1 + flen)),
            facc < pow10(flen as nat),
            fstop ==> j < n && !is_digit(s@[j as int]),
        decreases n - j, (if fstop { 0int } else { 1int }),
    {
        let c2 = s.get_char(j);
        if c2 >= '0' && c2 <= '9' {
            if flen < 9 {
                let d2 = ((c2 as u32) - 48) as u64;
                proof {
                    lemma_digits_val_push(s@.subrange(i + 1, i + 1 + flen), c2);
                    assert(s@.subrange(i + 1, i + 1 + flen).push(c2) =~= s@.subrange(
                        i + 1,
                        i + 1 + flen + 1,
                    ));
                    lemma_pow10_monotone(flen as nat, 8);
                    reveal_with_fuel(pow10, 10);
                    assert(facc * 10 + d2 < pow10((flen + 1) as nat)) by (nonlinear_arith)
                        requires
                            facc < pow10(flen as nat),
                            d2 <= 9,
                            pow10((flen + 1) as nat) == 10 * pow10(flen as nat),
                    ;
                    lemma_pow10_add(flen as nat, 1);
                    assert(pow10((flen + 1) as nat) == pow10(flen as nat) * pow10(1));
                }
                facc = facc * 10 + d2;
                flen += 1;
            }
            j += 1;
        } else {
            fstop = true;
        }
    }
    if fstop {
        // A non-digit inside the fraction: malformed.
        proof {
            lemma_bad_frac(s@, b, start as int, d, j as int);
        }
        return None;
    }
    if i == start && j == i + 1 {
        // A lone dot with no digits on either side: malformed.
        proof {
            lemma_first_dot_bounds(b);
        }
        return None;
    }
    // Well-formed: int part digits, dot at d, fraction digits to the end.
    let ghost f = b.skip(d + 1);
    proof {
        assert(f =~= s@.subrange(i + 1, n as int));
        assert(frac_part(b) == f);
        assert(all_digits(b.take(d))) by {
            assert(forall|k: int|
                0 <= k < d ==> b.take(d)[k] == #[trigger] s@[k + start]);
        }
        assert(all_digits(b.skip(d + 1))) by {
            assert(forall|k: int|
                0 <= k < f.len() ==> f[k] == #[trigger] s@[k + i + 1]);
        }
    }
    let fnanos: u64 = if n - (i + 1) >= 9 {
        proof {
            assert(f.take(9) =~= s@.subrange(i + 1, i + 1 + 9));
            lemma_digits_val_nonneg(f.take(9));
        }
        facc
    } else {
        proof {
            assert(f =~= s@.subrange(i + 1, i + 1 + flen));
            lemma_pow10_monotone((9 - f.len()) as nat, 9);
            lemma_pow10_pos((9 - f.len()) as nat);
            reveal_with_fuel(pow10, 10);
            assert(facc * pow10((9 - flen) as nat) < pow10(flen as nat) * pow10(
                (9 - flen) as nat,
            )) by (nonlinear_arith)
                requires
                    facc < pow10(flen as nat),
                    facc >= 0,
                    pow10((9 - flen) as nat) >= 1,
            ;
            lemma_pow10_add(flen as nat, (9 - flen) as nat);
        }
        facc * pow10_exec(9 - (flen as u64))
    };
    proof {
        assert(fnanos == frac_nanos(f));
        lemma_frac_nanos_nonneg(f);
        assert(fnanos < 1_000_000_000) by {
            if f.len() >= 9 {
                assert(frac_nanos(f) == digits_val(f.take(9)));
                assert(f.take(9).len() == 9);
                lemma_digits_len_bound(f.take(9));
                reveal_with_fuel(pow10, 10);
            } else {
                lemma_pow10_add(flen as nat, (9 - flen) as nat);
                reveal_with_fuel(pow10, 10);
                assert(facc * pow10((9 - flen) as nat) < pow10(flen as nat) * pow10(
                    (9 - flen) as nat,
                )) by (nonlinear_arith)
                    requires
                        facc < pow10(flen as nat),
                        pow10((9 - flen) as nat) >= 1,
                ;
            }
        }
    }
    let total: u128 = ival * 1_000_000_000 + fnanos as u128;
    proof {
        assert(body_nanos(b) == total);
    }
    if total > u64::MAX as u128 {
        return None;
    }
    Some(total as u64)
}

/// A digit string of length `n` has value below ten to the `n`.
pub proof fn lemma_digits_len_bound(s: Seq<char>)
    ensures
        digits_val(s) < pow10(s.len()),
    decreases s.len(),
{
    if s.len() == 0 {
        reveal_with_fuel(pow10, 1);
    } else {
        lemma_digits_len_bound(s.drop_last());
        lemma_pow10_add((s.len() - 1) as nat, 1);
        reveal_with_fuel(pow10, 2);
        assert(digits_val(s.drop_last()) * 10 + digit_val(s.last()) < pow10(
            (s.len() - 1) as nat,
        ) * 10) by (nonlinear_arith)
            requires
                digits_val(s.drop_last()) < pow10((s.len() - 1) as nat),
                digit_val(s.last()) <= 9,
        ;
    }
}

/// If a digit prefix of the body already exceeds `u64::MAX`, the token's
/// value (if it is well-formed at all) exceeds `u64::MAX`.
proof fn lemma_too_large(s: Seq<char>, b: Seq<char>, start: int, upto: int, ival: int)
    requires
        b == s.skip(start),
        body_of(s) == b,
        0 <= start <= upto <= s.len(),
        forall|j: int| start <= j < upto ==> is_digit(#[trigger] s[j]),
        ival == digits_val(s.subrange(start, upto)),
        ival > u64::MAX,
    ensures
        parse_decimal_spec(s) == Option::<u64>::None,
{
    if valid_decimal(s) {
        let d = first_dot(b);
        lemma_first_dot_bounds(b);
        let scanned = upto - start;
        assert forall|j: int| 0 <= j < scanned implies b[j] != '.' by {
            assert(is_digit(s[j + start]));
        }
        assert(d >= scanned) by {
            if d < scanned {
                assert(b[d] == '.');
            }
        }
        assert(b.take(d).take(scanned) =~= s.subrange(start, upto));
        lemma_digits_val_prefix(b.take(d), scanned);
        lemma_frac_nanos_nonneg(frac_part(b));
        assert(digits_val(b.take(d)) * 1_000_000_000 >= digits_val(b.take(d)))
            by (nonlinear_arith)
            requires
                digits_val(b.take(d)) > 0,
        ;
    }
}

/// A character that is neither digit nor dot, first non-digit of the
/// body, makes the token malformed.
proof fn lemma_not_decimal_at(s: Seq<char>, b: Seq<char>, start: int, i: int)
    requires
        b == s.skip(start),
        body_of(s) == b,
        0 <= start <= i < s.len(),
        forall|j: int| start <= j < i ==> is_digit(#[trigger] s[j]),
        !is_digit(s[i]),
        s[i] != '.',
    ensures
        !valid_decimal(s),
{
    if valid_decimal(s) {
        let d = first_dot(b);
        lemma_first_dot_bounds(b);
        let p = i - start;
        assert(b[p] == s[i]);
        if p < d {
            assert(is_digit(b.take(d)[p]));
        } else if p == d {
            assert(b[d] == '.');
        } else {
            assert(b[d] == '.');
            assert(is_digit(s[d + start]));
        }
    }
}

/// A non-digit inside the fraction part makes the token malformed.
proof fn lemma_bad_frac(s: Seq<char>, b: Seq<char>, start: int, d: int, j: int)
    requires
        b == s.skip(start),
        body_of(s) == b,
        0 <= start,
        start + d < s.len(),
        d == first_dot(b),
        start + d + 1 <= j < s.len(),
        !is_digit(s[j]),
    ensures
        !valid_decimal(s),
{
    lemma_first_dot_bounds(b);
    assert(start <= s.len());
    assert(b.len() == s.len() - start);
    if valid_decimal(s) {
        let p = j - start;
        vstd::seq_lib::lemma_seq_skip_index(s, start, p);
        assert(b[p] == s[j]);
        assert(d < b.len());
        vstd::seq_lib::lemma_seq_skip_index(b, d + 1, p - d - 1);
        assert(is_digit(b.skip(d + 1)[p - d - 1]));
    }
}

} // verus!
