//! Decimal-seconds timestamps, as the probe reports them: a digit string
//! with at most one decimal point, such as `"12.345"`. A timestamp is
//! converted to a whole number of milliseconds by rounding the exact value
//! of `seconds * 1000` to the nearest integer (ties go up).
use vstd::prelude::*;
use vstd::string::StrSliceExecFns;

use crate::duration::Duration;
use crate::errors::Error;

verus! {

pub open spec fn is_dec_digit(c: char) -> bool {
    48 <= c as u32 <= 57
}

pub open spec fn digit_val(c: char) -> nat {
    (c as u32 - 48) as nat
}

pub open spec fn all_digits(s: Seq<char>) -> bool {
    forall|i: int| 0 <= i < s.len() ==> is_dec_digit(#[trigger] s[i])
}

/// The number a digit string denotes, most significant digit first.
pub open spec fn digits_val(s: Seq<char>) -> nat
    decreases s.len(),
{
    if s.len() == 0 {
        0
    } else {
        digits_val(s.drop_last()) * 10 + digit_val(s.last())
    }
}

pub open spec fn pow10(k: nat) -> nat
    decreases k,
{
    if k == 0 {
        1
    } else {
        10 * pow10((k - 1) as nat)
    }
}

/// The index of the first `'.'` at or after `i`, or the length when there
/// is none.
pub open spec fn dot_pos_from(s: Seq<char>, i: int) -> int
    decreases s.len() - i,
{
    if i < 0 || i >= s.len() {
        s.len() as int
    } else if s[i] == '.' {
        i
    } else {
        dot_pos_from(s, i + 1)
    }
}

pub open spec fn dot_pos(s: Seq<char>) -> int {
    dot_pos_from(s, 0)
}

/// The digits before the decimal point.
pub open spec fn int_part(s: Seq<char>) -> Seq<char> {
    s.take(dot_pos(s))
}

/// The digits after the decimal point; empty when there is no point.
pub open spec fn frac_part(s: Seq<char>) -> Seq<char> {
    if dot_pos(s) == s.len() {
        Seq::empty()
    } else {
        s.skip(dot_pos(s) + 1)
    }
}

/// A timestamp is a run of digits with at most one decimal point and at
/// least one digit.
pub open spec fn is_valid_timestamp(s: Seq<char>) -> bool {
    &&& all_digits(int_part(s))
    &&& all_digits(frac_part(s))
    &&& int_part(s).len() + frac_part(s).len() >= 1
}

/// The milliseconds the fractional digits contribute: the first three
/// digits, rounded by the fourth. A fourth digit of five or more rounds
/// up, which is rounding the exact tail to the nearest millisecond with
/// ties going up.
pub open spec fn frac_millis(f: Seq<char>) -> nat {
    let f3 = if f.len() >= 3 {
        digits_val(f.take(3))
    } else {
        digits_val(f) * pow10((3 - f.len()) as nat)
    };
    if f.len() > 3 && digit_val(f[3]) >= 5 {
        f3 + 1
    } else {
        f3
    }
}

/// The whole timestamp in milliseconds: `round(seconds * 1000)`.
pub open spec fn timestamp_millis(s: Seq<char>) -> nat {
    digits_val(int_part(s)) * 1000 + frac_millis(frac_part(s))
}

/// `millis` reproduces the decimal-seconds timestamp `s` to within one
/// millisecond: with `n` the value of the digit string with the point
/// removed and `k` the number of fractional digits, `s` denotes `n / 10^k`
/// seconds, and `millis` differs from the exact `1000 * n / 10^k` by at
/// most one.
pub open spec fn reproduces_seconds(millis: nat, s: Seq<char>) -> bool {
    let n = digits_val(int_part(s) + frac_part(s));
    let k = frac_part(s).len();
    &&& 1000 * n <= millis * pow10(k) + pow10(k)
    &&& millis * pow10(k) <= 1000 * n + pow10(k)
}

proof fn lemma_pow10_small()
    ensures
        pow10(0) == 1,
        pow10(1) == 10,
        pow10(2) == 100,
        pow10(3) == 1000,
{
    assert(pow10(0) == 1);
    assert(pow10(1) == 10 * pow10(0));
    assert(pow10(2) == 10 * pow10(1));
    assert(pow10(3) == 10 * pow10(2));
}

proof fn lemma_pow10_pos(k: nat)
    ensures
        pow10(k) >= 1,
    decreases k,
{
    if k > 0 {
        lemma_pow10_pos((k - 1) as nat);
    }
}

proof fn lemma_pow10_add(a: nat, b: nat)
    ensures
        pow10(a + b) == pow10(a) * pow10(b),
    decreases a,
{
    if a == 0 {
        assert(pow10(0 + b) == 1 * pow10(b));
    } else {
        lemma_pow10_add((a - 1) as nat, b);
        assert(pow10(a + b) == 10 * pow10((a + b - 1) as nat));
        assert(10 * (pow10((a - 1) as nat) * pow10(b)) == (10 * pow10((a - 1) as nat)) * pow10(b))
            by (nonlinear_arith);
    }
}

proof fn lemma_digits_val_bound(s: Seq<char>)
    requires
        all_digits(s),
    ensures
        digits_val(s) < pow10(s.len()),
    decreases s.len(),
{
    if s.len() > 0 {
        assert(all_digits(s.drop_last())) by {
            assert(forall|i: int| 0 <= i < s.len() - 1 ==> s.drop_last()[i] == s[i]);
        }
        lemma_digits_val_bound(s.drop_last());
        assert(digit_val(s.last()) <= 9);
        assert(digits_val(s.drop_last()) * 10 <= (pow10((s.len() - 1) as nat) - 1) * 10)
            by (nonlinear_arith)
            requires
                digits_val(s.drop_last()) <= pow10((s.len() - 1) as nat) - 1,
        ;
    }
}

proof fn lemma_digits_val_concat(a: Seq<char>, b: Seq<char>)
    ensures
        digits_val(a + b) == digits_val(a) * pow10(b.len()) + digits_val(b),
    decreases b.len(),
{
    if b.len() == 0 {
        assert(a + b =~= a);
        assert(pow10(0) == 1);
        assert(digits_val(a) * pow10(b.len()) == digits_val(a)) by (nonlinear_arith)
            requires
                pow10(b.len()) == 1,
        ;
    } else {
        lemma_digits_val_concat(a, b.drop_last());
        assert((a + b).drop_last() =~= a + b.drop_last());
        assert((a + b).last() == b.last());
        assert(pow10(b.len()) == 10 * pow10((b.len() - 1) as nat));
        assert((digits_val(a) * pow10((b.len() - 1) as nat) + digits_val(b.drop_last())) * 10
            == digits_val(a) * (10 * pow10((b.len() - 1) as nat)) + digits_val(b.drop_last()) * 10)
            by (nonlinear_arith);
    }
}

proof fn lemma_digits_val_prefix_le(s: Seq<char>, i: int)
    requires
        0 <= i <= s.len(),
    ensures
        digits_val(s.take(i)) <= digits_val(s),
{
    assert(s =~= s.take(i) + s.skip(i));
    lemma_digits_val_concat(s.take(i), s.skip(i));
    lemma_pow10_pos(s.skip(i).len() as nat);
    assert(digits_val(s.take(i)) * pow10(s.skip(i).len() as nat) >= digits_val(s.take(i)) * 1)
        by (nonlinear_arith)
        requires
            pow10(s.skip(i).len() as nat) >= 1,
    ;
}

proof fn lemma_dot_pos_from_skip(s: Seq<char>, i: int)
    requires
        0 <= i <= s.len(),
        forall|j: int| 0 <= j < i ==> s[j] != '.',
    ensures
        dot_pos(s) == dot_pos_from(s, i),
    decreases i,
{
    if i > 0 {
        lemma_dot_pos_from_skip(s, i - 1);
    }
}

proof fn lemma_dot_pos_range(s: Seq<char>, i: int)
    requires
        0 <= i <= s.len(),
    ensures
        i <= dot_pos_from(s, i) <= s.len(),
        dot_pos_from(s, i) < s.len() ==> s[dot_pos_from(s, i)] == '.',
    decreases s.len() - i,
{
    if i < s.len() && s[i] != '.' {
        lemma_dot_pos_range(s, i + 1);
    }
}

/// The round trip on one time field: the milliseconds parsed out of a
/// well-formed decimal-seconds timestamp reproduce the reported value to
/// within one millisecond.
pub proof fn lemma_timestamp_round_trip(s: Seq<char>)
    requires
        is_valid_timestamp(s),
    ensures
        reproduces_seconds(timestamp_millis(s), s),
{
    let ip = int_part(s);
    let f = frac_part(s);
    let k = f.len();
    let i = digits_val(ip);
    let fv = digits_val(f);
    let m = timestamp_millis(s);
    let fm = frac_millis(f);
    lemma_digits_val_concat(ip, f);
    let n = digits_val(ip + f);
    assert(n == i * pow10(k) + fv);
    assert(m == i * 1000 + fm);
    // Reduce the claim to the fractional digits alone.
    assert(m * pow10(k) == (i * 1000) * pow10(k) + fm * pow10(k)) by (nonlinear_arith)
        requires
            m == i * 1000 + fm,
    ;
    assert(1000 * n == (i * 1000) * pow10(k) + 1000 * fv) by (nonlinear_arith)
        requires
            n == i * pow10(k) + fv,
    ;
    if k <= 3 {
        // No rounding: the fractional digits are scaled exactly.
        lemma_pow10_small();
        if k == 3 {
            assert(f.take(3) =~= f);
            assert(fm == fv);
            assert(pow10((3 - k) as nat) == 1);
            assert(fm == fv * pow10((3 - k) as nat)) by (nonlinear_arith)
                requires
                    fm == fv,
                    pow10((3 - k) as nat) == 1,
            ;
        }
        assert(fm == fv * pow10((3 - k) as nat));
        lemma_pow10_add((3 - k) as nat, k);
        assert(pow10((3 - k) as nat) * pow10(k) == pow10(3));
        assert(fm * pow10(k) == fv * (pow10((3 - k) as nat) * pow10(k))) by (nonlinear_arith)
            requires
                fm == fv * pow10((3 - k) as nat),
        ;
        assert(fm * pow10(k) == 1000 * fv) by (nonlinear_arith)
            requires
                fm * pow10(k) == fv * (pow10((3 - k) as nat) * pow10(k)),
                pow10((3 - k) as nat) * pow10(k) == 1000,
        ;
    } else {
        let h = digits_val(f.take(3));
        let rest = f.skip(3);
        let r = digits_val(rest);
        assert(f =~= f.take(3) + rest);
        lemma_digits_val_concat(f.take(3), rest);
        assert(fv == h * pow10((k - 3) as nat) + r);
        assert(all_digits(rest)) by {
            assert(forall|j: int| 0 <= j < rest.len() ==> rest[j] == f[j + 3]);
        }
        lemma_digits_val_bound(rest);
        assert(r < pow10((k - 3) as nat));
        assert(pow10(k) == 1000 * pow10((k - 3) as nat)) by {
            lemma_pow10_add(3, (k - 3) as nat);
            lemma_pow10_small();
        }
        assert(1000 * fv == h * (1000 * pow10((k - 3) as nat)) + 1000 * r) by (nonlinear_arith)
            requires
                fv == h * pow10((k - 3) as nat) + r,
        ;
        assert(1000 * fv == h * pow10(k) + 1000 * r);
        assert(1000 * r < 1000 * pow10((k - 3) as nat)) by (nonlinear_arith)
            requires
                r < pow10((k - 3) as nat),
        ;
        if digit_val(f[3]) >= 5 {
            // Rounded up: the tail is at least half a millisecond.
            assert(fm == h + 1);
            // rest = [f[3]] + skip(4); its value is at least 5 * 10^(k-4).
            let tail = f.skip(4);
            assert(rest =~= seq![f[3]] + tail);
            lemma_digits_val_concat(seq![f[3]], tail);
            assert(digits_val(seq![f[3]]) == digit_val(f[3])) by {
                reveal_with_fuel(digits_val, 2);
                assert(seq![f[3]].len() == 1);
                assert(seq![f[3]].drop_last().len() == 0);
                assert(seq![f[3]].last() == f[3]);
            }
            assert(r == digit_val(f[3]) * pow10(tail.len() as nat) + digits_val(tail));
            assert(digit_val(f[3]) * pow10(tail.len() as nat) >= 5 * pow10(tail.len() as nat))
                by (nonlinear_arith)
                requires
                    digit_val(f[3]) >= 5,
            ;
            assert(pow10((k - 3) as nat) == 10 * pow10((k - 4) as nat));
            assert(tail.len() == k - 4);
            assert(1000 * r >= 1000 * (5 * pow10((k - 4) as nat))) by (nonlinear_arith)
                requires
                    r >= 5 * pow10((k - 4) as nat),
            ;
            assert(1000 * (5 * pow10((k - 4) as nat)) * 2 == 1000 * (10 * pow10((k - 4) as nat)))
                by (nonlinear_arith);
            assert(2 * (1000 * r) >= pow10(k));
            assert(fm * pow10(k) == h * pow10(k) + pow10(k)) by (nonlinear_arith)
                requires
                    fm == h + 1,
            ;
        } else {
            assert(fm == h);
        }
    }
}

/// The index of the first `'.'` in `s`, or its length when there is none.
fn find_dot(s: &str) -> (r: usize)
    ensures
        r as int == dot_pos(s@),
{
    let n = s.unicode_len();
    let mut i: usize = 0;
    while i < n
        invariant
            0 <= i <= n,
            n == s@.len(),
            forall|j: int| 0 <= j < i ==> s@[j] != '.',
        decreases n - i,
    {
        if s.get_char(i) == '.' {
            proof {
                lemma_dot_pos_from_skip(s@, i as int);
            }
            return i;
        }
        i = i + 1;
    }
    proof {
        lemma_dot_pos_from_skip(s@, n as int);
    }
    n
}

/// The value of the digit run `s[from..to]`; `None` when a character is
/// not a digit or the value does not fit in 64 bits.
fn digits_value(s: &str, from: usize, to: usize) -> (r: Option<u64>)
    requires
        from <= to <= s@.len(),
    ensures
        ({
            let sub = s@.subrange(from as int, to as int);
            &&& (all_digits(sub) && digits_val(sub) <= u64::MAX ==> r == Some(digits_val(sub) as u64))
            &&& (!(all_digits(sub) && digits_val(sub) <= u64::MAX) ==> r is None)
        }),
{
    let ghost sub = s@.subrange(from as int, to as int);
    let mut acc: u64 = 0;
    let mut i: usize = from;
    while i < to
        invariant
            from <= i <= to <= s@.len(),
            sub == s@.subrange(from as int, to as int),
            forall|j: int| 0 <= j < i - from ==> is_dec_digit(#[trigger] sub[j]),
            acc == digits_val(sub.take(i - from)),
        decreases to - i,
    {
        let c = s.get_char(i);
        let code: u32 = c as u32;
        proof {
            assert(sub[i - from] == s@[i as int]);
        }
        if code < 48 || code > 57 {
            proof {
                assert(!is_dec_digit(sub[i - from]));
                assert(!all_digits(sub));
            }
            return None;
        }
        let d: u64 = (code - 48) as u64;
        proof {
            assert(sub.take(i - from + 1).drop_last() =~= sub.take(i - from));
            assert(sub.take(i - from + 1).last() == sub[i - from]);
            assert(d == digit_val(sub[i - from]));
        }
        if acc > (u64::MAX - d) / 10 {
            proof {
                // The prefix already exceeds u64::MAX, so the whole run does.
                assert(acc * 10 + d > u64::MAX) by (nonlinear_arith)
                    requires
                        acc > (u64::MAX - d) / 10,
                        d <= 9,
                ;
                assert(digits_val(sub.take(i - from + 1)) > u64::MAX);
                lemma_digits_val_prefix_le(sub, i - from + 1);
                assert(digits_val(sub) > u64::MAX);
            }
            return None;
        }
        proof {
            assert(acc * 10 + d <= u64::MAX) by (nonlinear_arith)
                requires
                    acc <= (u64::MAX - d) / 10,
                    d <= 9,
            ;
        }
        acc = acc * 10 + d;
        i = i + 1;
    }
    proof {
        assert(sub.take(to - from) =~= sub);
    }
    Some(acc)
}

/// Parses a decimal-seconds timestamp into a millisecond duration,
/// rounding to the nearest millisecond. Fails exactly when the string is
/// not a valid timestamp or the millisecond count does not fit in 64 bits.
pub fn parse_timestamp(s: &str) -> (r: Result<Duration, Error>)
    ensures
        is_valid_timestamp(s@) && timestamp_millis(s@) <= u64::MAX ==> (r matches Ok(d)
            && d.millis == timestamp_millis(s@)),
        !(is_valid_timestamp(s@) && timestamp_millis(s@) <= u64::MAX) ==> r == Err::<
            Duration,
            Error,
        >(Error::InvalidTimestamp),
{
    let n = s.unicode_len();
    let dot = find_dot(s);
    proof {
        lemma_dot_pos_range(s@, 0);
        assert(int_part(s@) =~= s@.subrange(0, dot as int));
    }
    let ival = match digits_value(s, 0, dot) {
        Some(v) => v,
        None => {
            proof {
                let ip = int_part(s@);
                if all_digits(ip) {
                    assert(digits_val(ip) > u64::MAX);
                    assert(digits_val(ip) * 1000 >= digits_val(ip)) by (nonlinear_arith);
                }
            }
            return Err(Error::InvalidTimestamp);
        },
    };
    let ghost f = frac_part(s@);
    let mut fm: u64 = 0;
    if dot < n {
        let flen = n - dot - 1;
        proof {
            assert(f =~= s@.skip(dot as int + 1));
            assert(f.len() == flen);
        }
        if dot == 0 && flen == 0 {
            // The string is just ".".
            proof {
                assert(int_part(s@).len() + f.len() == 0);
            }
            return Err(Error::InvalidTimestamp);
        }
        // Every fractional character must be a digit.
        let mut j: usize = 0;
        while j < flen
            invariant
                0 <= j <= flen,
                n == s@.len(),
                dot < n,
                flen == n - dot - 1,
                f == frac_part(s@),
                f =~= s@.skip(dot as int + 1),
                f.len() == flen,
                forall|j2: int| 0 <= j2 < j ==> is_dec_digit(#[trigger] f[j2]),
            decreases flen - j,
        {
            let c = s.get_char(dot + 1 + j);
            proof {
                assert(f[j as int] == s@[dot + 1 + j]);
            }
            if (c as u32) < 48 || (c as u32) > 57 {
                proof {
                    assert(!is_dec_digit(f[j as int]));
                    assert(!all_digits(f));
                }
                return Err(Error::InvalidTimestamp);
            }
            j = j + 1;
        }
        proof {
            assert(all_digits(f));
        }
        // The value of the first three fractional digits, in milliseconds.
        let m3: usize = if flen < 3 {
            flen
        } else {
            3
        };
        let mut f3: u64 = 0;
        let mut t: usize = 0;
        while t < m3
            invariant
                0 <= t <= m3 <= 3,
                m3 <= f.len(),
                n == s@.len(),
                dot < n,
                flen == n - dot - 1,
                f == frac_part(s@),
                f =~= s@.skip(dot as int + 1),
                all_digits(f),
                f3 == digits_val(f.take(t as int)),
                f3 < pow10(t as nat),
            decreases m3 - t,
        {
            let c = s.get_char(dot + 1 + t);
            proof {
                assert(f[t as int] == s@[dot + 1 + t]);
                assert(f.take(t + 1).drop_last() =~= f.take(t as int));
                assert(f.take(t + 1).last() == f[t as int]);
                lemma_pow10_small();
            }
            f3 = f3 * 10 + ((c as u32 - 48) as u64);
            t = t + 1;
        }
        proof {
            lemma_pow10_small();
        }
        // Scale when fewer than three digits are present.
        if flen == 0 {
            proof {
                assert(f.take(0) =~= f);
                assert(digits_val(f) * pow10((3 - f.len()) as nat) == 0) by (nonlinear_arith)
                    requires
                        digits_val(f) == 0,
                ;
            }
        } else if flen == 1 {
            f3 = f3 * 100;
            proof {
                assert(f.take(1) =~= f);
                assert(digits_val(f) * pow10((3 - f.len()) as nat) == digits_val(f) * 100)
                    by (nonlinear_arith)
                    requires
                        pow10((3 - f.len()) as nat) == 100,
                ;
            }
        } else if flen == 2 {
            f3 = f3 * 10;
            proof {
                assert(f.take(2) =~= f);
                assert(digits_val(f) * pow10((3 - f.len()) as nat) == digits_val(f) * 10)
                    by (nonlinear_arith)
                    requires
                        pow10((3 - f.len()) as nat) == 10,
                ;
            }
        } else {
            proof {
                assert(f3 == digits_val(f.take(3)));
            }
        }
        fm = f3;
        // Round by the fourth digit, when there is one.
        if flen > 3 {
            let c4 = s.get_char(dot + 1 + 3);
            proof {
                assert(f[3] == s@[dot + 1 + 3]);
            }
            if (c4 as u32) >= 53 {
                fm = fm + 1;
            }
        }
        proof {
            assert(fm == frac_millis(f));
        }
    } else {
        proof {
            assert(f =~= Seq::<char>::empty());
            lemma_pow10_small();
            assert(digits_val(f) * pow10((3 - f.len()) as nat) == 0) by (nonlinear_arith)
                requires
                    digits_val(f) == 0,
            ;
            assert(fm == frac_millis(f));
        }
    }
    proof {
        assert(fm <= 1000);
        assert(is_valid_timestamp(s@) <==> int_part(s@).len() + f.len() >= 1);
        assert(timestamp_millis(s@) == ival * 1000 + fm);
    }
    if n == 0 {
        return Err(Error::InvalidTimestamp);
    }
    if ival <= (u64::MAX - fm) / 1000 {
        proof {
            assert(ival * 1000 + fm <= u64::MAX) by (nonlinear_arith)
                requires
                    ival <= (u64::MAX - fm) / 1000,
                    fm <= 1000,
            ;
        }
        Ok(Duration::from_millis(ival * 1000 + fm))
    } else {
        proof {
            assert(ival * 1000 + fm > u64::MAX) by (nonlinear_arith)
                requires
                    ival > (u64::MAX - fm) / 1000,
                    fm <= 1000,
            ;
        }
        Err(Error::InvalidTimestamp)
    }
}

} // verus!
