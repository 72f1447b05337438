//! Exact decimal numerals.
//!
//! The upstream service reports each measurement as text: a decimal numeral,
//! or the sentinel `"-"` for "no measurement". A numeral is kept exactly as
//! its digit string, so nothing is rounded on the way to storage.

use vstd::prelude::*;
use vstd::string::*;

verus! {

/// An exact decimal number. `mantissa` is the digit string read as an
/// integer, `scale` says how many of its digits lie behind the decimal
/// point, and `neg` whether a leading minus sign was present: the value
/// denoted is `(-1)^neg * mantissa / 10^scale`.
#[derive(Clone, Copy, PartialEq, Eq, Structural, Debug)]
pub struct Decimal {
    pub neg: bool,
    pub mantissa: u64,
    pub scale: u8,
}

/// Longest run of digits (integer and fraction part together) accepted in a
/// numeral: every 18-digit value fits a `u64` mantissa exactly.
pub const MAX_DECIMAL_DIGITS: usize = 18;

pub open spec fn is_digit(c: char) -> bool {
    '0' as u32 <= c as u32 && c as u32 <= '9' as u32
}

pub open spec fn digit_val(c: char) -> int {
    c as u32 - '0' as u32
}

/// The number denoted by a digit string, most significant digit first.
pub open spec fn digits_val(s: Seq<char>) -> int
    decreases s.len(),
{
    if s.len() == 0 {
        0
    } else {
        digits_val(s.drop_last()) * 10 + digit_val(s.last())
    }
}

pub open spec fn all_digits(s: Seq<char>) -> bool {
    forall|i: int| 0 <= i < s.len() ==> is_digit(#[trigger] s[i])
}

pub open spec fn pow10(n: nat) -> int
    decreases n,
{
    if n == 0 {
        1
    } else {
        10 * pow10((n - 1) as nat)
    }
}

pub proof fn lemma_pow10_positive(n: nat)
    ensures
        pow10(n) >= 1,
    decreases n,
{
    if n > 0 {
        lemma_pow10_positive((n - 1) as nat);
    }
}

/// A digit string of `n` digits denotes a number below `10^n`.
pub proof fn lemma_digits_val_bound(s: Seq<char>)
    requires
        all_digits(s),
    ensures
        0 <= digits_val(s) < pow10(s.len()),
    decreases s.len(),
{
    if s.len() > 0 {
        assert(all_digits(s.drop_last()));
        lemma_digits_val_bound(s.drop_last());
        assert(digit_val(s.last()) <= 9);
    }
}

/// Index of the first `'.'` in `s`, or `s.len()` where there is none.
pub open spec fn first_dot(s: Seq<char>) -> int
    decreases s.len(),
{
    if s.len() == 0 {
        0
    } else if s[0] == '.' {
        0
    } else {
        1 + first_dot(s.skip(1))
    }
}

pub proof fn lemma_first_dot(s: Seq<char>)
    ensures
        0 <= first_dot(s) <= s.len(),
        first_dot(s) < s.len() ==> s[first_dot(s)] == '.',
        forall|j: int| 0 <= j < first_dot(s) ==> s[j] != '.',
    decreases s.len(),
{
    if s.len() > 0 && s[0] != '.' {
        lemma_first_dot(s.skip(1));
        assert forall|j: int| 0 <= j < first_dot(s) implies s[j] != '.' by {
            if j > 0 {
                assert(s.skip(1)[j - 1] != '.');
            }
        }
        if first_dot(s) < s.len() {
            assert(s[first_dot(s)] == s.skip(1)[first_dot(s) - 1]);
        }
    }
}

/// The sign of a numeral, and the text that follows it.
pub open spec fn spec_sign_split(s: Seq<char>) -> (bool, Seq<char>) {
    if s.len() >= 1 && s[0] == '-' {
        (true, s.skip(1))
    } else if s.len() >= 1 && s[0] == '+' {
        (false, s.skip(1))
    } else {
        (false, s)
    }
}

/// The digit string and scale of an unsigned numeral of the shape
/// `digits` or `digits '.' digits`; `None` where `s` is not of that shape.
pub open spec fn spec_unsigned_digits(s: Seq<char>) -> Option<(Seq<char>, nat)> {
    let d = first_dot(s);
    if d == s.len() {
        if s.len() >= 1 && all_digits(s) {
            Some((s, 0 as nat))
        } else {
            None
        }
    } else {
        let ip = s.subrange(0, d);
        let fp = s.subrange(d + 1, s.len() as int);
        if ip.len() >= 1 && fp.len() >= 1 && all_digits(ip) && all_digits(fp) {
            Some((ip + fp, fp.len()))
        } else {
            None
        }
    }
}

/// The decimal denoted by `s`: an optional sign, then an unsigned numeral
/// of at most `MAX_DECIMAL_DIGITS` digits. `None` for anything else — in
/// particular for the bare sentinel `"-"` and for empty text.
pub open spec fn spec_parse_decimal(s: Seq<char>) -> Option<Decimal> {
    let (neg, rest) = spec_sign_split(s);
    match spec_unsigned_digits(rest) {
        Some((ds, sc)) => {
            if ds.len() <= MAX_DECIMAL_DIGITS {
                Some(Decimal { neg, mantissa: digits_val(ds) as u64, scale: sc as u8 })
            } else {
                None
            }
        },
        None => None,
    }
}

pub(crate) fn is_digit_char(c: char) -> (r: bool)
    ensures
        r == is_digit(c),
{
    '0' as u32 <= c as u32 && c as u32 <= '9' as u32
}

pub(crate) fn digit_of(c: char) -> (d: u64)
    requires
        is_digit(c),
    ensures
        d == digit_val(c),
{
    (c as u32 - '0' as u32) as u64
}

/// Folds the digits of `t` onto an accumulator that already denotes the
/// digit string `pre`, so that the result denotes `pre + t`.
fn digits_accum(t: &str, acc: u64, pre: Ghost<Seq<char>>) -> (r: u64)
    requires
        all_digits(t@),
        all_digits(pre@),
        acc == digits_val(pre@),
        pre@.len() + t@.len() <= MAX_DECIMAL_DIGITS,
    ensures
        r == digits_val(pre@ + t@),
{
    let n = t.unicode_len();
    let mut acc = acc;
    let mut i: usize = 0;
    proof {
        lemma_pow10_concrete();
        assert(pre@ + t@.take(0) =~= pre@);
    }
    while i < n
        invariant
            i <= n,
            n == t@.len(),
            all_digits(t@),
            all_digits(pre@),
            pre@.len() + n <= MAX_DECIMAL_DIGITS,
            acc == digits_val(pre@ + t@.take(i as int)),
            pow10(17) == 100000000000000000,
            pow10(18) == 1000000000000000000,
        decreases n - i,
    {
        let c = t.get_char(i);
        proof {
            let cur = pre@ + t@.take(i as int);
            assert(all_digits(cur)) by {
                assert(forall|k: int|
                    0 <= k < cur.len() ==> #[trigger] cur[k] == if k < pre@.len() {
                        pre@[k]
                    } else {
                        t@[k - pre@.len()]
                    });
            }
            lemma_digits_val_bound(cur);
            lemma_pow10_monotone(cur.len(), 17 as nat);
            let next = pre@ + t@.take(i + 1);
            assert(next.drop_last() =~= cur);
            assert(next.last() == t@[i as int]);
        }
        let d = digit_of(c);
        acc = acc * 10 + d;
        i += 1;
    }
    proof {
        assert(t@.take(n as int) =~= t@);
    }
    acc
}

/// Reads one measurement value as the upstream service sends it. Yields the
/// exact decimal for numeric text, and `None` for the sentinel `"-"`, for
/// any other non-numeric text, and for numerals of more than
/// `MAX_DECIMAL_DIGITS` digits.
pub fn parse_decimal(s: &str) -> (r: Option<Decimal>)
    ensures
        r == spec_parse_decimal(s@),
{
    let n = s.unicode_len();
    let mut start: usize = 0;
    let mut neg = false;
    if n >= 1 {
        let c0 = s.get_char(0);
        if c0 == '-' {
            neg = true;
            start = 1;
        } else if c0 == '+' {
            start = 1;
        }
    }
    let ghost rest = s@.skip(start as int);
    proof {
        assert(neg == spec_sign_split(s@).0);
        assert(rest == spec_sign_split(s@).1);
        assert(forall|k: int| 0 <= k < rest.len() ==> #[trigger] rest[k] == s@[k + start]);
        lemma_first_dot(rest);
    }

    // One scan over the text after the sign: find the decimal point, refuse
    // any character that is neither a digit nor a single interior point.
    let mut dot: usize = n;  // absolute index of the point; `n` while none found
    let mut cnt: usize = 0;  // digits seen
    let mut j: usize = start;
    while j < n
        invariant
            start <= j <= n,
            start <= 1,
            dot <= n,
            n == s@.len(),
            rest == s@.skip(start as int),
            neg == spec_sign_split(s@).0,
            rest == spec_sign_split(s@).1,
            rest.len() == n - start,
            forall|k: int| 0 <= k < rest.len() ==> #[trigger] rest[k] == s@[k + start],
            forall|k: int| start <= k < j && k != dot ==> is_digit(#[trigger] s@[k]),
            dot == n ==> forall|k: int| start <= k < j ==> s@[k] != '.',
            dot < n ==> start < dot < j && s@[dot as int] == '.',
            cnt == if dot == n {
                j - start
            } else {
                j - start - 1
            },
        decreases n - j,
    {
        let c = s.get_char(j);
        if c == '.' {
            if j == start {
                // a decimal point with no digits before it
                proof {
                    assert(rest[0] == '.');
                    assert(first_dot(rest) == 0);
                    assert(rest.subrange(0, 0).len() == 0);
                }
                return None;
            }
            if dot < n {
                // a second decimal point: the fraction part is not all digits
                proof {
                    let d = dot - start;
                    assert(first_dot(rest) == d) by {
                        lemma_first_dot(rest);
                        assert(rest[d] == '.');
                        if first_dot(rest) < d {
                            assert(is_digit(s@[first_dot(rest) + start]));
                            assert(rest[first_dot(rest)] == '.');
                        }
                    }
                    let fp = rest.subrange(d + 1, rest.len() as int);
                    assert(fp[j - start - d - 1] == rest[j - start]);
                    assert(rest[j - start] == '.');
                    assert(!is_digit('.')) by {
                        assert('.' as u32 == 46);
                    }
                    assert(!all_digits(fp));
                }
                return None;
            }
            dot = j;
        } else if is_digit_char(c) {
            cnt += 1;
        } else {
            // not numeric text, whichever part of the numeral this falls in
            proof {
                lemma_first_dot(rest);
                let d = first_dot(rest);
                let jr = j - start;
                assert(rest[jr] == s@[j as int]);
                if d == rest.len() {
                    assert(!all_digits(rest));
                } else if jr < d {
                    let ip = rest.subrange(0, d);
                    assert(ip[jr] == rest[jr]);
                    assert(!all_digits(ip));
                } else {
                    let fp = rest.subrange(d + 1, rest.len() as int);
                    assert(jr != d);
                    assert(fp[jr - d - 1] == rest[jr]);
                    assert(!all_digits(fp));
                }
            }
            return None;
        }
        j += 1;
    }

    let ghost d = first_dot(rest);
    proof {
        lemma_first_dot(rest);
        if dot == n {
            if d < rest.len() {
                assert(rest[d] == s@[d + start]);
            }
            assert(d == rest.len());
        } else {
            assert(rest[dot - start] == '.');
            if d < dot - start {
                assert(is_digit(s@[d + start]));
                assert(rest[d] == '.');
                assert(!is_digit('.')) by {
                    assert('.' as u32 == 46);
                }
            }
            assert(d == dot - start);
        }
    }

    if start == n {
        // empty text, or a bare sign: in particular the sentinel "-"
        return None;
    }
    if dot < n && dot + 1 == n {
        // a decimal point with no fraction digits behind it
        proof {
            assert(rest.subrange(d + 1, rest.len() as int).len() == 0);
        }
        return None;
    }
    if cnt > MAX_DECIMAL_DIGITS {
        proof {
            if dot == n {
                assert(rest.len() > MAX_DECIMAL_DIGITS);
            } else {
                let ip = rest.subrange(0, d);
                let fp = rest.subrange(d + 1, rest.len() as int);
                assert((ip + fp).len() == cnt);
            }
        }
        return None;
    }

    // The shape is settled: sign, digits, and at most one interior point.
    let end_int = if dot == n {
        n
    } else {
        dot
    };
    let ip_str = s.substring_char(start, end_int);
    proof {
        let ip = if dot == n {
            rest
        } else {
            rest.subrange(0, d)
        };
        assert(ip_str@ =~= ip);
        assert(all_digits(ip));
        assert(digits_val(Seq::<char>::empty()) == 0);
    }
    let m_int = digits_accum(ip_str, 0, Ghost(Seq::empty()));

    if dot == n {
        proof {
            assert(Seq::<char>::empty() + rest =~= rest);
            lemma_digits_val_bound(rest);
            lemma_pow10_monotone(rest.len(), 18 as nat);
            lemma_pow10_concrete();
            let parsed = spec_parse_decimal(s@);
            assert(parsed == Some(Decimal { neg, mantissa: digits_val(rest) as u64, scale: 0u8 }));
        }
        Some(Decimal { neg, mantissa: m_int, scale: 0u8 })
    } else {
        let fp_str = s.substring_char(dot + 1, n);
        let ghost ip = rest.subrange(0, d);
        let ghost fp = rest.subrange(d + 1, rest.len() as int);
        proof {
            assert(fp_str@ =~= fp);
            assert(all_digits(fp));
            assert(Seq::<char>::empty() + ip =~= ip);
            assert(ip.len() + fp.len() == cnt);
        }
        let mantissa = digits_accum(fp_str, m_int, Ghost(ip));
        let scale = (n - 1 - dot) as u8;
        proof {
            assert(fp.len() == n - 1 - dot);
            lemma_digits_val_bound(ip + fp);
            lemma_pow10_monotone((ip + fp).len(), 18 as nat);
            lemma_pow10_concrete();
            let parsed = spec_parse_decimal(s@);
            assert(parsed == Some(
                Decimal { neg, mantissa: digits_val(ip + fp) as u64, scale: fp.len() as u8 },
            ));
        }
        Some(Decimal { neg, mantissa, scale })
    }
}

pub open spec fn spec_digit_char(d: int) -> char {
    if d == 0 {
        '0'
    } else if d == 1 {
        '1'
    } else if d == 2 {
        '2'
    } else if d == 3 {
        '3'
    } else if d == 4 {
        '4'
    } else if d == 5 {
        '5'
    } else if d == 6 {
        '6'
    } else if d == 7 {
        '7'
    } else if d == 8 {
        '8'
    } else {
        '9'
    }
}

/// The decimal numeral of `n`, most significant digit first.
pub open spec fn spec_nat_string(n: nat) -> Seq<char>
    decreases n,
{
    if n < 10 {
        seq![spec_digit_char(n as int)]
    } else {
        spec_nat_string(n / 10).push(spec_digit_char((n % 10) as int))
    }
}

proof fn lemma_digit_char_val(d: int)
    requires
        0 <= d <= 9,
    ensures
        is_digit(spec_digit_char(d)),
        digit_val(spec_digit_char(d)) == d,
{
    assert('0' as u32 == 48 && '1' as u32 == 49 && '2' as u32 == 50 && '3' as u32 == 51 && '4'
        as u32 == 52 && '5' as u32 == 53 && '6' as u32 == 54 && '7' as u32 == 55 && '8' as u32
        == 56 && '9' as u32 == 57);
}

/// The numeral spec is faithful: rendering `n` gives a digit string that
/// denotes `n` itself.
pub proof fn lemma_nat_string_value(n: nat)
    ensures
        all_digits(spec_nat_string(n)),
        digits_val(spec_nat_string(n)) == n,
        spec_nat_string(n).len() >= 1,
    decreases n,
{
    if n < 10 {
        reveal_with_fuel(digits_val, 3);
        lemma_digit_char_val(n as int);
        assert(spec_nat_string(n).drop_last() =~= Seq::<char>::empty());
    } else {
        lemma_nat_string_value(n / 10);
        lemma_digit_char_val((n % 10) as int);
        let s = spec_nat_string(n / 10);
        let c = spec_digit_char((n % 10) as int);
        assert(s.push(c).drop_last() =~= s);
        assert(s.push(c).last() == c);
        assert(n == (n / 10) * 10 + n % 10) by (nonlinear_arith);
        assert(all_digits(s.push(c))) by {
            assert(forall|i: int|
                0 <= i < s.len() ==> #[trigger] s.push(c)[i] == s[i]);
        }
    }
}

fn digit_str(d: u64) -> (r: &'static str)
    requires
        d < 10,
    ensures
        r@ == seq![spec_digit_char(d as int)],
{
    proof {
        reveal_strlit("0");
        reveal_strlit("1");
        reveal_strlit("2");
        reveal_strlit("3");
        reveal_strlit("4");
        reveal_strlit("5");
        reveal_strlit("6");
        reveal_strlit("7");
        reveal_strlit("8");
        reveal_strlit("9");
    }
    let r = if d == 0 {
        "0"
    } else if d == 1 {
        "1"
    } else if d == 2 {
        "2"
    } else if d == 3 {
        "3"
    } else if d == 4 {
        "4"
    } else if d == 5 {
        "5"
    } else if d == 6 {
        "6"
    } else if d == 7 {
        "7"
    } else if d == 8 {
        "8"
    } else {
        "9"
    };
    proof {
        assert(r@ =~= seq![spec_digit_char(d as int)]);
    }
    r
}

/// Renders `n` as its decimal numeral.
pub fn u64_to_string(n: u64) -> (s: String)
    ensures
        s@ == spec_nat_string(n as nat),
    decreases n,
{
    if n < 10 {
        String::from_str(digit_str(n))
    } else {
        let mut s = u64_to_string(n / 10);
        s.append(digit_str(n % 10));
        proof {
            assert(s@ =~= spec_nat_string((n / 10) as nat).push(
                spec_digit_char((n % 10) as int),
            ));
        }
        s
    }
}

pub proof fn lemma_pow10_concrete()
    ensures
        pow10(17) == 100000000000000000,
        pow10(18) == 1000000000000000000,
{
    reveal_with_fuel(pow10, 19);
}

pub proof fn lemma_pow10_monotone(a: nat, b: nat)
    requires
        a <= b,
    ensures
        pow10(a) <= pow10(b),
    decreases b,
{
    if a < b {
        lemma_pow10_monotone(a, (b - 1) as nat);
        lemma_pow10_positive((b - 1) as nat);
    }
}

} // verus!
