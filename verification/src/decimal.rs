//! Decimal integers: parsing as `str::parse` does, and formatting as `Display` does.
use vstd::prelude::*;

verus! {

pub open spec fn is_ascii_digit(c: char) -> bool {
    '0' <= c && c <= '9'
}

pub open spec fn digit_value(c: char) -> int {
    (c as int) - ('0' as int)
}

pub open spec fn all_digits(s: Seq<char>) -> bool {
    forall|i: int| 0 <= i < s.len() ==> is_ascii_digit(#[trigger] s[i])
}

/// The number that the decimal digits `s` denote.
pub open spec fn digits_value(s: Seq<char>) -> int
    decreases s.len(),
{
    if s.len() == 0 {
        0
    } else {
        digits_value(s.drop_last()) * 10 + digit_value(s.last())
    }
}

/// The digits of an unsigned number: `s` without one leading `+`.
pub open spec fn unsigned_digits(s: Seq<char>) -> Seq<char> {
    if s.len() > 0 && s[0] == '+' {
        s.drop_first()
    } else {
        s
    }
}

/// What parsing `s` as an unsigned integer type whose largest value is `max` gives:
/// an optional `+`, then at least one ASCII digit, and nothing else.
pub open spec fn parse_unsigned(s: Seq<char>, max: int) -> Option<int> {
    let d = unsigned_digits(s);
    if d.len() > 0 && all_digits(d) && digits_value(d) <= max {
        Some(digits_value(d))
    } else {
        None
    }
}

/// What parsing `s` as a signed integer type with bounds `min` and `max` gives:
/// an optional `+` or `-`, then at least one ASCII digit, and nothing else.
pub open spec fn parse_signed(s: Seq<char>, min: int, max: int) -> Option<int> {
    if s.len() > 0 && s[0] == '-' {
        let d = s.drop_first();
        if d.len() > 0 && all_digits(d) && -digits_value(d) >= min {
            Some(-digits_value(d))
        } else {
            None
        }
    } else {
        parse_unsigned(s, max)
    }
}

pub open spec fn digit_char(d: int) -> char {
    (('0' as int) + d) as char
}

/// The decimal representation of `n`, without leading zeros.
pub open spec fn decimal(n: nat) -> Seq<char>
    decreases n,
{
    if n < 10 {
        seq![digit_char(n as int)]
    } else {
        decimal(n / 10).push(digit_char((n % 10) as int))
    }
}

/// The decimal representation of a signed number, with `-` before a negative one.
pub open spec fn signed_decimal(n: int) -> Seq<char> {
    if n < 0 {
        seq!['-'] + decimal((-n) as nat)
    } else {
        decimal(n as nat)
    }
}

pub proof fn lemma_digits_value_nonneg(s: Seq<char>)
    requires
        all_digits(s),
    ensures
        digits_value(s) >= 0,
    decreases s.len(),
{
    if s.len() > 0 {
        assert(all_digits(s.drop_last())) by {
            assert forall|i: int| 0 <= i < s.drop_last().len() implies is_ascii_digit(
                #[trigger] s.drop_last()[i],
            ) by {
                assert(s.drop_last()[i] == s[i]);
            }
        }
        lemma_digits_value_nonneg(s.drop_last());
        assert(is_ascii_digit(s[s.len() - 1]));
    }
}

pub proof fn lemma_digits_value_prefix(s: Seq<char>, k: int)
    requires
        all_digits(s),
        0 <= k <= s.len(),
    ensures
        digits_value(s.take(k)) <= digits_value(s),
    decreases s.len() - k,
{
    if k < s.len() {
        lemma_digits_value_prefix(s, k + 1);
        let t = s.take(k + 1);
        assert(t.drop_last() =~= s.take(k));
        assert(all_digits(s.take(k))) by {
            assert forall|i: int| 0 <= i < s.take(k).len() implies is_ascii_digit(
                #[trigger] s.take(k)[i],
            ) by {
                assert(s.take(k)[i] == s[i]);
            }
        }
        lemma_digits_value_nonneg(s.take(k));
        assert(is_ascii_digit(s[k]));
    } else {
        assert(s.take(k) =~= s);
    }
}

/// Parses a run of decimal digits whose value may be at most `bound`.
fn parse_digits_bounded(d: &str, bound: u64) -> (r: Option<u64>)
    ensures
        r matches Some(v) ==> d@.len() > 0 && all_digits(d@) && digits_value(d@) <= bound
            && v == digits_value(d@),
        r is None ==> !(d@.len() > 0 && all_digits(d@) && digits_value(d@) <= bound),
{
    let n = d.unicode_len();
    if n == 0 {
        return None;
    }
    let mut acc: u64 = 0;
    let mut i: usize = 0;
    while i < n
        invariant
            n == d@.len(),
            i <= n,
            all_digits(d@.take(i as int)),
            acc == digits_value(d@.take(i as int)),
            acc <= bound,
        decreases n - i,
    {
        let c = d.get_char(i);
        if !('0' <= c && c <= '9') {
            assert(!is_ascii_digit(d@[i as int]));
            return None;
        }
        let digit = (c as u32 - '0' as u32) as u64;
        let ghost t = d@.take(i as int + 1);
        assert(t.drop_last() =~= d@.take(i as int));
        assert(all_digits(t)) by {
            assert forall|j: int| 0 <= j < t.len() implies is_ascii_digit(#[trigger] t[j]) by {
                if j < i {
                    assert(t[j] == d@.take(i as int)[j]);
                }
            }
        }
        let next = match acc.checked_mul(10) {
            Some(m) => m.checked_add(digit),
            None => None,
        };
        match next {
            Some(v) if v <= bound => {
                acc = v;
            },
            _ => {
                proof {
                    if all_digits(d@) {
                        lemma_digits_value_prefix(d@, i as int + 1);
                    }
                }
                return None;
            },
        }
        i = i + 1;
    }
    assert(d@.take(n as int) =~= d@);
    Some(acc)
}

/// Parses `s` as `str::parse::<u64>` does.
pub fn parse_u64(s: &str) -> (r: Option<u64>)
    ensures
        r matches Some(v) ==> parse_unsigned(s@, u64::MAX as int) == Some(v as int),
        r is None ==> parse_unsigned(s@, u64::MAX as int) is None,
{
    let n = s.unicode_len();
    if n > 0 && s.get_char(0) == '+' {
        let d = s.substring_char(1, n);
        assert(d@ =~= s@.drop_first());
        parse_digits_bounded(d, u64::MAX)
    } else {
        parse_digits_bounded(s, u64::MAX)
    }
}

/// Parses `s` as `str::parse::<usize>` does.
pub fn parse_usize(s: &str) -> (r: Option<usize>)
    ensures
        r matches Some(v) ==> parse_unsigned(s@, usize::MAX as int) == Some(v as int),
        r is None ==> parse_unsigned(s@, usize::MAX as int) is None,
{
    let n = s.unicode_len();
    let d = if n > 0 && s.get_char(0) == '+' {
        s.substring_char(1, n)
    } else {
        s
    };
    assert(d@ =~= unsigned_digits(s@));
    match parse_digits_bounded(d, usize::MAX as u64) {
        Some(v) => Some(v as usize),
        None => None,
    }
}

/// Parses `s` as `str::parse::<i64>` does.
pub fn parse_i64(s: &str) -> (r: Option<i64>)
    ensures
        r matches Some(v) ==> parse_signed(s@, i64::MIN as int, i64::MAX as int) == Some(v as int),
        r is None ==> parse_signed(s@, i64::MIN as int, i64::MAX as int) is None,
{
    let n = s.unicode_len();
    if n > 0 && s.get_char(0) == '-' {
        let d = s.substring_char(1, n);
        assert(d@ =~= s@.drop_first());
        match parse_digits_bounded(d, 0x8000_0000_0000_0000u64) {
            Some(v) => {
                if v == 0x8000_0000_0000_0000u64 {
                    Some(i64::MIN)
                } else {
                    Some(-(v as i64))
                }
            },
            None => None,
        }
    } else {
        let d = if n > 0 && s.get_char(0) == '+' {
            s.substring_char(1, n)
        } else {
            s
        };
        assert(d@ =~= unsigned_digits(s@));
        match parse_digits_bounded(d, i64::MAX as u64) {
            Some(v) => Some(v as i64),
            None => None,
        }
    }
}

/// The decimal digit `d` as a one-character string.
fn digit_string(d: u64) -> (r: String)
    requires
        d < 10,
    ensures
        r@ == seq![digit_char(d as int)],
{
    let digits = "0123456789";
    proof {
        reveal_strlit("0123456789");
    }
    let one = digits.substring_char(d as usize, d as usize + 1);
    let r = String::from_str(one);
    assert(r@ =~= seq![digit_char(d as int)]);
    r
}

/// Formats `n` in decimal, as `u64::to_string` does.
pub fn u64_to_decimal(n: u64) -> (r: String)
    ensures
        r@ == decimal(n as nat),
    decreases n,
{
    if n < 10 {
        digit_string(n)
    } else {
        let mut r = u64_to_decimal(n / 10);
        let last = digit_string(n % 10);
        r.append(last.as_str());
        assert(r@ =~= decimal((n / 10) as nat).push(digit_char((n % 10) as int)));
        r
    }
}

/// Formats `n` in decimal, as `i64::to_string` does.
pub fn i64_to_decimal(n: i64) -> (r: String)
    ensures
        r@ == signed_decimal(n as int),
{
    if n < 0 {
        let magnitude: u64 = if n == i64::MIN {
            0x8000_0000_0000_0000u64
        } else {
            (-n) as u64
        };
        let digits = u64_to_decimal(magnitude);
        let minus = "-";
        proof {
            reveal_strlit("-");
        }
        let r = String::from_str(minus).concat(digits.as_str());
        assert(r@ =~= seq!['-'] + decimal((-(n as int)) as nat));
        r
    } else {
        u64_to_decimal(n as u64)
    }
}

/// Formats `n` in decimal, as `usize::to_string` does.
pub fn usize_to_decimal(n: usize) -> (r: String)
    ensures
        r@ == decimal(n as nat),
{
    u64_to_decimal(n as u64)
}

/// The decimal representation of `n` is a run of digits that stands for
/// `n`, and it does not begin with a sign.
pub proof fn lemma_decimal_digits(n: nat)
    ensures
        all_digits(decimal(n)),
        decimal(n).len() > 0,
        digits_value(decimal(n)) == n,
    decreases n,
{
    let d = decimal(n);
    if n < 10 {
        assert(digit_value(digit_char(n as int)) == n);
        assert(d.drop_last() =~= Seq::<char>::empty());
        assert(digits_value(d) == digits_value(d.drop_last()) * 10 + digit_value(d.last()));
    } else {
        lemma_decimal_digits(n / 10);
        let q = decimal(n / 10);
        assert(d == q.push(digit_char((n % 10) as int)));
        assert(d.drop_last() =~= q);
        assert(digit_value(digit_char((n % 10) as int)) == n % 10);
        assert(all_digits(d)) by {
            assert forall|i: int| 0 <= i < d.len() implies is_ascii_digit(#[trigger] d[i]) by {
                if i < q.len() {
                    assert(d[i] == q[i]);
                }
            }
        }
        assert(d.last() == digit_char((n % 10) as int));
        assert(digits_value(d) == digits_value(q) * 10 + digit_value(d.last()));
        assert((n / 10) * 10 + n % 10 == n) by (nonlinear_arith);
    }
}

/// Parsing a number's decimal representation gives the number back.
pub proof fn lemma_parse_signed_decimal(n: int, min: int, max: int)
    requires
        min <= n <= max,
    ensures
        parse_signed(signed_decimal(n), min, max) == Some(n),
        forall|i: int| 0 <= i < signed_decimal(n).len() ==> (is_ascii_digit(
            #[trigger] signed_decimal(n)[i],
        ) || signed_decimal(n)[i] == '-'),
{
    if n < 0 {
        let d = decimal((-n) as nat);
        lemma_decimal_digits((-n) as nat);
        let s = signed_decimal(n);
        assert(s == seq!['-'] + d);
        assert(s.drop_first() =~= d);
        assert forall|i: int| 0 <= i < s.len() implies (is_ascii_digit(#[trigger] s[i]) || s[i]
            == '-') by {
            if i > 0 {
                assert(s[i] == d[i - 1]);
            }
        }
    } else {
        let d = decimal(n as nat);
        lemma_decimal_digits(n as nat);
        assert(is_ascii_digit(d[0]));
        assert(unsigned_digits(d) == d);
    }
}

} // verus!
