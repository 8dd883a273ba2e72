//! Decimal numbers in text: reading a count of kilobytes, writing whole numbers,
//! megabytes to one decimal place, and an uptime as days, hours and minutes.
use vstd::prelude::*;

verus! {

/// The character of the decimal digit `d`.
pub open spec fn digit_char(d: nat) -> char {
    if d == 0 {
        '0'
    } else if d == 1 {
        '1'
    } else if d == 2 {
        '2'
    } else if d == 3 {
        '3'
    } else if d == 4 {
        '4'
    } else if d == 5 {
        '5'
    } else if d == 6 {
        '6'
    } else if d == 7 {
        '7'
    } else if d == 8 {
        '8'
    } else {
        '9'
    }
}

/// `n` written in decimal, most significant digit first, with no leading zeros.
pub open spec fn decimal(n: nat) -> Seq<char>
    decreases n,
{
    if n < 10 {
        seq![digit_char(n)]
    } else {
        decimal(n / 10).push(digit_char(n % 10))
    }
}

fn digit_str(d: u64) -> (r: &'static str)
    requires
        d < 10,
    ensures
        r@ == seq![digit_char(d as nat)],
{
    proof {
        reveal_strlit("0");
        reveal_strlit("1");
        reveal_strlit("2");
        reveal_strlit("3");
        reveal_strlit("4");
        reveal_strlit("5");
        reveal_strlit("6");
        reveal_strlit("7");
        reveal_strlit("8");
        reveal_strlit("9");
    }
    let r = if d == 0 {
        "0"
    } else if d == 1 {
        "1"
    } else if d == 2 {
        "2"
    } else if d == 3 {
        "3"
    } else if d == 4 {
        "4"
    } else if d == 5 {
        "5"
    } else if d == 6 {
        "6"
    } else if d == 7 {
        "7"
    } else if d == 8 {
        "8"
    } else {
        "9"
    };
    assert(r@ =~= seq![digit_char(d as nat)]);
    r
}

/// Appends `n` in decimal to `out`.
pub fn append_decimal(out: &mut String, n: u64)
    ensures
        final(out)@ == old(out)@ + decimal(n as nat),
    decreases n,
{
    if n >= 10 {
        append_decimal(out, n / 10);
    }
    out.append(digit_str(n % 10));
    assert(final(out)@ =~= old(out)@ + decimal(n as nat));
}

/// `n` in decimal.
pub fn decimal_text(n: u64) -> (r: String)
    ensures
        r@ == decimal(n as nat),
{
    let mut r = String::new();
    append_decimal(&mut r, n);
    assert(r@ =~= decimal(n as nat));
    r
}

pub open spec fn is_digit(c: char) -> bool {
    '0' <= c && c <= '9'
}

pub open spec fn digit_value(c: char) -> nat {
    (c as u32 - '0' as u32) as nat
}

/// The number that the decimal digits `s` stand for.
pub open spec fn digits_value(s: Seq<char>) -> nat
    decreases s.len(),
{
    if s.len() == 0 {
        0
    } else {
        digits_value(s.drop_last()) * 10 + digit_value(s.last())
    }
}

pub open spec fn all_digits(s: Seq<char>) -> bool {
    forall|k: int| 0 <= k < s.len() ==> is_digit(#[trigger] s[k])
}

/// `v` without one leading `+`, if it has one.
pub open spec fn unsigned_part(v: Seq<char>) -> Seq<char> {
    if v.len() > 0 && v[0] == '+' {
        v.drop_first()
    } else {
        v
    }
}

/// A whole count read from text: an optional `+`, then one or more decimal digits,
/// with a value that fits in 64 bits.
pub open spec fn count_of(v: Seq<char>) -> Option<nat> {
    let d = unsigned_part(v);
    if d.len() > 0 && all_digits(d) && digits_value(d) <= u64::MAX {
        Some(digits_value(d))
    } else {
        None
    }
}

proof fn lemma_digits_prefix(s: Seq<char>, k: int)
    requires
        0 <= k <= s.len(),
        all_digits(s),
    ensures
        digits_value(s.take(k)) <= digits_value(s),
    decreases s.len() - k,
{
    if k < s.len() {
        let t = s.drop_last();
        assert(all_digits(t)) by {
            assert forall|j: int| 0 <= j < t.len() implies is_digit(#[trigger] t[j]) by {
                assert(t[j] == s[j]);
            }
        }
        if k < t.len() {
            lemma_digits_prefix(t, k);
        }
        assert(t.take(k) =~= s.take(k));
        if k == t.len() {
            assert(t.take(k) =~= t);
        }
    } else {
        assert(s.take(k) =~= s);
    }
}

/// Reads a whole count from `v`.
pub fn parse_count(v: &str) -> (r: Option<u64>)
    ensures
        r matches Some(x) ==> count_of(v@) == Some(x as nat),
        r is None ==> count_of(v@) is None,
{
    let n = v.unicode_len();
    let mut start: usize = 0;
    if n > 0 && v.get_char(0) == '+' {
        start = 1;
    }
    let ghost d = unsigned_part(v@);
    assert(d =~= v@.subrange(start as int, n as int));
    if start == n {
        return None;
    }
    let mut acc: u64 = 0;
    let mut k: usize = start;
    while k < n
        invariant
            n == v@.len(),
            start < n,
            start <= k <= n,
            d =~= v@.subrange(start as int, n as int),
            d == unsigned_part(v@),
            all_digits(d.take(k - start)),
            acc as nat == digits_value(d.take(k - start)),
        decreases n - k,
    {
        let c = v.get_char(k);
        let ghost j: int = k - start;
        assert(d.take(j + 1).drop_last() =~= d.take(j));
        assert(d.take(j + 1).last() == c);
        if !('0' <= c && c <= '9') {
            assert(!all_digits(d)) by {
                assert(d[j] == c);
                assert(!is_digit(d[j]));
            }
            return None;
        }
        let dv = (c as u32 - '0' as u32) as u64;
        assert(digit_value(c) == dv);
        assert(digits_value(d.take(j + 1)) == acc * 10 + dv);
        if acc > (u64::MAX - dv) / 10 {
            proof {
                assert(digits_value(d.take(j + 1)) > u64::MAX) by (nonlinear_arith)
                    requires
                        acc > (u64::MAX - dv) / 10,
                        digits_value(d.take(j + 1)) == acc * 10 + dv,
                ;
                if all_digits(d) {
                    lemma_digits_prefix(d, j + 1);
                }
            }
            return None;
        }
        assert(acc * 10 + dv <= u64::MAX) by (nonlinear_arith)
            requires
                acc <= (u64::MAX - dv) / 10,
                dv <= 9,
        ;
        acc = acc * 10 + dv;
        k = k + 1;
        assert(all_digits(d.take(k - start))) by {
            assert forall|t: int| 0 <= t < k - start implies is_digit(#[trigger] d.take(k - start)[t]) by {
                if t < j {
                    assert(d.take(k - start)[t] == d.take(j)[t]);
                }
            }
        }
    }
    assert(d.take(n - start) =~= d);
    Some(acc)
}

/// `kb` kilobytes in tenths of a megabyte, rounded to the nearest, ties to even.
pub open spec fn tenths_of_mb(kb: nat) -> nat {
    let q = (kb * 10) / 1024;
    let r = (kb * 10) % 1024;
    if r > 512 || (r == 512 && q % 2 == 1) {
        q + 1
    } else {
        q
    }
}

/// `kb` kilobytes as megabytes with one decimal place, such as `16384.0`.
pub open spec fn megabytes_text(kb: nat) -> Seq<char> {
    let t = tenths_of_mb(kb);
    decimal(t / 10).push('.').push(digit_char(t % 10))
}

/// Appends `kb` kilobytes as megabytes with one decimal place to `out`.
pub fn append_megabytes(out: &mut String, kb: u64)
    ensures
        final(out)@ == old(out)@ + megabytes_text(kb as nat),
{
    let x: u128 = (kb as u128) * 10;
    let q: u128 = x / 1024;
    let r: u128 = x % 1024;
    let t: u128 = if r > 512 || (r == 512 && q % 2 == 1) {
        q + 1
    } else {
        q
    };
    assert(t / 10 <= u64::MAX) by (nonlinear_arith)
        requires
            x == kb * 10,
            q == x / 1024,
            t <= q + 1,
            kb <= u64::MAX,
    ;
    append_decimal(out, (t / 10) as u64);
    proof {
        reveal_strlit(".");
    }
    out.append(".");
    out.append(digit_str((t % 10) as u64));
    assert(final(out)@ =~= old(out)@ + megabytes_text(kb as nat));
}

/// `kb` kilobytes as megabytes with one decimal place.
pub fn megabytes_of(kb: u64) -> (r: String)
    ensures
        r@ == megabytes_text(kb as nat),
{
    let mut r = String::new();
    append_megabytes(&mut r, kb);
    assert(r@ =~= megabytes_text(kb as nat));
    r
}

pub open spec fn uptime_days(ms: nat) -> nat {
    (ms / 1000) / 86400
}

pub open spec fn uptime_hours(ms: nat) -> nat {
    ((ms / 1000) % 86400) / 3600
}

pub open spec fn uptime_minutes(ms: nat) -> nat {
    ((ms / 1000) % 3600) / 60
}

/// A time since boot of `ms` milliseconds as whole days, hours and minutes;
/// seconds are dropped.
pub open spec fn uptime_text(ms: nat) -> Seq<char> {
    decimal(uptime_days(ms)) + " days, "@ + decimal(uptime_hours(ms)) + " hours, "@ + decimal(
        uptime_minutes(ms),
    ) + " minutes"@
}

/// Formats a time since boot given in milliseconds.
pub fn format_uptime(ms: u64) -> (r: String)
    ensures
        r@ == uptime_text(ms as nat),
{
    let secs = ms / 1000;
    let days = secs / 86400;
    let hours = (secs % 86400) / 3600;
    let minutes = (secs % 3600) / 60;
    let mut r = String::new();
    append_decimal(&mut r, days);
    r.append(" days, ");
    append_decimal(&mut r, hours);
    r.append(" hours, ");
    append_decimal(&mut r, minutes);
    r.append(" minutes");
    assert(r@ =~= uptime_text(ms as nat));
    r
}

} // verus!
