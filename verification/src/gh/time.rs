//! Timestamps: ISO 8601 to unix seconds, and how long ago that is in words.
use vstd::prelude::*;
use vstd::string::*;
use vstd::utf8::*;

use crate::text::{
    byte_range, char_index, decimal, decimal_text, digit, get_bytes, lemma_byte_range_ascii,
    lemma_char_index, lemma_pieces_more, lemma_pieces_one, pieces, split, to_chars,
};

verus! {

// ---------------------------------------------------------------------------
// Integers in text
// ---------------------------------------------------------------------------

/// Whether `s` holds decimal digits only, and at least one.
pub open spec fn all_digits(s: Seq<char>) -> bool {
    s.len() > 0 && forall|i: int| 0 <= i < s.len() ==> '0' <= #[trigger] s[i] <= '9'
}

/// The number that decimal digits stand for.
pub open spec fn digits_value(s: Seq<char>) -> int
    decreases s.len(),
{
    if s.len() == 0 {
        0
    } else {
        10 * digits_value(s.drop_last()) + (s.last() as int - 48)
    }
}

/// The integer that `s` stands for: digits, behind a sign or none.
pub open spec fn integer(s: Seq<char>) -> Option<int> {
    if s.len() > 0 && (s[0] == '+' || s[0] == '-') {
        if !all_digits(s.skip(1)) {
            None
        } else if s[0] == '+' {
            Some(digits_value(s.skip(1)))
        } else {
            Some(-digits_value(s.skip(1)))
        }
    } else if all_digits(s) {
        Some(digits_value(s))
    } else {
        None
    }
}

/// The integer that a text of at most ten characters stands for.
fn parse_integer(s: &str) -> (r: Option<i64>)
    requires
        s@.len() <= 10,
    ensures
        match r {
            Some(n) => integer(s@) == Some(n as int) && -10_000_000_000 < n < 10_000_000_000,
            None => integer(s@) is None,
        },
        r is Some && r->0 < 0 ==> s@.contains('-'),
{
    let v = to_chars(s);
    let n = v.len();
    if n == 0 {
        return None;
    }
    let signed = v[0] == '+' || v[0] == '-';
    let start: usize = if signed {
        1
    } else {
        0
    };
    let ghost digits = if signed {
        s@.skip(1)
    } else {
        s@
    };
    assert(digits =~= s@.skip(start as int));
    if start == n {
        return None;
    }
    let mut value: i64 = 0;
    let mut bound: i64 = 1;
    let mut i: usize = start;
    while i < n
        invariant
            start <= i <= n,
            n == v@.len(),
            n <= 10,
            start <= 1,
            v@ == s@,
            digits == s@.skip(start as int),
            forall|k: int| 0 <= k < i - start ==> '0' <= #[trigger] digits[k] <= '9',
            value == digits_value(digits.take(i - start)),
            0 <= value < bound,
            i - start == 0 ==> bound == 1,
            i - start == 1 ==> bound == 10,
            i - start == 2 ==> bound == 100,
            i - start == 3 ==> bound == 1_000,
            i - start == 4 ==> bound == 10_000,
            i - start == 5 ==> bound == 100_000,
            i - start == 6 ==> bound == 1_000_000,
            i - start == 7 ==> bound == 10_000_000,
            i - start == 8 ==> bound == 100_000_000,
            i - start == 9 ==> bound == 1_000_000_000,
            i - start == 10 ==> bound == 10_000_000_000,
            signed == (s@[0] == '+' || s@[0] == '-'),
            signed ==> start == 1,
            !signed ==> start == 0,
            start < n,
        decreases n - i,
    {
        let c = v[i];
        assert(digits[i - start] == c);
        if c < '0' || c > '9' {
            assert(!all_digits(digits));
            return None;
        }
        assert(digits.take(i + 1 - start).drop_last() =~= digits.take(i - start));
        value = 10 * value + (c as u32 as i64 - 48);
        bound = 10 * bound;
        i = i + 1;
    }
    assert(digits.take(i - start) =~= digits);
    if v[0] == '-' {
        assert(s@[0] == '-');
        Some(-value)
    } else {
        Some(value)
    }
}

// ---------------------------------------------------------------------------
// The calendar
// ---------------------------------------------------------------------------

/// The days from the start of 1970 to the day `d` of the month `m` of the year
/// `y`. Years are counted from March, in cycles of four hundred.
pub open spec fn days_from_civil(y: int, m: int, d: int) -> int {
    let y = if m <= 2 {
        y - 1
    } else {
        y
    };
    let era = y / 400;
    let yoe = y - era * 400;
    let mp = (m + 9) % 12;
    let doy = (153 * mp + 2) / 5 + d - 1;
    let doe = yoe * 365 + yoe / 4 - yoe / 100 + doy;
    era * 146_097 + doe - 719_468
}

/// Whether `y` is a leap year.
pub open spec fn leap(y: int) -> bool {
    y % 4 == 0 && (y % 100 != 0 || y % 400 == 0)
}

/// The days that the month `m` of the year `y` has.
pub open spec fn month_days(y: int, m: int) -> int {
    if m == 2 {
        if leap(y) {
            29
        } else {
            28
        }
    } else if m == 4 || m == 6 || m == 9 || m == 11 {
        30
    } else {
        31
    }
}

/// Whether there is a day `d` in the month `m` of the year `y`.
pub open spec fn is_date(y: int, m: int, d: int) -> bool {
    1 <= m <= 12 && 1 <= d <= month_days(y, m)
}

/// The day after a day.
pub open spec fn next_day(y: int, m: int, d: int) -> (int, int, int) {
    if d < month_days(y, m) {
        (y, m, d + 1)
    } else if m < 12 {
        (y, m + 1, 1)
    } else {
        (y + 1, 1, 1)
    }
}

/// The count of days follows the calendar: it is zero on the first of January
/// 1970, and one more on each next day.
#[verifier::spinoff_prover]
#[verifier::rlimit(80)]
pub proof fn law_days_follow_calendar(y: int, m: int, d: int)
    requires
        is_date(y, m, d),
    ensures
        days_from_civil(1970, 1, 1) == 0,
        ({
            let (y2, m2, d2) = next_day(y, m, d);
            is_date(y2, m2, d2) && days_from_civil(y2, m2, d2) == days_from_civil(y, m, d) + 1
        }),
{
    assert(days_from_civil(1970, 1, 1) == 0);
    if d == month_days(y, m) {
        if m == 2 {
            let a = y - 1;
            let ea = a / 400;
            let ra = a - ea * 400;
            let eb = y / 400;
            let rb = y - eb * 400;
            if ra == 399 {
                assert(eb == ea + 1 && rb == 0);
            } else {
                assert(eb == ea && rb == ra + 1);
            }
            assert(y % 4 == rb % 4 && y % 100 == rb % 100 && y % 400 == rb);
        }
    }
}

/// The unix time of an ISO 8601 timestamp: the date in its first ten bytes, and
/// the time of day in the eight bytes from the twelfth.
pub open spec fn iso_seconds(ts: Seq<char>) -> Option<int> {
    match (byte_range(ts, 0, 10), byte_range(ts, 11, 19)) {
        (Some(date), Some(time)) => {
            let p = pieces(date, '-');
            let q = pieces(time, ':');
            if p.len() < 3 || q.len() < 3 {
                None
            } else {
                match (
                    integer(p[0]),
                    integer(p[1]),
                    integer(p[2]),
                    integer(q[0]),
                    integer(q[1]),
                    integer(q[2]),
                ) {
                    (Some(y), Some(m), Some(d), Some(hh), Some(mm), Some(ss)) => Some(
                        days_from_civil(y, m, d) * 86_400 + hh * 3_600 + mm * 60 + ss,
                    ),
                    _ => None,
                }
            }
        },
        _ => None,
    }
}

proof fn lemma_pieces(s: Seq<char>, c: char)
    ensures
        pieces(s, c).len() > 0,
        forall|i: int|
            0 <= i < pieces(s, c).len() ==> (#[trigger] pieces(s, c)[i]).len() <= s.len()
                && !pieces(s, c)[i].contains(c),
    decreases s.len(),
{
    lemma_char_index(s, c);
    let k = char_index(s, c);
    if k < s.len() {
        lemma_pieces(s.skip(k + 1), c);
        let rest = pieces(s.skip(k + 1), c);
        assert(!s.take(k).contains(c)) by {
            if s.take(k).contains(c) {
                let i = choose|i: int| 0 <= i < k && s.take(k)[i] == c;
                assert(s[i] == c);
            }
        }
        assert forall|i: int| 0 <= i < pieces(s, c).len() implies (
        #[trigger] pieces(s, c)[i]).len() <= s.len() && !pieces(s, c)[i].contains(c) by {
            if i > 0 {
                assert(pieces(s, c)[i] == rest[i - 1]);
            }
        }
    }
}

proof fn lemma_chars_within_bytes(s: Seq<char>)
    ensures
        s.len() <= encode_utf8(s).len(),
    decreases s.len(),
{
    if s.len() > 0 {
        lemma_chars_within_bytes(s.drop_first());
    }
}

/// Parses an ISO 8601 timestamp ("2024-05-01T12:30:00Z") into unix seconds.
pub fn parse_iso(ts: &str) -> (r: Option<i64>)
    ensures
        match r {
            Some(t) => iso_seconds(ts@) == Some(t as int) && -1_000_000_000_000_000_000 < t
                < 1_000_000_000_000_000_000,
            None => iso_seconds(ts@) is None,
        },
{
    let date = match get_bytes(ts, 0, 10) {
        Some(t) => t,
        None => return None,
    };
    let time = match get_bytes(ts, 11, 19) {
        Some(t) => t,
        None => return None,
    };
    let p = split(date, '-');
    let q = split(time, ':');
    let ghost ps = pieces(date@, '-');
    let ghost qs = pieces(time@, ':');
    proof {
        lemma_chars_within_bytes(date@);
        lemma_chars_within_bytes(time@);
        lemma_pieces(date@, '-');
        lemma_pieces(time@, ':');
        assert(p.deep_view().len() == p@.len());
        assert(q.deep_view().len() == q@.len());
    }
    if p.len() < 3 || q.len() < 3 {
        return None;
    }
    proof {
        assert(p.deep_view()[0] == p@[0]@ && p.deep_view()[1] == p@[1]@ && p.deep_view()[2]
            == p@[2]@);
        assert(q.deep_view()[0] == q@[0]@ && q.deep_view()[1] == q@[1]@ && q.deep_view()[2]
            == q@[2]@);
        assert(ps[0].len() <= 10 && ps[1].len() <= 10 && ps[2].len() <= 10);
        assert(qs[0].len() <= 10 && qs[1].len() <= 10 && qs[2].len() <= 10);
    }
    match (
        parse_integer(p[0].as_str()),
        parse_integer(p[1].as_str()),
        parse_integer(p[2].as_str()),
        parse_integer(q[0].as_str()),
        parse_integer(q[1].as_str()),
        parse_integer(q[2].as_str()),
    ) {
        (Some(y), Some(m), Some(d), Some(hh), Some(mm), Some(ss)) => {
            assert(y >= 0 && m >= 0);
            let y2 = if m <= 2 {
                y - 1
            } else {
                y
            };
            let era = if y2 >= 0 {
                y2 / 400
            } else {
                -1
            };
            assert(era == y2 as int / 400);
            let yoe = y2 - era * 400;
            let mp = (m + 9) % 12;
            let doy = (153 * mp + 2) / 5 + d - 1;
            let doe = yoe * 365 + yoe / 4 - yoe / 100 + doy;
            let days = era * 146_097 + doe - 719_468;
            Some(days * 86_400 + hh * 3_600 + mm * 60 + ss)
        },
        _ => None,
    }
}

// ---------------------------------------------------------------------------
// Timestamps as they are written
// ---------------------------------------------------------------------------

/// Two digits for a number under a hundred.
pub open spec fn two_digits(n: nat) -> Seq<char> {
    seq![digit(n / 10), digit(n % 10)]
}

/// The timestamp of a date and a time of day, in universal time.
pub open spec fn iso_text(y: nat, m: nat, d: nat, hh: nat, mm: nat, ss: nat) -> Seq<char> {
    (two_digits(y / 100) + two_digits(y % 100)).push('-') + two_digits(m).push('-') + two_digits(
        d,
    ).push('T') + two_digits(hh).push(':') + two_digits(mm).push(':') + two_digits(ss).push('Z')
}

proof fn lemma_two_digits(n: nat)
    requires
        n < 100,
    ensures
        integer(two_digits(n)) == Some(n as int),
        !two_digits(n).contains('-'),
        !two_digits(n).contains(':'),
{
    let s = two_digits(n);
    assert(s.drop_last() =~= seq![digit(n / 10)]);
    assert(s.drop_last().drop_last() =~= Seq::<char>::empty());
    assert(digits_value(s.drop_last().drop_last()) == 0);
    assert(digits_value(s.drop_last()) == n / 10);
    assert(digits_value(s) == n);
}

proof fn lemma_four_digits(n: nat)
    requires
        n < 10_000,
    ensures
        integer(two_digits(n / 100) + two_digits(n % 100)) == Some(n as int),
        !(two_digits(n / 100) + two_digits(n % 100)).contains('-'),
{
    let s = two_digits(n / 100) + two_digits(n % 100);
    assert(s.drop_last() =~= two_digits(n / 100).push(digit(n % 100 / 10)));
    assert(s.drop_last().drop_last() =~= two_digits(n / 100));
    lemma_two_digits(n / 100);
    assert(digits_value(s.drop_last()) == 10 * (n / 100) + n % 100 / 10);
    assert(digits_value(s) == n);
}

/// What a timestamp says is read back from it: a date and a time of day, written
/// out, give the seconds from the start of 1970 to them.
pub proof fn law_iso_reads_back(y: nat, m: nat, d: nat, hh: nat, mm: nat, ss: nat)
    requires
        y < 10_000,
        is_date(y as int, m as int, d as int),
        hh < 24,
        mm < 60,
        ss < 60,
    ensures
        iso_seconds(iso_text(y, m, d, hh, mm, ss)) == Some(
            days_from_civil(y as int, m as int, d as int) * 86_400 + hh * 3_600 + mm * 60 + ss,
        ),
{
    let ts = iso_text(y, m, d, hh, mm, ss);
    let y4 = two_digits(y / 100) + two_digits(y % 100);
    assert(is_ascii_chars(ts)) by {
        assert forall|i: int| 0 <= i < ts.len() implies 0 <= #[trigger] ts[i] as u32 <= 127 by {}
    }
    lemma_byte_range_ascii(ts, 0, 10);
    lemma_byte_range_ascii(ts, 11, 19);
    let date = ts.subrange(0, 10);
    let time = ts.subrange(11, 19);
    assert(date =~= y4.push('-') + (two_digits(m).push('-') + two_digits(d)));
    assert(time =~= two_digits(hh).push(':') + (two_digits(mm).push(':') + two_digits(ss)));
    lemma_four_digits(y);
    lemma_two_digits(m);
    lemma_two_digits(d);
    lemma_two_digits(hh);
    lemma_two_digits(mm);
    lemma_two_digits(ss);
    lemma_pieces_more(y4, '-', two_digits(m).push('-') + two_digits(d));
    lemma_pieces_more(two_digits(m), '-', two_digits(d));
    lemma_pieces_one(two_digits(d), '-');
    lemma_pieces_more(two_digits(hh), ':', two_digits(mm).push(':') + two_digits(ss));
    lemma_pieces_more(two_digits(mm), ':', two_digits(ss));
    lemma_pieces_one(two_digits(ss), ':');
    assert(pieces(date, '-') =~= seq![y4, two_digits(m), two_digits(d)]);
    assert(pieces(time, ':') =~= seq![two_digits(hh), two_digits(mm), two_digits(ss)]);
}

/// Whether `a` comes before `b` in the order of texts: by the first character in
/// which they differ, and a beginning before the whole.
pub open spec fn text_before(a: Seq<char>, b: Seq<char>) -> bool
    decreases a.len(),
{
    if b.len() == 0 {
        false
    } else if a.len() == 0 {
        true
    } else if a[0] != b[0] {
        a[0] < b[0]
    } else {
        text_before(a.skip(1), b.skip(1))
    }
}

proof fn lemma_text_before(p: Seq<char>, a: Seq<char>, q: Seq<char>, b: Seq<char>)
    requires
        p.len() == q.len(),
    ensures
        p == q ==> text_before(p + a, q + b) == text_before(a, b),
        p != q ==> text_before(p + a, q + b) == text_before(p, q),
    decreases p.len(),
{
    if p.len() == 0 {
        assert(p =~= q);
        assert(p + a =~= a);
        assert(q + b =~= b);
    } else {
        let p1 = p.skip(1);
        let q1 = q.skip(1);
        lemma_text_before(p1, a, q1, b);
        assert((p + a).skip(1) =~= p1 + a);
        assert((q + b).skip(1) =~= q1 + b);
        if p[0] == q[0] {
            assert(p =~= seq![p[0]] + p1);
            assert(q =~= seq![q[0]] + q1);
            assert(p == q <==> p1 == q1);
        }
    }
}

proof fn lemma_two_digits_order(n: nat, k: nat)
    requires
        n < 100,
        k < 100,
    ensures
        two_digits(n) == two_digits(k) <==> n == k,
        text_before(two_digits(n), two_digits(k)) <==> n < k,
{
    let a = two_digits(n);
    let b = two_digits(k);
    reveal_with_fuel(text_before, 3);
    assert(a[0] == b[0] <==> n / 10 == k / 10);
    assert(a[1] == b[1] <==> n % 10 == k % 10);
    assert(a.skip(1).len() == 1 && b.skip(1).len() == 1);
    assert(a.skip(1)[0] == a[1] && b.skip(1)[0] == b[1]);
}

/// Two digits and what stands behind them, against two others: the digits
/// decide, and where they are the same, what stands behind.
proof fn lemma_field_order(n: nat, a: Seq<char>, k: nat, b: Seq<char>)
    requires
        n < 100,
        k < 100,
    ensures
        text_before(two_digits(n) + a, two_digits(k) + b) <==> n < k || (n == k && text_before(
            a,
            b,
        )),
{
    lemma_two_digits_order(n, k);
    lemma_text_before(two_digits(n), a, two_digits(k), b);
}

proof fn lemma_same_start(c: char, a: Seq<char>, b: Seq<char>)
    ensures
        text_before(seq![c] + a, seq![c] + b) == text_before(a, b),
{
    lemma_text_before(seq![c], a, seq![c], b);
}

/// The first day of a later month comes after every day of an earlier one.
proof fn lemma_months_in_order(y: int, m: int, y2: int, m2: int)
    requires
        1 <= m <= 12,
        1 <= m2 <= 12,
        y < y2 || (y == y2 && m < m2),
    ensures
        days_from_civil(y, m, 1) + month_days(y, m) <= days_from_civil(y2, m2, 1),
    decreases 12 * (y2 - y) + m2 - m,
{
    let last = month_days(y, m);
    law_days_follow_calendar(y, m, last);
    assert(days_from_civil(y, m, last) == days_from_civil(y, m, 1) + last - 1);
    let (y1, m1, _) = next_day(y, m, last);
    if y1 != y2 || m1 != m2 {
        lemma_months_in_order(y1, m1, y2, m2);
    }
}

/// Dates are in the order of their counts of days.
pub proof fn law_days_in_order(y: int, m: int, d: int, y2: int, m2: int, d2: int)
    requires
        is_date(y, m, d),
        is_date(y2, m2, d2),
    ensures
        days_from_civil(y, m, d) < days_from_civil(y2, m2, d2) <==> y < y2 || (y == y2 && (m < m2
            || (m == m2 && d < d2))),
        days_from_civil(y, m, d) == days_from_civil(y2, m2, d2) <==> y == y2 && m == m2 && d == d2,
{
    assert(days_from_civil(y, m, d) == days_from_civil(y, m, 1) + d - 1);
    assert(days_from_civil(y2, m2, d2) == days_from_civil(y2, m2, 1) + d2 - 1);
    if y < y2 || (y == y2 && m < m2) {
        lemma_months_in_order(y, m, y2, m2);
    } else if y2 < y || (y == y2 && m2 < m) {
        lemma_months_in_order(y2, m2, y, m);
    }
}

/// A timestamp field by field.
spec fn iso_fields(y: nat, m: nat, d: nat, hh: nat, mm: nat, ss: nat) -> Seq<char> {
    two_digits(y / 100) + (two_digits(y % 100) + (seq!['-'] + (two_digits(m) + (seq!['-'] + (
    two_digits(d) + (seq!['T'] + (two_digits(hh) + (seq![':'] + (two_digits(mm) + (seq![':'] + (
    two_digits(ss) + seq!['Z'])))))))))))
}

proof fn lemma_iso_fields(y: nat, m: nat, d: nat, hh: nat, mm: nat, ss: nat)
    ensures
        iso_text(y, m, d, hh, mm, ss) == iso_fields(y, m, d, hh, mm, ss),
{
    assert(iso_text(y, m, d, hh, mm, ss) =~= iso_fields(y, m, d, hh, mm, ss));
}

/// The order of two timestamps as texts is that of their fields.
proof fn lemma_iso_order(
    y: nat,
    m: nat,
    d: nat,
    hh: nat,
    mm: nat,
    ss: nat,
    y2: nat,
    m2: nat,
    d2: nat,
    hh2: nat,
    mm2: nat,
    ss2: nat,
)
    requires
        y < 10_000 && y2 < 10_000,
        m < 100 && m2 < 100,
        d < 100 && d2 < 100,
        hh < 100 && hh2 < 100,
        mm < 100 && mm2 < 100,
        ss < 100 && ss2 < 100,
    ensures
        text_before(iso_text(y, m, d, hh, mm, ss), iso_text(y2, m2, d2, hh2, mm2, ss2)) <==> y < y2
            || (y == y2 && (m < m2 || (m == m2 && (d < d2 || (d == d2 && (hh < hh2 || (hh == hh2
            && (mm < mm2 || (mm == mm2 && ss < ss2))))))))),
{
    lemma_iso_fields(y, m, d, hh, mm, ss);
    lemma_iso_fields(y2, m2, d2, hh2, mm2, ss2);
    let z = seq!['Z'];
    assert(!text_before(z, z)) by {
        reveal_with_fuel(text_before, 2);
    }
    let (a6, b6) = (two_digits(ss) + z, two_digits(ss2) + z);
    lemma_field_order(ss, z, ss2, z);
    lemma_same_start(':', a6, b6);
    let (a5, b5) = (two_digits(mm) + (seq![':'] + a6), two_digits(mm2) + (seq![':'] + b6));
    lemma_field_order(mm, seq![':'] + a6, mm2, seq![':'] + b6);
    lemma_same_start(':', a5, b5);
    let (a4, b4) = (two_digits(hh) + (seq![':'] + a5), two_digits(hh2) + (seq![':'] + b5));
    lemma_field_order(hh, seq![':'] + a5, hh2, seq![':'] + b5);
    lemma_same_start('T', a4, b4);
    let (a3, b3) = (two_digits(d) + (seq!['T'] + a4), two_digits(d2) + (seq!['T'] + b4));
    lemma_field_order(d, seq!['T'] + a4, d2, seq!['T'] + b4);
    lemma_same_start('-', a3, b3);
    let (a2, b2) = (two_digits(m) + (seq!['-'] + a3), two_digits(m2) + (seq!['-'] + b3));
    lemma_field_order(m, seq!['-'] + a3, m2, seq!['-'] + b3);
    lemma_same_start('-', a2, b2);
    let (a1, b1) = (
        two_digits(y % 100) + (seq!['-'] + a2),
        two_digits(y2 % 100) + (seq!['-'] + b2),
    );
    lemma_field_order(y % 100, seq!['-'] + a2, y2 % 100, seq!['-'] + b2);
    lemma_field_order(y / 100, a1, y2 / 100, b1);
}

/// Timestamps are in the order of the times that they stand for: of two, the one
/// that comes first as a text is the earlier one.
pub proof fn law_iso_in_order(
    y: nat,
    m: nat,
    d: nat,
    hh: nat,
    mm: nat,
    ss: nat,
    y2: nat,
    m2: nat,
    d2: nat,
    hh2: nat,
    mm2: nat,
    ss2: nat,
)
    requires
        y < 10_000 && y2 < 10_000,
        is_date(y as int, m as int, d as int),
        is_date(y2 as int, m2 as int, d2 as int),
        hh < 24 && hh2 < 24,
        mm < 60 && mm2 < 60,
        ss < 60 && ss2 < 60,
    ensures
        ({
            let a = iso_text(y, m, d, hh, mm, ss);
            let b = iso_text(y2, m2, d2, hh2, mm2, ss2);
            &&& iso_seconds(a) is Some
            &&& iso_seconds(b) is Some
            &&& iso_seconds(a)->0 < iso_seconds(b)->0 <==> text_before(a, b)
        }),
{
    law_iso_reads_back(y, m, d, hh, mm, ss);
    law_iso_reads_back(y2, m2, d2, hh2, mm2, ss2);
    law_days_in_order(y as int, m as int, d as int, y2 as int, m2 as int, d2 as int);
    lemma_iso_order(y, m, d, hh, mm, ss, y2, m2, d2, hh2, mm2, ss2);
}

/// A day is 86400 seconds: the same time of the next day is read as that much
/// later.
pub proof fn law_iso_next_day(
    y: nat,
    m: nat,
    d: nat,
    hh: nat,
    mm: nat,
    ss: nat,
    y2: nat,
    m2: nat,
    d2: nat,
)
    requires
        y2 < 10_000,
        is_date(y as int, m as int, d as int),
        next_day(y as int, m as int, d as int) == (y2 as int, m2 as int, d2 as int),
        hh < 24,
        mm < 60,
        ss < 60,
    ensures
        ({
            let a = iso_seconds(iso_text(y, m, d, hh, mm, ss));
            let b = iso_seconds(iso_text(y2, m2, d2, hh, mm, ss));
            a is Some && b == Some(a->0 + 86_400)
        }),
{
    law_days_follow_calendar(y as int, m as int, d as int);
    law_iso_reads_back(y, m, d, hh, mm, ss);
    law_iso_reads_back(y2, m2, d2, hh, mm, ss);
}

// ---------------------------------------------------------------------------
// How long ago
// ---------------------------------------------------------------------------

/// A number of things, with the plural where it is due.
pub open spec fn counted(n: nat, unit: Seq<char>) -> Seq<char> {
    decimal(n) + " "@ + unit + (if n == 1 {
        ""@
    } else {
        "s"@
    })
}

/// How long ago that many seconds are, in the largest unit that they fill.
pub open spec fn ago(secs: nat) -> Seq<char> {
    if secs < 60 {
        "just now"@
    } else if secs < 3_600 {
        counted(secs / 60, "minute"@) + " ago"@
    } else if secs < 86_400 {
        counted(secs / 3_600, "hour"@) + " ago"@
    } else if secs < 2_592_000 {
        counted(secs / 86_400, "day"@) + " ago"@
    } else if secs < 31_536_000 {
        counted(secs / 2_592_000, "month"@) + " ago"@
    } else {
        counted(secs / 31_536_000, "year"@) + " ago"@
    }
}

/// The seconds from `then` to a clock in milliseconds; none where the clock is
/// behind or cannot be read.
pub open spec fn seconds_since(then: int, now_ms: Option<u64>) -> nat {
    match now_ms {
        Some(ms) => if ms as int / 1_000 > then {
            (ms as int / 1_000 - then) as nat
        } else {
            0
        },
        None => 0,
    }
}

/// A timestamp as the time that has passed since; itself where it is none.
pub open spec fn humanized(ts: Seq<char>, now_ms: Option<u64>) -> Seq<char> {
    match iso_seconds(ts) {
        Some(then) => ago(seconds_since(then, now_ms)),
        None => ts,
    }
}

fn count_ago(n: u64, unit: &str) -> (r: String)
    ensures
        r@ == counted(n as nat, unit@) + " ago"@,
{
    let plural = if n == 1 {
        ""
    } else {
        "s"
    };
    decimal_text(n).concat(" ").concat(unit).concat(plural).concat(" ago")
}

/// "3 days ago" from an ISO timestamp, by a clock in milliseconds.
pub fn humanize(ts: &str, now_ms: Option<u64>) -> (r: String)
    ensures
        r@ == humanized(ts@, now_ms),
{
    let then = match parse_iso(ts) {
        Some(t) => t,
        None => return ts.to_owned(),
    };
    let now = match now_ms {
        Some(ms) => (ms / 1_000) as i64,
        None => then,
    };
    let secs: u64 = if now > then {
        (now - then) as u64
    } else {
        0
    };
    assert(secs == seconds_since(then as int, now_ms));
    if secs < 60 {
        "just now".to_owned()
    } else if secs < 3_600 {
        count_ago(secs / 60, "minute")
    } else if secs < 86_400 {
        count_ago(secs / 3_600, "hour")
    } else if secs < 2_592_000 {
        count_ago(secs / 86_400, "day")
    } else if secs < 31_536_000 {
        count_ago(secs / 2_592_000, "month")
    } else {
        count_ago(secs / 31_536_000, "year")
    }
}

/// How long ago is told in the largest unit that is filled, in whole ones: one is
/// told in the singular, more in the plural, and less than a minute is just now.
pub proof fn law_age_is_in_whole_units(n: nat, rest: nat)
    ensures
        rest < 60 ==> ago(rest) == "just now"@,
        2 <= n < 60 && rest < 60 ==> ago((n * 60 + rest) as nat) == decimal(n) + " minutes ago"@,
        2 <= n < 24 && rest < 3_600 ==> ago((n * 3_600 + rest) as nat) == decimal(n)
            + " hours ago"@,
        2 <= n < 30 && rest < 86_400 ==> ago((n * 86_400 + rest) as nat) == decimal(n)
            + " days ago"@,
        2 <= n < 12 && rest < 2_592_000 ==> ago((n * 2_592_000 + rest) as nat) == decimal(n)
            + " months ago"@,
        2 <= n && rest < 31_536_000 ==> ago((n * 31_536_000 + rest) as nat) == decimal(n)
            + " years ago"@,
        rest < 60 ==> ago((60 + rest) as nat) == "1 minute ago"@,
        rest < 3_600 ==> ago((3_600 + rest) as nat) == "1 hour ago"@,
        rest < 86_400 ==> ago((86_400 + rest) as nat) == "1 day ago"@,
        rest < 2_592_000 ==> ago((2_592_000 + rest) as nat) == "1 month ago"@,
        rest < 31_536_000 ==> ago((31_536_000 + rest) as nat) == "1 year ago"@,
{
    reveal_strlit(" ");
    reveal_strlit("");
    reveal_strlit("s");
    reveal_strlit(" ago");
    reveal_strlit("minute");
    reveal_strlit("hour");
    reveal_strlit("day");
    reveal_strlit("month");
    reveal_strlit("year");
    reveal_strlit(" minutes ago");
    reveal_strlit(" hours ago");
    reveal_strlit(" days ago");
    reveal_strlit(" months ago");
    reveal_strlit(" years ago");
    reveal_strlit("1 minute ago");
    reveal_strlit("1 hour ago");
    reveal_strlit("1 day ago");
    reveal_strlit("1 month ago");
    reveal_strlit("1 year ago");
    assert(decimal(1) =~= seq!['1']);
    let d = decimal(n);
    assert(d + " "@ + "minute"@ + "s"@ + " ago"@ =~= d + " minutes ago"@);
    assert(d + " "@ + "hour"@ + "s"@ + " ago"@ =~= d + " hours ago"@);
    assert(d + " "@ + "day"@ + "s"@ + " ago"@ =~= d + " days ago"@);
    assert(d + " "@ + "month"@ + "s"@ + " ago"@ =~= d + " months ago"@);
    assert(d + " "@ + "year"@ + "s"@ + " ago"@ =~= d + " years ago"@);
    let one = decimal(1);
    assert(one + " "@ + "minute"@ + ""@ + " ago"@ =~= "1 minute ago"@);
    assert(one + " "@ + "hour"@ + ""@ + " ago"@ =~= "1 hour ago"@);
    assert(one + " "@ + "day"@ + ""@ + " ago"@ =~= "1 day ago"@);
    assert(one + " "@ + "month"@ + ""@ + " ago"@ =~= "1 month ago"@);
    assert(one + " "@ + "year"@ + ""@ + " ago"@ =~= "1 year ago"@);
}

/// The time since a moment is what a clock in milliseconds shows more; none where
/// it shows less, or cannot be read. What is no timestamp is shown as it is.
pub proof fn law_age_is_by_the_clock(then: u32, passed: u32, ms: u64, ts: Seq<char>)
    requires
        ms < 1_000,
    ensures
        seconds_since(then as int, Some(((then + passed) * 1_000 + ms) as u64)) == passed as nat,
        seconds_since((then + passed) as int, Some((then * 1_000) as u64)) == 0,
        seconds_since(then as int, None) == 0,
        iso_seconds(ts) is None ==> humanized(ts, Some(ms)) == ts,
{
}

/// A sign before digits makes the number negative or leaves it as it is; before
/// anything else, another sign among it, it makes no number.
pub proof fn law_sign_goes_with_the_number(t: Seq<char>)
    ensures
        ({
            let minus = seq!['-'] + t;
            let plus = seq!['+'] + t;
            &&& all_digits(t) ==> (integer(t) matches Some(n) && integer(minus) == Some(-n)
                && integer(plus) == Some(n))
            &&& !all_digits(t) ==> integer(minus) is None && integer(plus) is None
        }),
        all_digits(t) <==> t.len() > 0 && forall|i: int|
            0 <= i < t.len() ==> 48 <= (#[trigger] t[i]) as int <= 57,
{
    assert((seq!['-'] + t).skip(1) =~= t);
    assert((seq!['+'] + t).skip(1) =~= t);
}

} // verus!
