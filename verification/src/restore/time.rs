//! Points in time, written as calendar dates with a time of day.
use vstd::prelude::*;

use crate::text;
use crate::text::{chars, digit_front, parse_i64, split_text, trim};

verus! {

/// Whether `y` is a leap year.
pub open spec fn leap(y: int) -> bool {
    y % 4 == 0 && (y % 100 != 0 || y % 400 == 0)
}

/// Days from the first day of the year zero to the first day of the year `y`.
pub open spec fn days_before_year(y: int) -> int {
    365 * y + (y + 3) / 4 - (y + 99) / 100 + (y + 399) / 400
}

/// Days from the first day of a year to the first day of its month `m`.
pub open spec fn days_before_month(y: int, m: int) -> int {
    let common = if m == 1 {
        0int
    } else if m == 2 {
        31
    } else if m == 3 {
        59
    } else if m == 4 {
        90
    } else if m == 5 {
        120
    } else if m == 6 {
        151
    } else if m == 7 {
        181
    } else if m == 8 {
        212
    } else if m == 9 {
        243
    } else if m == 10 {
        273
    } else if m == 11 {
        304
    } else {
        334
    };
    if m > 2 && leap(y) {
        common + 1
    } else {
        common
    }
}

/// Days from the first of January 1970 to a date.
pub open spec fn days_of(y: int, m: int, d: int) -> int {
    days_before_year(y) + days_before_month(y, m) + (d - 1) - days_before_year(1970)
}

/// The place of the first blank or `T` in `s`; its length where there is none.
pub open spec fn date_end(s: Seq<char>) -> int
    decreases s.len(),
{
    if s.len() == 0 || s[0] == ' ' || s[0] == 'T' {
        0
    } else {
        1 + date_end(s.drop_first())
    }
}

/// `s` as an `i64`.
pub open spec fn number(s: Seq<char>) -> Option<int> {
    text::within(text::signed_decimal(s), i64::MIN as int, i64::MAX as int)
}

/// The seconds that `s` begins with; none count as zero.
pub open spec fn seconds_field(s: Seq<char>) -> int {
    match number(text::leading_digits(s)) {
        Some(n) => n,
        None => 0,
    }
}

/// The date `YYYY-MM-DD` that `s` writes.
pub open spec fn date_fields(s: Seq<char>) -> Option<(int, int, int)> {
    let p = text::split(s, '-');
    if p.len() == 3 {
        match (number(p[0]), number(p[1]), number(p[2])) {
            (Some(y), Some(m), Some(d)) => if 1 <= m <= 12 && 1 <= d <= 31 {
                Some((y, m, d))
            } else {
                None
            },
            _ => None,
        }
    } else {
        None
    }
}

/// The time of day `HH[:MM[:SS…]]` that `s` writes; what follows the digits of
/// the seconds does not count.
pub open spec fn time_fields(s: Seq<char>) -> Option<(int, int, int)> {
    let p = text::split(s, ':');
    let minute = if p.len() > 1 {
        number(p[1])
    } else {
        Some(0)
    };
    let second = if p.len() > 2 {
        seconds_field(p[2])
    } else {
        0
    };
    match (number(p[0]), minute) {
        (Some(h), Some(m)) => if 0 <= h <= 23 && 0 <= m <= 59 && 0 <= second <= 60 {
            Some((h, m, second))
        } else {
            None
        },
        _ => None,
    }
}

/// The fields that a timestamp writes: a date, then after a blank or a `T` a time
/// of day, midnight where there is none.
pub open spec fn fields_of(raw: Seq<char>) -> Option<((int, int, int), (int, int, int))> {
    let t = text::trimmed(raw);
    let cut = date_end(t);
    let time = if cut < t.len() {
        time_fields(t.skip(cut + 1))
    } else {
        Some((0int, 0int, 0int))
    };
    match (date_fields(t.take(cut)), time) {
        (Some(d), Some(h)) => Some((d, h)),
        _ => None,
    }
}

/// Seconds from the start of 1970 to the timestamp that `raw` writes.
pub open spec fn epoch_of(raw: Seq<char>) -> Option<int> {
    match fields_of(raw) {
        Some((d, h)) => Some(days_of(d.0, d.1, d.2) * 86_400 + h.0 * 3600 + h.1 * 60 + h.2),
        None => None,
    }
}

proof fn lemma_date_end(s: Seq<char>, k: int)
    requires
        0 <= k <= s.len(),
        forall|i: int| 0 <= i < k ==> s[i] != ' ' && s[i] != 'T',
        k == s.len() || s[k] == ' ' || s[k] == 'T',
    ensures
        date_end(s) == k,
    decreases k,
{
    if k > 0 {
        lemma_date_end(s.drop_first(), k - 1);
    }
}

fn parse_date(s: &str) -> (r: Option<(i64, i64, i64)>)
    ensures
        match r {
            Some((y, m, d)) => date_fields(s@) == Some((y as int, m as int, d as int)),
            None => date_fields(s@) is None,
        },
{
    let p = split_text(s, '-');
    let ghost model = text::split(s@, '-');
    assert(text::texts(p@) == model);
    if p.len() != 3 {
        return None;
    }
    assert(p@[0]@ == model[0]);
    assert(p@[1]@ == model[1]);
    assert(p@[2]@ == model[2]);
    let y: i64 = match parse_i64(p[0].as_str()) {
        Some(v) => v,
        None => return None,
    };
    let m: i64 = match parse_i64(p[1].as_str()) {
        Some(v) => v,
        None => return None,
    };
    let d: i64 = match parse_i64(p[2].as_str()) {
        Some(v) => v,
        None => return None,
    };
    if 1 <= m && m <= 12 && 1 <= d && d <= 31 {
        Some((y, m, d))
    } else {
        None
    }
}

fn parse_time(s: &str) -> (r: Option<(i64, i64, i64)>)
    ensures
        match r {
            Some((h, m, sec)) => time_fields(s@) == Some((h as int, m as int, sec as int)),
            None => time_fields(s@) is None,
        },
{
    let p = split_text(s, ':');
    let ghost model = text::split(s@, ':');
    assert(text::texts(p@) == model);
    assert(p@[0]@ == model[0]);
    let h: i64 = match parse_i64(p[0].as_str()) {
        Some(v) => v,
        None => return None,
    };
    let m: i64 = if p.len() > 1 {
        assert(p@[1]@ == model[1]);
        match parse_i64(p[1].as_str()) {
            Some(v) => v,
            None => return None,
        }
    } else {
        0
    };
    let sec: i64 = if p.len() > 2 {
        assert(p@[2]@ == model[2]);
        match parse_i64(digit_front(p[2].as_str())) {
            Some(v) => v,
            None => 0,
        }
    } else {
        0
    };
    if 0 <= h && h <= 23 && 0 <= m && m <= 59 && 0 <= sec && sec <= 60 {
        Some((h, m, sec))
    } else {
        None
    }
}

/// The era of 400 years that holds `y`, and the year within it.
fn era_of(y: i128) -> (r: (i128, i128))
    requires
        i64::MIN - 1 <= y <= i64::MAX,
    ensures
        y == r.0 * 400 + r.1,
        0 <= r.1 < 400,
        -30_000_000_000_000_000 <= r.0 <= 30_000_000_000_000_000,
{
    let base: i128 = 30_000_000_000_000_000;
    let shifted: u128 = (y + base * 400) as u128;
    let era: i128 = (shifted / 400) as i128 - base;
    let year: i128 = (shifted % 400) as i128;
    (era, year)
}

/// Counting a year from March makes leap days the last of their year: the days up
/// to a date are those of whole eras, of the years within the era and of the months.
proof fn lemma_days(y: int, m: int, d: int, shifted: int, era: int, yoe: int, mp: int)
    requires
        1 <= m <= 12,
        shifted == (if m <= 2 { y - 1 } else { y }),
        shifted == era * 400 + yoe,
        0 <= yoe < 400,
        mp == (if m > 2 { m - 3 } else { m + 9 }),
    ensures
        days_of(y, m, d) == era * 146_097 + yoe * 365 + yoe / 4 - yoe / 100 + (153 * mp + 2) / 5 + d - 1 - 719_468,
{
    assert(shifted / 4 == era * 100 + yoe / 4);
    assert(shifted / 100 == era * 4 + yoe / 100);
    assert(shifted / 400 == era);
    assert(days_before_year(1970) == 719_528);
    if m > 2 {
        assert(y / 4 + 1 == (y + 3) / 4 + (if y % 4 == 0 { 1int } else { 0int }));
        assert(y / 100 + 1 == (y + 99) / 100 + (if y % 100 == 0 { 1int } else { 0int }));
        assert(y / 400 + 1 == (y + 399) / 400 + (if y % 400 == 0 { 1int } else { 0int }));
        assert(y % 400 == 0 ==> y % 100 == 0);
        assert(y % 100 == 0 ==> y % 4 == 0);
    } else {
        assert((y + 3) / 4 == (y - 1) / 4 + 1);
        assert((y + 99) / 100 == (y - 1) / 100 + 1);
        assert((y + 399) / 400 == (y - 1) / 400 + 1);
    }
}

/// Seconds from the start of 1970 to the timestamp that `raw` writes.
pub fn civil_seconds(raw: &str) -> (r: Option<i128>)
    ensures
        epoch_of(raw@) == (match r {
            Some(v) => Some(v as int),
            None => None,
        }),
{
    let t = trim(raw);
    let cs = chars(t);
    let n: usize = cs.len();
    let mut cut: usize = 0;
    while cut < n && cs[cut] != ' ' && cs[cut] != 'T'
        invariant
            cut <= n,
            n == t@.len(),
            cs@ == t@,
            forall|i: int| 0 <= i < cut ==> t@[i] != ' ' && t@[i] != 'T',
        decreases n - cut,
    {
        cut += 1;
    }
    proof {
        lemma_date_end(t@, cut as int);
        assert(t@.subrange(0, cut as int) =~= t@.take(cut as int));
    }
    let (year, month, day) = match parse_date(t.substring_char(0, cut)) {
        Some(f) => f,
        None => return None,
    };
    let (hour, minute, second) = if cut < n {
        assert(t@.subrange(cut as int + 1, n as int) =~= t@.skip(cut as int + 1));
        match parse_time(t.substring_char(cut + 1, n)) {
            Some(f) => f,
            None => return None,
        }
    } else {
        (0i64, 0i64, 0i64)
    };
    let y: i128 = if month <= 2 {
        year as i128 - 1
    } else {
        year as i128
    };
    let (era, yoe) = era_of(y);
    let mp: i128 = if month > 2 {
        month as i128 - 3
    } else {
        month as i128 + 9
    };
    let year_days: i128 = yoe * 365 + ((yoe as u128) / 4) as i128 - ((yoe as u128) / 100) as i128;
    let month_days: i128 = ((153 * mp + 2) as u128 / 5) as i128;
    let days: i128 = era * 146_097 + year_days + month_days + day as i128 - 1 - 719_468;
    proof {
        lemma_days(year as int, month as int, day as int, y as int, era as int, yoe as int, mp as int);
        assert(days == days_of(year as int, month as int, day as int));
    }
    Some(days * 86_400 + hour as i128 * 3600 + minute as i128 * 60 + second as i128)
}

/// Seconds from the start of 1970 to the timestamp that `raw` writes, for a
/// timestamp whose seconds an `i64` can count.
pub fn parse_civil_time(raw: &str) -> (r: Option<i64>)
    requires
        epoch_of(raw@) matches Some(v) ==> i64::MIN <= v <= i64::MAX,
    ensures
        epoch_of(raw@) == (match r {
            Some(v) => Some(v as int),
            None => None,
        }),
{
    match civil_seconds(raw) {
        Some(v) => Some(v as i64),
        None => None,
    }
}

/// Later dates count more days: a day, a month or a year on.
pub proof fn law_days_increase(y: int, m: int, d: int)
    requires
        1 <= m <= 12,
        1 <= d <= 31,
    ensures
        days_of(y, m, d + 1) == days_of(y, m, d) + 1,
        m < 12 ==> days_of(y, m + 1, d) > days_of(y, m, d),
        days_of(y + 1, m, d) > days_of(y, m, d),
        days_of(y + 1, 1, 1) == days_of(y, 12, 31) + 1,
{
    assert((y + 4) / 4 == (y + 3) / 4 + (if y % 4 == 0 { 1int } else { 0int }));
    assert((y + 100) / 100 == (y + 99) / 100 + (if y % 100 == 0 { 1int } else { 0int }));
    assert((y + 400) / 400 == (y + 399) / 400 + (if y % 400 == 0 { 1int } else { 0int }));
    assert(y % 400 == 0 ==> y % 100 == 0);
    assert(y % 100 == 0 ==> y % 4 == 0);
}

/// The calendar: days are counted from the first of January 1970, months have the lengths
/// they have, February one day more in years that four divides but not a hundred, or that
/// four hundred divides.
pub proof fn law_calendar(y: int, m: int)
    requires
        1 <= m <= 12,
    ensures
        days_of(1970, 1, 1) == 0,
        days_of(y + 1, 1, 1) - days_of(y, 12, 1) == 31,
        m == 1 || m == 3 || m == 5 || m == 7 || m == 8 || m == 10 ==> days_of(y, m + 1, 1) - days_of(y, m, 1) == 31,
        m == 4 || m == 6 || m == 9 || m == 11 ==> days_of(y, m + 1, 1) - days_of(y, m, 1) == 30,
        m == 2 && (y % 400 == 0 || (y % 4 == 0 && y % 100 != 0)) ==> days_of(y, m + 1, 1) - days_of(y, m, 1) == 29,
        m == 2 && !(y % 400 == 0 || (y % 4 == 0 && y % 100 != 0)) ==> days_of(y, m + 1, 1) - days_of(y, m, 1) == 28,
        days_of(y + 400, m, 1) - days_of(y, m, 1) == 146_097,
{
    law_days_increase(y, m, 1);
    assert(y % 400 == 0 ==> y % 4 == 0);
    assert(leap(y + 400) == leap(y));
    assert((y + 400 + 3) / 4 == (y + 3) / 4 + 100);
    assert((y + 400 + 99) / 100 == (y + 99) / 100 + 4);
    assert((y + 400 + 399) / 400 == (y + 399) / 400 + 1);
}

proof fn lemma_digits_are_number(s: Seq<char>)
    requires
        s.len() > 0,
        text::all_digits(s),
    ensures
        text::signed_decimal(s) == Some(text::digits_value(s) as int),
        text::leading_digits(s) == s,
        !s.contains('-') && !s.contains(':') && !s.contains(' ') && !s.contains('T'),
{
    assert(text::is_digit(s[0]));
    lemma_leading_whole(s);
    assert forall|c: char| #[trigger] s.contains(c) implies '0' <= c <= '9' by {
        let k = choose|k: int| 0 <= k < s.len() && s[k] == c;
        assert(text::is_digit(s[k]));
    }
}

proof fn lemma_leading_whole(s: Seq<char>)
    requires
        text::all_digits(s),
    ensures
        text::leading_digits(s) == s,
    decreases s.len(),
{
    if s.len() > 0 {
        assert(text::is_digit(s[0]));
        let t = s.drop_first();
        assert forall|i: int| 0 <= i < t.len() implies text::is_digit(#[trigger] t[i]) by {
            assert(t[i] == s[i + 1]);
            assert(text::is_digit(s[i + 1]));
        }
        lemma_leading_whole(t);
        assert(seq![s[0]] + t =~= s);
    } else {
        assert(s =~= Seq::<char>::empty());
    }
}

proof fn lemma_three_pieces(a: Seq<char>, b: Seq<char>, c: Seq<char>, sep: char)
    requires
        !a.contains(sep),
        !b.contains(sep),
        !c.contains(sep),
    ensures
        text::split(a.push(sep) + (b.push(sep) + c), sep) == seq![a, b, c],
{
    text::law_split_at_separator(a, b.push(sep) + c, sep);
    text::law_split_at_separator(b, c, sep);
    text::law_split_without_separator(a, sep);
    text::law_split_without_separator(b, sep);
    text::law_split_without_separator(c, sep);
    assert(seq![a] + (seq![b] + seq![c]) =~= seq![a, b, c]);
}

/// The days of a date and the seconds of a time of day, put together.
pub open spec fn seconds_at(y: int, m: int, d: int, h: int, min: int, s: int) -> int {
    days_of(y, m, d) * (24 * 60 * 60) + h * (60 * 60) + min * 60 + s
}

/// A timestamp written in digits, `year-month-day hour:minute:second` with a blank or a
/// `T` between date and time, is read as that date and that time of day; it is none where
/// month, day, hour, minute or second lie outside their bounds.
pub proof fn law_timestamp_is_read(
    date: (Seq<char>, Seq<char>, Seq<char>),
    between: char,
    time: (Seq<char>, Seq<char>, Seq<char>),
    raw: &str,
    r: Option<i128>,
)
    requires
        date.0.len() > 0 && text::all_digits(date.0),
        date.1.len() > 0 && text::all_digits(date.1),
        date.2.len() > 0 && text::all_digits(date.2),
        time.0.len() > 0 && text::all_digits(time.0),
        time.1.len() > 0 && text::all_digits(time.1),
        time.2.len() > 0 && text::all_digits(time.2),
        text::digits_value(date.0) <= i64::MAX,
        text::digits_value(time.2) <= i64::MAX,
        between == ' ' || between == 'T',
        raw@ == date.0 + seq!['-'] + date.1 + seq!['-'] + date.2 + seq![between] + time.0 + seq![':'] + time.1 + seq![':'] + time.2,
        call_ensures(civil_seconds, (raw,), r),
    ensures
        ({
            let (y, m, d) = (
                text::digits_value(date.0) as int,
                text::digits_value(date.1) as int,
                text::digits_value(date.2) as int,
            );
            let (h, min, s) = (
                text::digits_value(time.0) as int,
                text::digits_value(time.1) as int,
                text::digits_value(time.2) as int,
            );
            if 1 <= m <= 12 && 1 <= d <= 31 && h < 24 && min < 60 && s <= 60 {
                r is Some && r.unwrap() == seconds_at(y, m, d, h, min, s)
            } else {
                r is None
            }
        }),
{
    let front = date.0.push('-') + (date.1.push('-') + date.2);
    let back = time.0.push(':') + (time.1.push(':') + time.2);
    lemma_digits_are_number(date.0);
    lemma_digits_are_number(date.1);
    lemma_digits_are_number(date.2);
    lemma_digits_are_number(time.0);
    lemma_digits_are_number(time.1);
    lemma_digits_are_number(time.2);
    lemma_three_pieces(date.0, date.1, date.2, '-');
    lemma_three_pieces(time.0, time.1, time.2, ':');
    assert(raw@ =~= front.push(between) + back);
    lemma_untrimmed(raw@);
    lemma_no_cut(date.0, date.1, date.2, front);
    assert(raw@[front.len() as int] == between);
    assert forall|i: int| 0 <= i < front.len() implies raw@[i] != ' ' && raw@[i] != 'T' by {
        assert(raw@[i] == front[i]);
    }
    lemma_date_end(raw@, front.len() as int);
    assert(raw@.take(front.len() as int) =~= front);
    assert(raw@.skip(front.len() as int + 1) =~= back);
    assert(text::split(front, '-') == seq![date.0, date.1, date.2]);
    assert(text::split(back, ':') == seq![time.0, time.1, time.2]);
}

proof fn lemma_no_cut(a: Seq<char>, b: Seq<char>, c: Seq<char>, front: Seq<char>)
    requires
        front == a.push('-') + (b.push('-') + c),
        text::all_digits(a),
        text::all_digits(b),
        text::all_digits(c),
    ensures
        forall|i: int| 0 <= i < front.len() ==> front[i] != ' ' && front[i] != 'T',
{
    assert forall|i: int| 0 <= i < front.len() implies front[i] != ' ' && front[i] != 'T' by {
        if i < a.len() {
            assert(text::is_digit(a[i]));
        } else if i == a.len() {
        } else if i < a.len() + 1 + b.len() {
            assert(text::is_digit(b[i - a.len() - 1]));
        } else if i == a.len() + 1 + b.len() {
        } else {
            assert(text::is_digit(c[i - a.len() - b.len() - 2]));
        }
    }
}

proof fn lemma_untrimmed(s: Seq<char>)
    requires
        s.len() > 0,
        text::is_digit(s[0]),
        text::is_digit(s.last()),
    ensures
        text::trimmed(s) == s,
{
}

/// A date by itself is read as its midnight.
pub proof fn law_date_is_midnight(date: (Seq<char>, Seq<char>, Seq<char>), raw: &str, r: Option<i128>)
    requires
        date.0.len() > 0 && text::all_digits(date.0),
        date.1.len() > 0 && text::all_digits(date.1),
        date.2.len() > 0 && text::all_digits(date.2),
        text::digits_value(date.0) <= i64::MAX,
        1 <= text::digits_value(date.1) <= 12,
        1 <= text::digits_value(date.2) <= 31,
        raw@ == date.0 + seq!['-'] + date.1 + seq!['-'] + date.2,
        call_ensures(civil_seconds, (raw,), r),
    ensures
        r is Some && r.unwrap() == seconds_at(
            text::digits_value(date.0) as int,
            text::digits_value(date.1) as int,
            text::digits_value(date.2) as int,
            0,
            0,
            0,
        ),
{
    let front = date.0.push('-') + (date.1.push('-') + date.2);
    lemma_digits_are_number(date.0);
    lemma_digits_are_number(date.1);
    lemma_digits_are_number(date.2);
    lemma_three_pieces(date.0, date.1, date.2, '-');
    assert(raw@ =~= front);
    lemma_untrimmed(raw@);
    lemma_no_cut(date.0, date.1, date.2, front);
    lemma_date_end(raw@, front.len() as int);
    assert(raw@.take(front.len() as int) =~= front);
    assert(text::split(front, '-') == seq![date.0, date.1, date.2]);
}

/// White space around a timestamp does not count, and the two readers read the same.
pub proof fn law_readers_agree(raw: &str, other: &str, a: Option<i128>, b: Option<i128>, c: Option<i64>)
    requires
        text::trimmed(raw@) == text::trimmed(other@),
        call_ensures(civil_seconds, (raw,), a),
        call_ensures(civil_seconds, (other,), b),
        call_ensures(parse_civil_time, (raw,), c),
    ensures
        a == b,
        a is Some <==> c is Some,
        a is Some ==> a.unwrap() == c.unwrap(),
{
}

}
