//! The refresh schedule: a five-field cron expression, evaluated in UTC at
//! minute granularity.
//!
//! A field is `*`, a value, a range `a-b`, or a comma-separated list of
//! those. The scheduler outside wakes at each minute boundary and asks
//! whether the broken-down time matches; both the broken-down time and the
//! match are computed here.

use vstd::prelude::*;
use crate::text::{str_chars, str_eq};

verus! {

/// One field of a cron expression: every value, or an explicit list.
#[derive(Debug)]
pub struct CronField {
    pub any: bool,
    pub values: Vec<u8>,
}

/// A five-field cron schedule: minute, hour, day of month, month, day of
/// week.
#[derive(Debug)]
pub struct CronSchedule {
    pub minute: CronField,
    pub hour: CronField,
    pub day_of_month: CronField,
    pub month: CronField,
    pub day_of_week: CronField,
}

/// Whether a field admits the value.
pub open spec fn field_matches(f: CronField, v: u8) -> bool {
    f.any || f.values@.contains(v)
}

/// Whether a field admits the value.
pub fn field_admits(f: &CronField, v: u8) -> (r: bool)
    ensures
        r == field_matches(*f, v),
{
    if f.any {
        return true;
    }
    let mut i: usize = 0;
    while i < f.values.len()
        invariant
            i <= f.values@.len(),
            forall|k: int| 0 <= k < i ==> f.values@[k] != v,
        decreases f.values@.len() - i,
    {
        if f.values[i] == v {
            return true;
        }
        i = i + 1;
    }
    proof {
        assert(!f.values@.contains(v));
    }
    false
}

/// A broken-down UTC time at minute granularity.
#[derive(Clone, Copy, Debug, PartialEq, Eq, Structural)]
pub struct CivilTime {
    pub year: u64,
    pub month: u8,
    pub day: u8,
    pub hour: u8,
    pub minute: u8,
    /// 0 is Sunday, as cron counts days.
    pub day_of_week: u8,
}

/// Whether a schedule fires at a broken-down time.
pub open spec fn schedule_matches(s: CronSchedule, t: CivilTime) -> bool {
    &&& field_matches(s.minute, t.minute)
    &&& field_matches(s.hour, t.hour)
    &&& field_matches(s.day_of_month, t.day)
    &&& field_matches(s.month, t.month)
    &&& field_matches(s.day_of_week, t.day_of_week)
}

/// Whether a schedule fires at a broken-down time.
pub fn schedule_fires(s: &CronSchedule, t: &CivilTime) -> (r: bool)
    ensures
        r == schedule_matches(*s, *t),
{
    field_admits(&s.minute, t.minute) && field_admits(&s.hour, t.hour) && field_admits(
        &s.day_of_month,
        t.day,
    ) && field_admits(&s.month, t.month) && field_admits(&s.day_of_week, t.day_of_week)
}

/// A schedule whose every field is `*` fires at every minute of every day.
pub proof fn lemma_every_minute_fires(s: CronSchedule, t: CivilTime)
    requires
        s.minute.any,
        s.hour.any,
        s.day_of_month.any,
        s.month.any,
        s.day_of_week.any,
    ensures
        schedule_matches(s, t),
{
}

/// Whether a year is a leap year, by the Gregorian rule.
pub open spec fn is_leap(y: int) -> bool {
    y % 4 == 0 && (y % 100 != 0 || y % 400 == 0)
}

/// The days of a year.
pub open spec fn days_in_year(y: int) -> int {
    if is_leap(y) {
        366
    } else {
        365
    }
}

/// The days of a month (1 to 12) of a year.
pub open spec fn days_in_month(y: int, m: int) -> int {
    if m == 2 {
        if is_leap(y) {
            29
        } else {
            28
        }
    } else if m == 4 || m == 6 || m == 9 || m == 11 {
        30
    } else {
        31
    }
}

/// The calendar date `days` whole days after the first day of year `y`.
pub open spec fn ymd_from_days(y: int, days: int) -> (int, int, int)
    decreases days,
{
    if days < days_in_year(y) || days < 365 {
        md_from_days(y, 1, days)
    } else {
        ymd_from_days(y + 1, days - days_in_year(y))
    }
}

/// The calendar date `days` whole days after the first day of month `m` of
/// year `y`.
pub open spec fn md_from_days(y: int, m: int, days: int) -> (int, int, int)
    decreases 12 - m,
{
    if m >= 12 || days < days_in_month(y, m) {
        (y, m, days + 1)
    } else {
        md_from_days(y, m + 1, days - days_in_month(y, m))
    }
}

/// The days of the months before month `m`, in a non-leap year.
pub open spec fn month_offset(m: int) -> int {
    if m <= 1 {
        0
    } else if m == 2 {
        31
    } else if m == 3 {
        59
    } else if m == 4 {
        90
    } else if m == 5 {
        120
    } else if m == 6 {
        151
    } else if m == 7 {
        181
    } else if m == 8 {
        212
    } else if m == 9 {
        243
    } else if m == 10 {
        273
    } else if m == 11 {
        304
    } else {
        334
    }
}

/// The days of a year `y` that lie before its month `m`.
pub open spec fn days_before_month(y: int, m: int) -> int {
    month_offset(m) + if m >= 3 && is_leap(y) {
        1int
    } else {
        0int
    }
}

/// Whether a year is a leap year.
pub fn leap_year(y: u64) -> (r: bool)
    ensures
        r == is_leap(y as int),
{
    y % 4 == 0 && (y % 100 != 0 || y % 400 == 0)
}

/// The UTC calendar time of an epoch timestamp, at minute granularity: the
/// date by the Gregorian rules, the hour and minute of the day, and the day
/// of the week (the epoch fell on a Thursday).
pub open spec fn civil_spec(t: int) -> CivilTime {
    let days = t / 86400;
    CivilTime {
        year: ymd_from_days(1970, days).0 as u64,
        month: ymd_from_days(1970, days).1 as u8,
        day: ymd_from_days(1970, days).2 as u8,
        hour: ((t % 86400) / 3600) as u8,
        minute: (((t % 86400) % 3600) / 60) as u8,
        day_of_week: ((days + 4) % 7) as u8,
    }
}

/// The UTC calendar time of an epoch timestamp, at minute granularity.
pub fn civil_from_epoch(secs: u64) -> (r: CivilTime)
    ensures
        r == civil_spec(secs as int),
{
    let days: u64 = secs / 86400;
    let rem: u64 = secs % 86400;
    proof {
        vstd::arithmetic::div_mod::lemma_fundamental_div_mod(secs as int, 86400);
        assert(days as int <= 86400 * (days as int)) by (nonlinear_arith)
            requires
                days as int >= 0,
        ;
        assert(days < 300_000_000_000_000u64) by (nonlinear_arith)
            requires
                86400 * (days as int) <= u64::MAX,
                days as int >= 0,
        ;
    }
    let hour: u64 = rem / 3600;
    let minute: u64 = (rem % 3600) / 60;
    let day_of_week: u64 = (days + 4) % 7;
    proof {
        vstd::arithmetic::div_mod::lemma_mod_bound(secs as int, 86400);
        vstd::arithmetic::div_mod::lemma_fundamental_div_mod(rem as int, 3600);
        assert(hour < 24) by (nonlinear_arith)
            requires
                rem < 86400,
                rem as int == 3600 * (hour as int) + (rem as int) % 3600,
                0 <= (rem as int) % 3600,
                hour as int == rem as int / 3600,
        ;
        vstd::arithmetic::div_mod::lemma_mod_bound(rem as int, 3600);
        vstd::arithmetic::div_mod::lemma_fundamental_div_mod((rem % 3600) as int, 60);
        assert(minute < 60) by (nonlinear_arith)
            requires
                (rem % 3600) < 3600,
                (rem % 3600) as int == 60 * (minute as int) + ((rem % 3600) as int) % 60,
                0 <= ((rem % 3600) as int) % 60,
                minute as int == (rem % 3600) as int / 60,
        ;
        assert(day_of_week < 7);
    }
    let ghost total = days as int;
    let mut y: u64 = 1970;
    let mut d: u64 = days;
    loop
        invariant
            1970 <= y,
            total < 300_000_000_000_000,
            y - 1970 <= total - d,
            d <= days,
            days == total,
            ymd_from_days(1970, total) == ymd_from_days(y as int, d as int),
        ensures
            ymd_from_days(1970, total) == ymd_from_days(y as int, d as int),
            (d as int) < days_in_year(y as int),
            d < 366,
            y < u64::MAX,
        decreases d,
    {
        let len: u64 = if leap_year(y) {
            366
        } else {
            365
        };
        if d < len {
            break ;
        }
        d = d - len;
        y = y + 1;
    }
    let mut m: u64 = 1;
    loop
        invariant
            1 <= m <= 12,
            (d as int) < 366,
            (d as int) + days_before_month(y as int, m as int) < days_in_year(y as int),
            ymd_from_days(1970, total) == md_from_days(y as int, m as int, d as int),
        ensures
            ymd_from_days(1970, total) == md_from_days(y as int, m as int, d as int),
            d < 31,
            1 <= m <= 12,
            m >= 12 || (d as int) < days_in_month(y as int, m as int),
        decreases 12 - m,
    {
        if m >= 12 {
            proof {
                assert((d as int) + days_before_month(y as int, 12) < days_in_year(y as int));
            }
            break ;
        }
        let len: u64 = if m == 2 {
            if leap_year(y) {
                29
            } else {
                28
            }
        } else if m == 4 || m == 6 || m == 9 || m == 11 {
            30
        } else {
            31
        };
        if d < len {
            proof {
                assert(md_from_days(y as int, m as int, d as int) == (
                    y as int,
                    m as int,
                    d as int + 1,
                ));
            }
            break ;
        }
        d = d - len;
        m = m + 1;
        proof {
            assert(days_before_month(y as int, m as int) == days_before_month(y as int, m - 1)
                + days_in_month(y as int, m - 1));
        }
    }
    proof {
        assert(md_from_days(y as int, m as int, d as int) == (y as int, m as int, d as int + 1));
        assert(ymd_from_days(1970, total) == (y as int, m as int, d as int + 1));
    }
    let r = CivilTime {
        year: y,
        month: m as u8,
        day: (d + 1) as u8,
        hour: hour as u8,
        minute: minute as u8,
        day_of_week: day_of_week as u8,
    };
    proof {
        assert(r == civil_spec(secs as int));
    }
    r
}

/// What a cron field is, mathematically.
#[verifier::ext_equal]
pub struct FieldModel {
    pub any: bool,
    pub values: Seq<u8>,
}

impl View for CronField {
    type V = FieldModel;

    open spec fn view(&self) -> FieldModel {
        FieldModel { any: self.any, values: self.values@ }
    }
}

/// What a schedule is, mathematically: its five fields.
#[verifier::ext_equal]
pub struct ScheduleModel {
    pub minute: FieldModel,
    pub hour: FieldModel,
    pub day_of_month: FieldModel,
    pub month: FieldModel,
    pub day_of_week: FieldModel,
}

impl View for CronSchedule {
    type V = ScheduleModel;

    open spec fn view(&self) -> ScheduleModel {
        ScheduleModel {
            minute: self.minute@,
            hour: self.hour@,
            day_of_month: self.day_of_month@,
            month: self.month@,
            day_of_week: self.day_of_week@,
        }
    }
}

/// The whitespace-separated fields of an expression, from position `i` on,
/// with `cur` the field begun so far; empty pieces are dropped.
pub open spec fn fields_acc(s: Seq<char>, i: int, cur: Seq<char>) -> Seq<Seq<char>>
    decreases s.len() - i,
{
    if i < 0 || i >= s.len() {
        if cur.len() > 0 {
            seq![cur]
        } else {
            Seq::empty()
        }
    } else if s[i] == ' ' {
        if cur.len() > 0 {
            seq![cur] + fields_acc(s, i + 1, Seq::empty())
        } else {
            fields_acc(s, i + 1, Seq::empty())
        }
    } else {
        fields_acc(s, i + 1, cur.push(s[i]))
    }
}

/// The space-separated fields of a cron expression, in order.
pub open spec fn cron_fields(s: Seq<char>) -> Seq<Seq<char>> {
    fields_acc(s, 0, Seq::empty())
}

/// The value of a decimal digit, if the character is one.
pub open spec fn digit_val(c: char) -> Option<int> {
    match c {
        '0' => Some(0int),
        '1' => Some(1int),
        '2' => Some(2int),
        '3' => Some(3int),
        '4' => Some(4int),
        '5' => Some(5int),
        '6' => Some(6int),
        '7' => Some(7int),
        '8' => Some(8int),
        '9' => Some(9int),
        _ => None,
    }
}

/// The decimal value of `s[i..]` appended onto `acc`, or nothing when a
/// character is not a digit.
pub open spec fn dec_from(s: Seq<char>, i: int, acc: int) -> Option<int>
    decreases s.len() - i,
{
    if i < 0 || i >= s.len() {
        Some(acc)
    } else {
        match digit_val(s[i]) {
            None => None,
            Some(d) => dec_from(s, i + 1, acc * 10 + d),
        }
    }
}

/// The decimal value of a non-empty, all-digit string.
pub open spec fn dec_value(s: Seq<char>) -> Option<int> {
    if s.len() == 0 {
        None
    } else {
        dec_from(s, 0, 0)
    }
}

proof fn lemma_dec_from_grows(s: Seq<char>, i: int, acc: int)
    requires
        0 <= i <= s.len(),
        acc >= 0,
    ensures
        dec_from(s, i, acc) matches Some(v) ==> v >= acc,
    decreases s.len() - i,
{
    if i < s.len() {
        match digit_val(s[i]) {
            None => {},
            Some(d) => {
                lemma_dec_from_grows(s, i + 1, acc * 10 + d);
            },
        }
    }
}

/// The first position of `c` in `s`, or nothing.
pub open spec fn find_char_from(s: Seq<char>, i: int, c: char) -> Option<int>
    decreases s.len() - i,
{
    if i < 0 || i >= s.len() {
        None
    } else if s[i] == c {
        Some(i)
    } else {
        find_char_from(s, i + 1, c)
    }
}

/// The values from `a` to `b`, both ends included.
pub open spec fn range_values(a: int, b: int) -> Seq<u8> {
    Seq::new((b + 1 - a) as nat, |i: int| (a + i) as u8)
}

/// The values one item of a cron field stands for, within the given
/// bounds: a plain value, or a range `a-b` with `a <= b`.
pub open spec fn item_values(item: Seq<char>, lo: int, hi: int) -> Option<Seq<u8>> {
    match find_char_from(item, 0, '-') {
        None => match dec_value(item) {
            None => None,
            Some(n) => if lo <= n <= hi {
                Some(seq![n as u8])
            } else {
                None
            },
        },
        Some(p) => {
            let a = dec_value(item.subrange(0, p));
            let b = dec_value(item.subrange(p + 1, item.len() as int));
            match (a, b) {
                (Some(a), Some(b)) => if lo <= a && a <= b && b <= hi {
                    Some(range_values(a, b))
                } else {
                    None
                },
                _ => None,
            }
        },
    }
}

/// The values a whole cron field stands for: the concatenation of its
/// comma-separated items' values, from item `i` on.
pub open spec fn list_values(items: Seq<Seq<char>>, i: int, lo: int, hi: int) -> Option<Seq<u8>>
    decreases items.len() - i,
{
    if i < 0 || i >= items.len() {
        Some(Seq::empty())
    } else {
        match item_values(items[i], lo, hi) {
            None => None,
            Some(vs) => match list_values(items, i + 1, lo, hi) {
                None => None,
                Some(rest) => Some(vs + rest),
            },
        }
    }
}

/// What a cron field parses to within the given bounds: `*`, or the values
/// of its items.
pub open spec fn field_spec(piece: Seq<char>, lo: int, hi: int) -> Option<FieldModel> {
    if piece == "*"@ {
        Some(FieldModel { any: true, values: Seq::empty() })
    } else {
        match list_values(crate::config::split_commas(piece), 0, lo, hi) {
            None => None,
            Some(vs) => Some(FieldModel { any: false, values: vs }),
        }
    }
}

/// What a five-field cron expression parses to: minute 0-59, hour 0-23,
/// day of month 1-31, month 1-12, day of week 0-6.
pub open spec fn schedule_spec(s: Seq<char>) -> Option<ScheduleModel> {
    let fields = cron_fields(s);
    if fields.len() != 5 {
        None
    } else {
        match (
            field_spec(fields[0], 0, 59),
            field_spec(fields[1], 0, 23),
            field_spec(fields[2], 1, 31),
            field_spec(fields[3], 1, 12),
            field_spec(fields[4], 0, 6),
        ) {
            (Some(minute), Some(hour), Some(dom), Some(month), Some(dow)) => Some(
                ScheduleModel {
                    minute,
                    hour,
                    day_of_month: dom,
                    month,
                    day_of_week: dow,
                },
            ),
            _ => None,
        }
    }
}

/// The whitespace-separated fields of a cron expression.
fn split_fields(s: &str) -> (r: Vec<String>)
    ensures
        r.deep_view() == cron_fields(s@),
{
    let v = str_chars(s);
    let mut out: Vec<String> = Vec::new();
    let mut piece: Vec<char> = Vec::new();
    let mut i: usize = 0;
    while i < v.len()
        invariant
            i <= v@.len(),
            v@ == s@,
            fields_acc(s@, 0, Seq::empty()) == out.deep_view() + fields_acc(
                s@,
                i as int,
                piece@,
            ),
        decreases v@.len() - i,
    {
        let ghost gi = i as int;
        let ghost prev_out = out.deep_view();
        let ghost prev_piece = piece@;
        if v[i] == ' ' {
            if piece.len() > 0 {
                out.push(crate::text::chars_to_string(&piece));
                piece = Vec::new();
                proof {
                    assert(out.deep_view() =~= prev_out.push(prev_piece));
                    assert(prev_out + fields_acc(s@, gi, prev_piece) =~= out.deep_view()
                        + fields_acc(s@, gi + 1, piece@));
                }
            } else {
                proof {
                    assert(piece@ =~= Seq::<char>::empty());
                    assert(fields_acc(s@, gi, prev_piece) == fields_acc(s@, gi + 1, piece@));
                }
            }
        } else {
            piece.push(v[i]);
            proof {
                assert(piece@ == prev_piece.push(s@[gi]));
                assert(fields_acc(s@, gi, prev_piece) == fields_acc(s@, gi + 1, piece@));
            }
        }
        i = i + 1;
    }
    if piece.len() > 0 {
        let ghost prev_out = out.deep_view();
        out.push(crate::text::chars_to_string(&piece));
        proof {
            assert(fields_acc(s@, i as int, piece@) == seq![piece@]);
            assert(out.deep_view() =~= prev_out + fields_acc(s@, i as int, piece@));
        }
    } else {
        proof {
            assert(fields_acc(s@, i as int, piece@) =~= Seq::<Seq<char>>::empty());
            assert(out.deep_view() + fields_acc(s@, i as int, piece@) =~= out.deep_view());
        }
    }
    out
}

/// The decimal value of a non-empty, all-digit string, or nothing.
fn parse_number(s: &Vec<char>) -> (r: Option<u64>)
    ensures
        match dec_value(s@) {
            None => r is None,
            Some(n) => if n <= 1000 {
                r matches Some(x) && x == n
            } else {
                r is None || (r matches Some(x) && x > 1000)
            },
        },
{
    if s.len() == 0 {
        return None;
    }
    let mut acc: u64 = 0;
    let mut i: usize = 0;
    while i < s.len()
        invariant
            i <= s@.len(),
            acc <= 10010,
            dec_from(s@, 0, 0) == dec_from(s@, i as int, acc as int),
        decreases s@.len() - i,
    {
        let ghost gi = i as int;
        let d: u64 = match s[i] {
            '0' => 0,
            '1' => 1,
            '2' => 2,
            '3' => 3,
            '4' => 4,
            '5' => 5,
            '6' => 6,
            '7' => 7,
            '8' => 8,
            '9' => 9,
            _ => {
                proof {
                    assert(digit_val(s@[gi]) is None);
                }
                return None;
            },
        };
        proof {
            assert(digit_val(s@[gi]) == Some(d as int));
        }
        if acc > 1000 {
            proof {
                lemma_dec_from_grows(s@, gi, acc as int);
                assert(dec_from(s@, gi, acc as int) matches Some(v) ==> v > 1000);
            }
            return None;
        }
        acc = acc * 10 + d;
        i = i + 1;
    }
    proof {
        assert(dec_from(s@, i as int, acc as int) == Some(acc as int));
    }
    if acc > 1000 {
        return None;
    }
    Some(acc)
}

/// The values one item of a field stands for within the bounds, or nothing
/// for a malformed or out-of-range item.
fn parse_item(item: &str, lo: u8, hi: u8) -> (r: Option<Vec<u8>>)
    requires
        hi <= 60,
    ensures
        match item_values(item@, lo as int, hi as int) {
            None => r is None,
            Some(vs) => r matches Some(v) && v@ == vs,
        },
{
    let chars = str_chars(item);
    let mut dash: Option<usize> = None;
    let mut i: usize = 0;
    while i < chars.len()
        invariant
            i <= chars@.len(),
            chars@ == item@,
            match dash {
                None => find_char_from(item@, 0, '-') == find_char_from(item@, i as int, '-'),
                Some(p) => find_char_from(item@, 0, '-') == Some(p as int) && p < i,
            },
        decreases chars@.len() - i,
    {
        if dash.is_none() && chars[i] == '-' {
            dash = Some(i);
        }
        i = i + 1;
    }
    match dash {
        None => {
            let n = match parse_number(&chars) {
                Some(n) => n,
                None => {
                    return None;
                },
            };
            if lo as u64 <= n && n <= hi as u64 {
                let mut out: Vec<u8> = Vec::new();
                out.push(n as u8);
                proof {
                    assert(out@ =~= seq![n as u8]);
                }
                Some(out)
            } else {
                None
            }
        },
        Some(p) => {
            let mut left: Vec<char> = Vec::new();
            let mut k: usize = 0;
            while k < p
                invariant
                    k <= p <= chars@.len(),
                    chars@ == item@,
                    left@ == item@.subrange(0, k as int),
                decreases p - k,
            {
                left.push(chars[k]);
                k = k + 1;
                proof {
                    assert(left@ =~= item@.subrange(0, k as int));
                }
            }
            let mut right: Vec<char> = Vec::new();
            let mut k2: usize = p + 1;
            while k2 < chars.len()
                invariant
                    p + 1 <= k2 <= chars@.len(),
                    chars@ == item@,
                    right@ == item@.subrange(p + 1, k2 as int),
                decreases chars@.len() - k2,
            {
                right.push(chars[k2]);
                k2 = k2 + 1;
                proof {
                    assert(right@ =~= item@.subrange(p + 1, k2 as int));
                }
            }
            proof {
                assert(left@ =~= item@.subrange(0, p as int));
                assert(right@ =~= item@.subrange(p as int + 1, item@.len() as int));
            }
            let a = match parse_number(&left) {
                Some(a) => a,
                None => {
                    return None;
                },
            };
            let b = match parse_number(&right) {
                Some(b) => b,
                None => {
                    return None;
                },
            };
            if lo as u64 <= a && a <= b && b <= hi as u64 {
                let mut out: Vec<u8> = Vec::new();
                let mut v: u64 = a;
                while v <= b
                    invariant
                        a <= v <= b + 1,
                        b <= 60,
                        out@ == range_values(a as int, b as int).subrange(0, v - a),
                    decreases b + 1 - v,
                {
                    out.push(v as u8);
                    v = v + 1;
                    proof {
                        assert(out@ =~= range_values(a as int, b as int).subrange(0, v - a));
                    }
                }
                proof {
                    assert(out@ =~= range_values(a as int, b as int));
                }
                Some(out)
            } else {
                None
            }
        },
    }
}

/// What one field of the expression stands for within the bounds: `*`, or
/// the values of its comma-separated items.
fn parse_field(piece: &str, lo: u8, hi: u8) -> (r: Option<CronField>)
    requires
        hi <= 60,
    ensures
        match field_spec(piece@, lo as int, hi as int) {
            None => r is None,
            Some(f) => r matches Some(cf) && cf@ == f,
        },
{
    if str_eq(piece, "*") {
        return Some(CronField { any: true, values: Vec::new() });
    }
    let ghost items = crate::config::split_commas(piece@);
    let parts = crate::config::split_on_commas(piece);
    let mut values: Vec<u8> = Vec::new();
    let mut i: usize = 0;
    while i < parts.len()
        invariant
            i <= parts@.len(),
            piece@ != "*"@,
            items == crate::config::split_commas(piece@),
            parts.deep_view() == items,
            match list_values(items, i as int, lo as int, hi as int) {
                None => list_values(items, 0, lo as int, hi as int) is None,
                Some(rest) => list_values(items, 0, lo as int, hi as int) == Some(
                    values@ + rest,
                ),
            },
            hi <= 60,
        decreases parts@.len() - i,
    {
        let ghost gi = i as int;
        let ghost prev = values@;
        proof {
            assert(parts.deep_view()[gi] == parts@[gi]@);
        }
        let vs = match parse_item(parts[i].as_str(), lo, hi) {
            Some(vs) => vs,
            None => {
                proof {
                    assert(item_values(items[gi], lo as int, hi as int) is None);
                    assert(list_values(items, gi, lo as int, hi as int) is None);
                }
                return None;
            },
        };
        let mut tail = vs;
        let ghost vs_view = tail@;
        values.append(&mut tail);
        i = i + 1;
        proof {
            assert(values@ =~= prev + vs_view);
            assert(list_values(items, gi, lo as int, hi as int) == match list_values(
                items,
                gi + 1,
                lo as int,
                hi as int,
            ) {
                None => None,
                Some(rest) => Some(vs_view + rest),
            });
            match list_values(items, gi + 1, lo as int, hi as int) {
                None => {},
                Some(rest) => {
                    assert(prev + (vs_view + rest) =~= values@ + rest);
                },
            }
        }
    }
    proof {
        assert(list_values(items, i as int, lo as int, hi as int) == Some(Seq::<u8>::empty()));
        assert(values@ + Seq::<u8>::empty() =~= values@);
    }
    Some(CronField { any: false, values })
}

/// The schedule a five-field cron expression stands for, or nothing for a
/// malformed expression. Fields are separated by spaces; a field is `*`, a
/// value, a range `a-b`, or a comma-separated list of values and ranges.
pub fn parse_cron(s: &str) -> (r: Option<CronSchedule>)
    ensures
        match schedule_spec(s@) {
            None => r is None,
            Some(m) => r matches Some(sched) && sched@ == m,
        },
{
    let fields = split_fields(s);
    if fields.len() != 5 {
        return None;
    }
    proof {
        assert(cron_fields(s@).len() == 5);
        assert(fields.deep_view()[0] == fields@[0]@);
        assert(fields.deep_view()[1] == fields@[1]@);
        assert(fields.deep_view()[2] == fields@[2]@);
        assert(fields.deep_view()[3] == fields@[3]@);
        assert(fields.deep_view()[4] == fields@[4]@);
    }
    let minute = match parse_field(fields[0].as_str(), 0, 59) {
        Some(f) => f,
        None => {
            return None;
        },
    };
    let hour = match parse_field(fields[1].as_str(), 0, 23) {
        Some(f) => f,
        None => {
            return None;
        },
    };
    let day_of_month = match parse_field(fields[2].as_str(), 1, 31) {
        Some(f) => f,
        None => {
            return None;
        },
    };
    let month = match parse_field(fields[3].as_str(), 1, 12) {
        Some(f) => f,
        None => {
            return None;
        },
    };
    let day_of_week = match parse_field(fields[4].as_str(), 0, 6) {
        Some(f) => f,
        None => {
            return None;
        },
    };
    Some(CronSchedule { minute, hour, day_of_month, month, day_of_week })
}

/// Whether a schedule fires at the minute an epoch timestamp falls in.
pub open spec fn fires_at(s: CronSchedule, t: int) -> bool {
    schedule_matches(s, civil_spec(t))
}

proof fn lemma_boundaries_apart(t: int, u: int)
    requires
        t % 60 == 0,
        u % 60 == 0,
        t < u,
    ensures
        u - t >= 60,
{
    vstd::arithmetic::div_mod::lemma_fundamental_div_mod(t, 60);
    vstd::arithmetic::div_mod::lemma_fundamental_div_mod(u, 60);
    assert(u - t >= 60) by (nonlinear_arith)
        requires
            t == 60 * (t / 60),
            u == 60 * (u / 60),
            t < u,
    ;
}

/// The next fire time of a schedule strictly after `now`: the earliest
/// minute boundary at which the schedule fires, sought over the next
/// `horizon_minutes` minutes; nothing when no boundary in that window
/// fires.
pub fn next_fire(schedule: &CronSchedule, now: u64, horizon_minutes: u64) -> (r: Option<u64>)
    requires
        now + 60 * horizon_minutes + 60 <= u64::MAX,
    ensures
        r matches Some(t) ==> t > now && t % 60 == 0 && fires_at(*schedule, t as int) && (forall|
            u: int,
        |
            now < u < t && #[trigger] (u % 60) == 0 ==> !fires_at(*schedule, u)),
        r is None ==> forall|u: int|
            now < u <= now + 60 * horizon_minutes && #[trigger] (u % 60) == 0 ==> !fires_at(
                *schedule,
                u,
            ),
{
    proof {
        vstd::arithmetic::div_mod::lemma_fundamental_div_mod(now as int, 60);
        vstd::arithmetic::div_mod::lemma_mod_bound(now as int, 60);
    }
    let base: u64 = (now / 60) * 60;
    let mut t: u64 = base + 60;
    proof {
        vstd::arithmetic::div_mod::lemma_mod_multiples_basic((now as int / 60) + 1, 60);
        assert(t as int == 60 * ((now as int / 60) + 1));
        assert(t % 60 == 0);
        assert(now < t);
    }
    let mut k: u64 = 0;
    while k < horizon_minutes
        invariant
            now + 60 * horizon_minutes + 60 <= u64::MAX,
            k <= horizon_minutes,
            t % 60 == 0,
            now < t,
            t == now - now % 60 + 60 + 60 * k,
            forall|u: int| now < u < t && #[trigger] (u % 60) == 0 ==> !fires_at(*schedule, u),
        decreases horizon_minutes - k,
    {
        let c = civil_from_epoch(t);
        if schedule_fires(schedule, &c) {
            return Some(t);
        }
        proof {
            assert(!fires_at(*schedule, t as int));
            assert forall|u: int| now < u < t + 60 && #[trigger] (u % 60) == 0 implies !fires_at(
                *schedule,
                u,
            ) by {
                if u > t {
                    lemma_boundaries_apart(t as int, u);
                }
            }
        }
        t = t + 60;
        k = k + 1;
    }
    proof {
        assert(now + 60 * horizon_minutes < t);
    }
    None
}

/// The seconds from `now` to the next minute boundary after it: at least
/// one, at most sixty, and nothing between the two is a boundary.
pub fn seconds_until_next_minute(now: u64) -> (r: u64)
    ensures
        1 <= r <= 60,
        (now + r) % 60 == 0,
{
    60 - now % 60
}

} // verus!
