//! The proleptic Gregorian calendar in UTC, and the compact stamps
//! (`%Y%m%d%H%M%S%.3f`) of its instants: a later instant has a stamp that
//! comes later in the order of characters.

use vstd::prelude::*;
use crate::text::{digit_char, lemma_digit_char_value, lex_lt};

verus! {

/// Whether `y` is a leap year of the Gregorian calendar.
pub open spec fn is_leap_year(y: int) -> bool {
    y % 4 == 0 && (y % 100 != 0 || y % 400 == 0)
}

/// The number of days of the year `y`.
pub open spec fn year_days(y: int) -> int {
    if is_leap_year(y) {
        366
    } else {
        365
    }
}

/// The number of days of the month `m` (1 to 12) of the year `y`.
pub open spec fn month_days(y: int, m: int) -> int {
    if m == 2 {
        if is_leap_year(y) {
            29
        } else {
            28
        }
    } else if m == 4 || m == 6 || m == 9 || m == 11 {
        30
    } else {
        31
    }
}

/// The number of days of the years 0 to `y - 1`.
pub open spec fn days_before_year(y: int) -> int
    decreases y,
{
    if y <= 0 {
        0
    } else {
        days_before_year(y - 1) + year_days(y - 1)
    }
}

/// The number of days of the months 1 to `m - 1` of the year `y`.
pub open spec fn days_before_month(y: int, m: int) -> int
    decreases m,
{
    if m <= 1 {
        0
    } else {
        days_before_month(y, m - 1) + month_days(y, m - 1)
    }
}

/// The number of the day `y`-`m`-`d`, where 0000-01-01 is day 0.
pub open spec fn day_number(y: int, m: int, d: int) -> int {
    days_before_year(y) + days_before_month(y, m) + d - 1
}

/// Whether the fields name a date and time of day in the years 0 to 9999,
/// to the millisecond, outside a leap second.
pub open spec fn valid_civil(y: int, m: int, d: int, h: int, mi: int, s: int, ms: int) -> bool {
    &&& 0 <= y <= 9999
    &&& 1 <= m <= 12
    &&& 1 <= d <= month_days(y, m)
    &&& 0 <= h < 24
    &&& 0 <= mi < 60
    &&& 0 <= s < 60
    &&& 0 <= ms < 1000
}

/// The milliseconds from the Unix epoch, 1970-01-01T00:00:00Z, to the
/// instant that the fields name.
pub open spec fn civil_millis(y: int, m: int, d: int, h: int, mi: int, s: int, ms: int) -> int {
    ((day_number(y, m, d) - days_before_year(1970)) * 86400 + h * 3600 + mi * 60 + s) * 1000 + ms
}

/// The milliseconds from the Unix epoch of a clock reading of `secs`
/// seconds and `nanos` nanoseconds.
pub open spec fn reading_millis(secs: int, nanos: int) -> int {
    secs * 1000 + nanos / 1_000_000
}

/// `n` (0 to 99) as two decimal digits.
pub open spec fn digits2(n: int) -> Seq<char> {
    seq![digit_char((n / 10) as nat), digit_char((n % 10) as nat)]
}

/// `n` (0 to 999) as three decimal digits.
pub open spec fn digits3(n: int) -> Seq<char> {
    seq![digit_char((n / 100) as nat)] + digits2(n % 100)
}

/// `n` (0 to 9999) as four decimal digits.
pub open spec fn digits4(n: int) -> Seq<char> {
    digits2(n / 100) + digits2(n % 100)
}

/// The compact stamp of the fields: year, month, day, hour, minute and
/// second as zero-padded digits, a `'.'`, then three digits of milliseconds.
pub open spec fn civil_stamp(y: int, m: int, d: int, h: int, mi: int, s: int, ms: int) -> Seq<char> {
    digits4(y) + digits2(m) + digits2(d) + digits2(h) + digits2(mi) + digits2(s) + seq!['.']
        + digits3(ms)
}

/// Whether `stamp` is the compact stamp of the instant of the clock reading
/// `secs`, `nanos` in UTC.
pub open spec fn is_stamp_of(stamp: Seq<char>, secs: int, nanos: int) -> bool {
    exists|y: int, m: int, d: int, h: int, mi: int, s: int, ms: int|
        valid_civil(y, m, d, h, mi, s, ms) && civil_millis(y, m, d, h, mi, s, ms) == reading_millis(
            secs,
            nanos,
        ) && #[trigger] civil_stamp(y, m, d, h, mi, s, ms) == stamp
}

/// The first clock reading, in seconds, that falls in the year 0:
/// 0000-01-01T00:00:00Z.
pub const FIRST_STAMP_SECS: i64 = -62167219200i64;

/// The last clock reading, in seconds, that falls in the year 9999:
/// 9999-12-31T23:59:59Z.
pub const LAST_STAMP_SECS: i64 = 253402300799i64;

/// Whether the reading `secs`, `nanos` falls in the years 0 to 9999, outside
/// a leap second: where its compact stamp has four digits of year.
pub open spec fn in_stamp_range(secs: int, nanos: int) -> bool {
    FIRST_STAMP_SECS <= secs <= LAST_STAMP_SECS && 0 <= nanos < 1_000_000_000
}

/// Two texts of one length in order stay in order when anything follows.
proof fn lemma_lex_extend(x1: Seq<char>, x2: Seq<char>, r1: Seq<char>, r2: Seq<char>)
    requires
        lex_lt(x1, x2),
        x1.len() == x2.len(),
    ensures
        lex_lt(x1 + r1, x2 + r2),
    decreases x1.len(),
{
    if x1[0] == x2[0] {
        assert((x1 + r1).drop_first() =~= x1.drop_first() + r1);
        assert((x2 + r2).drop_first() =~= x2.drop_first() + r2);
        lemma_lex_extend(x1.drop_first(), x2.drop_first(), r1, r2);
    }
}

/// Two texts of one length in order stay in order with a common text before
/// them and anything after them.
pub proof fn lemma_lex_between(p: Seq<char>, x1: Seq<char>, x2: Seq<char>, r1: Seq<char>, r2: Seq<char>)
    requires
        lex_lt(x1, x2),
        x1.len() == x2.len(),
    ensures
        lex_lt(p + x1 + r1, p + x2 + r2),
    decreases p.len(),
{
    if p.len() == 0 {
        assert(p + x1 + r1 =~= x1 + r1);
        assert(p + x2 + r2 =~= x2 + r2);
        lemma_lex_extend(x1, x2, r1, r2);
    } else {
        assert((p + x1 + r1).drop_first() =~= p.drop_first() + x1 + r1);
        assert((p + x2 + r2).drop_first() =~= p.drop_first() + x2 + r2);
        lemma_lex_between(p.drop_first(), x1, x2, r1, r2);
    }
}

proof fn lemma_digits2_lt(a: int, b: int)
    requires
        0 <= a < b < 100,
    ensures
        lex_lt(digits2(a), digits2(b)),
{
    reveal_with_fuel(lex_lt, 3);
    lemma_digit_char_value((a / 10) as nat);
    lemma_digit_char_value((b / 10) as nat);
    lemma_digit_char_value((a % 10) as nat);
    lemma_digit_char_value((b % 10) as nat);
    assert(a / 10 <= b / 10);
    if a / 10 == b / 10 {
        assert(a % 10 < b % 10);
        assert(digits2(a).drop_first() =~= seq![digit_char((a % 10) as nat)]);
        assert(digits2(b).drop_first() =~= seq![digit_char((b % 10) as nat)]);
    }
}

proof fn lemma_digits3_lt(a: int, b: int)
    requires
        0 <= a < b < 1000,
    ensures
        lex_lt(digits3(a), digits3(b)),
{
    lemma_digit_char_value((a / 100) as nat);
    lemma_digit_char_value((b / 100) as nat);
    assert(a / 100 <= b / 100);
    if a / 100 == b / 100 {
        assert(a % 100 < b % 100);
        lemma_digits2_lt(a % 100, b % 100);
        lemma_lex_between(seq![digit_char((a / 100) as nat)], digits2(a % 100), digits2(b % 100), seq![], seq![]);
        assert(digits3(a) =~= seq![digit_char((a / 100) as nat)] + digits2(a % 100) + Seq::<char>::empty());
        assert(digits3(b) =~= seq![digit_char((a / 100) as nat)] + digits2(b % 100) + Seq::<char>::empty());
    } else {
        let x1 = seq![digit_char((a / 100) as nat)];
        let x2 = seq![digit_char((b / 100) as nat)];
        assert(lex_lt(x1, x2));
        lemma_lex_extend(x1, x2, digits2(a % 100), digits2(b % 100));
    }
}

proof fn lemma_digits4_lt(a: int, b: int)
    requires
        0 <= a < b < 10000,
    ensures
        lex_lt(digits4(a), digits4(b)),
{
    assert(a / 100 <= b / 100);
    if a / 100 == b / 100 {
        assert(a % 100 < b % 100);
        lemma_digits2_lt(a % 100, b % 100);
        lemma_lex_between(digits2(a / 100), digits2(a % 100), digits2(b % 100), seq![], seq![]);
        assert(digits4(a) =~= digits2(a / 100) + digits2(a % 100) + Seq::<char>::empty());
        assert(digits4(b) =~= digits2(a / 100) + digits2(b % 100) + Seq::<char>::empty());
    } else {
        lemma_digits2_lt(a / 100, b / 100);
        lemma_lex_extend(digits2(a / 100), digits2(b / 100), digits2(a % 100), digits2(b % 100));
    }
}

proof fn lemma_days_before_year_grows(y1: int, y2: int)
    requires
        0 <= y1 < y2,
    ensures
        days_before_year(y1) + year_days(y1) <= days_before_year(y2),
    decreases y2,
{
    if y2 > y1 + 1 {
        lemma_days_before_year_grows(y1, y2 - 1);
    }
}

proof fn lemma_days_before_month_grows(y: int, m1: int, m2: int)
    requires
        1 <= m1 < m2,
    ensures
        days_before_month(y, m1) + month_days(y, m1) <= days_before_month(y, m2),
    decreases m2,
{
    if m2 > m1 + 1 {
        lemma_days_before_month_grows(y, m1, m2 - 1);
    }
}

/// The twelve months make up the year.
proof fn lemma_months_make_the_year(y: int)
    ensures
        days_before_month(y, 13) == year_days(y),
{
    reveal_with_fuel(days_before_month, 13);
}

/// A day of the year `y` comes before the days of every later year.
proof fn lemma_day_in_year(y: int, m: int, d: int)
    requires
        0 <= y,
        1 <= m <= 12,
        1 <= d <= month_days(y, m),
    ensures
        days_before_year(y) <= day_number(y, m, d) < days_before_year(y) + year_days(y),
{
    lemma_days_before_month_grows(y, m, 13);
    lemma_months_make_the_year(y);
    if m > 1 {
        lemma_days_before_month_grows(y, 1, m);
    }
}

/// Whether the date `y1`-`m1`-`d1` comes before `y2`-`m2`-`d2`.
pub open spec fn date_before(y1: int, m1: int, d1: int, y2: int, m2: int, d2: int) -> bool {
    y1 < y2 || (y1 == y2 && (m1 < m2 || (m1 == m2 && d1 < d2)))
}

/// An earlier date has a smaller day number.
proof fn lemma_day_number_grows(y1: int, m1: int, d1: int, y2: int, m2: int, d2: int)
    requires
        0 <= y1 && 1 <= m1 <= 12 && 1 <= d1 <= month_days(y1, m1),
        0 <= y2 && 1 <= m2 <= 12 && 1 <= d2 <= month_days(y2, m2),
        date_before(y1, m1, d1, y2, m2, d2),
    ensures
        day_number(y1, m1, d1) < day_number(y2, m2, d2),
{
    lemma_day_in_year(y1, m1, d1);
    lemma_day_in_year(y2, m2, d2);
    if y1 < y2 {
        lemma_days_before_year_grows(y1, y2);
    } else if m1 < m2 {
        lemma_days_before_month_grows(y1, m1, m2);
    }
}

/// Of two instants named by valid fields, the earlier has the stamp that
/// comes first.
proof fn lemma_civil_stamps_in_order(
    y1: int,
    m1: int,
    d1: int,
    h1: int,
    mi1: int,
    s1: int,
    ms1: int,
    y2: int,
    m2: int,
    d2: int,
    h2: int,
    mi2: int,
    s2: int,
    ms2: int,
)
    requires
        valid_civil(y1, m1, d1, h1, mi1, s1, ms1),
        valid_civil(y2, m2, d2, h2, mi2, s2, ms2),
        civil_millis(y1, m1, d1, h1, mi1, s1, ms1) < civil_millis(y2, m2, d2, h2, mi2, s2, ms2),
    ensures
        lex_lt(civil_stamp(y1, m1, d1, h1, mi1, s1, ms1), civil_stamp(y2, m2, d2, h2, mi2, s2, ms2)),
        civil_stamp(y1, m1, d1, h1, mi1, s1, ms1).len() == 18,
        civil_stamp(y2, m2, d2, h2, mi2, s2, ms2).len() == 18,
{
    let e = days_before_year(1970);
    let day1 = day_number(y1, m1, d1);
    let day2 = day_number(y2, m2, d2);
    let t1 = h1 * 3600000 + mi1 * 60000 + s1 * 1000 + ms1;
    let t2 = h2 * 3600000 + mi2 * 60000 + s2 * 1000 + ms2;
    assert(civil_millis(y1, m1, d1, h1, mi1, s1, ms1) == (day1 - e) * 86400000 + t1);
    assert(civil_millis(y2, m2, d2, h2, mi2, s2, ms2) == (day2 - e) * 86400000 + t2);
    if date_before(y2, m2, d2, y1, m1, d1) {
        lemma_day_number_grows(y2, m2, d2, y1, m1, d1);
        assert(false);
    }
    let st1 = civil_stamp(y1, m1, d1, h1, mi1, s1, ms1);
    let st2 = civil_stamp(y2, m2, d2, h2, mi2, s2, ms2);
    let dot1 = seq!['.'] + digits3(ms1);
    let dot2 = seq!['.'] + digits3(ms2);
    if y1 != y2 {
        lemma_digits4_lt(y1, y2);
        let r1 = digits2(m1) + digits2(d1) + digits2(h1) + digits2(mi1) + digits2(s1) + dot1;
        let r2 = digits2(m2) + digits2(d2) + digits2(h2) + digits2(mi2) + digits2(s2) + dot2;
        lemma_lex_between(seq![], digits4(y1), digits4(y2), r1, r2);
        assert(st1 =~= Seq::<char>::empty() + digits4(y1) + r1);
        assert(st2 =~= Seq::<char>::empty() + digits4(y2) + r2);
    } else if m1 != m2 {
        lemma_digits2_lt(m1, m2);
        let p = digits4(y1);
        let r1 = digits2(d1) + digits2(h1) + digits2(mi1) + digits2(s1) + dot1;
        let r2 = digits2(d2) + digits2(h2) + digits2(mi2) + digits2(s2) + dot2;
        lemma_lex_between(p, digits2(m1), digits2(m2), r1, r2);
        assert(st1 =~= p + digits2(m1) + r1);
        assert(st2 =~= p + digits2(m2) + r2);
    } else if d1 != d2 {
        lemma_digits2_lt(d1, d2);
        let p = digits4(y1) + digits2(m1);
        let r1 = digits2(h1) + digits2(mi1) + digits2(s1) + dot1;
        let r2 = digits2(h2) + digits2(mi2) + digits2(s2) + dot2;
        lemma_lex_between(p, digits2(d1), digits2(d2), r1, r2);
        assert(st1 =~= p + digits2(d1) + r1);
        assert(st2 =~= p + digits2(d2) + r2);
    } else if h1 != h2 {
        lemma_digits2_lt(h1, h2);
        let p = digits4(y1) + digits2(m1) + digits2(d1);
        let r1 = digits2(mi1) + digits2(s1) + dot1;
        let r2 = digits2(mi2) + digits2(s2) + dot2;
        lemma_lex_between(p, digits2(h1), digits2(h2), r1, r2);
        assert(st1 =~= p + digits2(h1) + r1);
        assert(st2 =~= p + digits2(h2) + r2);
    } else if mi1 != mi2 {
        lemma_digits2_lt(mi1, mi2);
        let p = digits4(y1) + digits2(m1) + digits2(d1) + digits2(h1);
        let r1 = digits2(s1) + dot1;
        let r2 = digits2(s2) + dot2;
        lemma_lex_between(p, digits2(mi1), digits2(mi2), r1, r2);
        assert(st1 =~= p + digits2(mi1) + r1);
        assert(st2 =~= p + digits2(mi2) + r2);
    } else if s1 != s2 {
        lemma_digits2_lt(s1, s2);
        let p = digits4(y1) + digits2(m1) + digits2(d1) + digits2(h1) + digits2(mi1);
        lemma_lex_between(p, digits2(s1), digits2(s2), dot1, dot2);
        assert(st1 =~= p + digits2(s1) + dot1);
        assert(st2 =~= p + digits2(s2) + dot2);
    } else {
        lemma_digits3_lt(ms1, ms2);
        let p = digits4(y1) + digits2(m1) + digits2(d1) + digits2(h1) + digits2(mi1) + digits2(s1)
            + seq!['.'];
        lemma_lex_between(p, digits3(ms1), digits3(ms2), seq![], seq![]);
        assert(st1 =~= p + digits3(ms1) + Seq::<char>::empty());
        assert(st2 =~= p + digits3(ms2) + Seq::<char>::empty());
    }
}

/// Compact stamps sort by time: the stamp of an earlier clock reading, at
/// least a millisecond earlier, comes before the stamp of a later one in the
/// order of characters. Both stamps are 18 characters long.
pub proof fn lemma_stamps_sort_by_time(
    stamp1: Seq<char>,
    secs1: int,
    nanos1: int,
    stamp2: Seq<char>,
    secs2: int,
    nanos2: int,
)
    requires
        is_stamp_of(stamp1, secs1, nanos1),
        is_stamp_of(stamp2, secs2, nanos2),
        reading_millis(secs1, nanos1) < reading_millis(secs2, nanos2),
    ensures
        lex_lt(stamp1, stamp2),
        stamp1.len() == 18,
        stamp2.len() == 18,
{
    let (y1, m1, d1, h1, mi1, s1, ms1) = choose|y: int, m: int, d: int, h: int, mi: int, s: int, ms: int|
        valid_civil(y, m, d, h, mi, s, ms) && civil_millis(y, m, d, h, mi, s, ms) == reading_millis(
            secs1,
            nanos1,
        ) && #[trigger] civil_stamp(y, m, d, h, mi, s, ms) == stamp1;
    let (y2, m2, d2, h2, mi2, s2, ms2) = choose|y: int, m: int, d: int, h: int, mi: int, s: int, ms: int|
        valid_civil(y, m, d, h, mi, s, ms) && civil_millis(y, m, d, h, mi, s, ms) == reading_millis(
            secs2,
            nanos2,
        ) && #[trigger] civil_stamp(y, m, d, h, mi, s, ms) == stamp2;
    lemma_civil_stamps_in_order(y1, m1, d1, h1, mi1, s1, ms1, y2, m2, d2, h2, mi2, s2, ms2);
}

} // verus!
