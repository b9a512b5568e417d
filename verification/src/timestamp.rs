//! A moment to the second, as Kubernetes writes one: `2026-08-30T10:00:00Z`.

use vstd::prelude::*;
use vstd::string::*;

use crate::text;
use crate::text::{decimal, digit, is_digit};

verus! {

/// How many days stand between the first of January of the year nought and
/// that of 1970.
pub const EPOCH: i64 = 719528;

pub const DAY: i64 = 86400;

/// The last second there is a text for: the end of the year 9999.
pub const LAST: i64 = 253402300799;

/// The first second there is a text for: the start of the year nought.
pub const FIRST: i64 = -62167219200;

pub open spec fn is_leap(year: int) -> bool {
    year % 4 == 0 && (year % 100 != 0 || year % 400 == 0)
}

/// How many days stand before the year starts, counted from the year nought.
pub open spec fn days_before_year(year: int) -> int {
    365 * year + (year + 3) / 4 - (year + 99) / 100 + (year + 399) / 400
}

pub open spec fn month_days(year: int, month: int) -> int {
    if month == 2 {
        if is_leap(year) { 29 } else { 28 }
    } else if month == 4 || month == 6 || month == 9 || month == 11 {
        30
    } else {
        31
    }
}

/// How many days of the year stand before the month starts.
pub open spec fn days_before_month(year: int, month: int) -> int
    decreases month,
{
    if month <= 1 {
        0
    } else {
        days_before_month(year, month - 1) + month_days(year, month - 1)
    }
}

/// A calendar day and a time of that day.
pub struct Civil {
    pub year: int,
    pub month: int,
    pub day: int,
    pub hour: int,
    pub minute: int,
    pub second: int,
}

impl Civil {
    pub open spec fn valid(self) -> bool {
        &&& 0 <= self.year <= 9999
        &&& 1 <= self.month <= 12
        &&& 1 <= self.day <= month_days(self.year, self.month)
        &&& 0 <= self.hour < 24
        &&& 0 <= self.minute < 60
        &&& 0 <= self.second < 60
    }

    /// How many seconds after the start of 1970 this is.
    pub open spec fn seconds(self) -> int {
        (days_before_year(self.year) + days_before_month(self.year, self.month) + self.day - 1
            - EPOCH) * 86400 + self.hour * 3600 + self.minute * 60 + self.second
    }

    /// `2026-08-30`.
    pub open spec fn date(self) -> Seq<char> {
        two(self.year / 100) + two(self.year % 100) + seq!['-'] + two(self.month) + seq!['-'] + two(
            self.day,
        )
    }

    /// `2026-08-30T10:00:00Z`.
    pub open spec fn text(self) -> Seq<char> {
        self.date() + seq!['T'] + two(self.hour) + seq![':'] + two(self.minute) + seq![':'] + two(
            self.second,
        ) + seq!['Z']
    }
}

/// Two digits.
pub open spec fn two(n: int) -> Seq<char> {
    seq![digit(n / 10), digit(n % 10)]
}

/// What the two digits at `at` stand for.
pub open spec fn two_at(s: Seq<char>, at: int) -> int {
    (s[at] as int - 0x30) * 10 + (s[at + 1] as int - 0x30)
}

/// Whether two digits stand at `at`.
pub open spec fn digits_at(s: Seq<char>, at: int) -> bool {
    is_digit(s[at]) && is_digit(s[at + 1])
}

/// What `s` says, where it has the shape of a timestamp.
pub open spec fn read_at(s: Seq<char>) -> Civil {
    Civil {
        year: two_at(s, 0) * 100 + two_at(s, 2),
        month: two_at(s, 5),
        day: two_at(s, 8),
        hour: two_at(s, 11),
        minute: two_at(s, 14),
        second: two_at(s, 17),
    }
}

/// Whether `s` has the shape of a timestamp: `dddd-dd-ddTdd:dd:ddZ`.
pub open spec fn has_shape(s: Seq<char>) -> bool {
    &&& s.len() == 20
    &&& digits_at(s, 0) && digits_at(s, 2) && digits_at(s, 5) && digits_at(s, 8)
    &&& digits_at(s, 11) && digits_at(s, 14) && digits_at(s, 17)
    &&& s[4] == '-' && s[7] == '-' && s[10] == 'T' && s[13] == ':' && s[16] == ':' && s[19] == 'Z'
}

/// The moment a text names, in seconds after the start of 1970: none where
/// it is no timestamp, or names a day that no calendar has.
pub open spec fn moment(s: Seq<char>) -> Option<int> {
    if has_shape(s) && read_at(s).valid() {
        Some(read_at(s).seconds())
    } else {
        None
    }
}

/// The calendar day and time of a moment.
pub open spec fn civil_of(seconds: int) -> Civil {
    choose|civil: Civil| #[trigger] civil.valid() && civil.seconds() == seconds
}

proof fn lemma_year(year: int)
    requires
        0 <= year,
    ensures
        days_before_year(year + 1) == days_before_year(year) + (if is_leap(year) { 366int } else { 365 }),
{
}

proof fn lemma_years(a: int, b: int)
    requires
        0 <= a <= b,
    ensures
        days_before_year(a) + 365 * (b - a) <= days_before_year(b),
    decreases b - a,
{
    if a < b {
        lemma_year(b - 1);
        lemma_years(a, b - 1);
    }
}

proof fn lemma_months(year: int, a: int, b: int)
    requires
        1 <= a <= b <= 13,
    ensures
        days_before_month(year, a) + 28 * (b - a) <= days_before_month(year, b),
    decreases b - a,
{
    if a < b {
        lemma_months(year, a, b - 1);
    }
}

proof fn lemma_months_of_year(year: int)
    ensures
        days_before_month(year, 13) == (if is_leap(year) { 366int } else { 365 }),
{
    reveal_with_fuel(days_before_month, 14);
}

/// No two calendar days and times are the same moment.
proof fn lemma_moment_is_one(a: Civil, b: Civil)
    requires
        a.valid(),
        b.valid(),
        a.seconds() == b.seconds(),
    ensures
        a == b,
{
    let days_a = days_before_year(a.year) + days_before_month(a.year, a.month) + a.day - 1;
    let days_b = days_before_year(b.year) + days_before_month(b.year, b.month) + b.day - 1;
    assert(days_a == days_b && a.hour == b.hour && a.minute == b.minute && a.second == b.second);
    lemma_in_year(a);
    lemma_in_year(b);
    if a.year < b.year {
        lemma_year(a.year);
        lemma_years(a.year + 1, b.year);
    } else if b.year < a.year {
        lemma_year(b.year);
        lemma_years(b.year + 1, a.year);
    }
    if a.month < b.month {
        lemma_months(a.year, a.month + 1, b.month);
    } else if b.month < a.month {
        lemma_months(a.year, b.month + 1, a.month);
    }
}

proof fn lemma_in_year(a: Civil)
    requires
        a.valid(),
    ensures
        0 <= days_before_month(a.year, a.month) + a.day - 1 < (if is_leap(a.year) { 366int } else {
            365
        }),
{
    lemma_months(a.year, 1, a.month);
    lemma_months(a.year, a.month + 1, 13);
    lemma_months_of_year(a.year);
}

/// What is read out of a printed timestamp is what was printed.
proof fn lemma_printed(a: Civil)
    requires
        a.valid(),
    ensures
        moment(a.text()) == Some(a.seconds()),
        a.text().len() == 20,
        a.text().take(10) == a.date(),
{
    assert(a.text().take(10) =~= a.date());
    assert(read_at(a.text()) == a);
}

/// A text that names a moment is the text that is printed of it.
proof fn lemma_reads_back(s: Seq<char>)
    requires
        moment(s) is Some,
    ensures
        read_at(s).text() == s,
{
    lemma_two(s, 0);
    lemma_two(s, 2);
    lemma_two(s, 5);
    lemma_two(s, 8);
    lemma_two(s, 11);
    lemma_two(s, 14);
    lemma_two(s, 17);
    let year = two_at(s, 0) * 100 + two_at(s, 2);
    assert(year / 100 == two_at(s, 0) && year % 100 == two_at(s, 2));
    let parts = seq![s[0], s[1]] + seq![s[2], s[3]] + seq!['-'] + seq![s[5], s[6]] + seq!['-']
        + seq![s[8], s[9]] + seq!['T'] + seq![s[11], s[12]] + seq![':'] + seq![s[14], s[15]]
        + seq![':'] + seq![s[17], s[18]] + seq!['Z'];
    assert(read_at(s).text() == parts);
    assert(parts =~= s);
}

proof fn lemma_two(s: Seq<char>, at: int)
    requires
        0 <= at < s.len() - 1,
        digits_at(s, at),
    ensures
        two(two_at(s, at)) == seq![s[at], s[at + 1]],
        0 <= two_at(s, at) < 100,
{
    let n = two_at(s, at);
    assert(n / 10 == s[at] as int - 0x30);
    assert(n % 10 == s[at + 1] as int - 0x30);
}

/// A moment, to the second.
#[derive(Clone, Copy, Debug, PartialEq, Eq)]
pub struct Timestamp {
    seconds: i64,
}

impl View for Timestamp {
    type V = int;

    closed spec fn view(&self) -> int {
        self.seconds as int
    }
}

impl Timestamp {
    #[verifier::type_invariant]
    spec fn in_range(self) -> bool {
        FIRST <= self.seconds <= LAST
    }
}

/// The two digits at `at`, read.
fn read_two(chars: &Vec<char>, at: usize) -> (number: Option<i64>)
    requires
        at + 1 < chars.len(),
    ensures
        number is Some <==> digits_at(chars@, at as int),
        number matches Some(number) ==> number == two_at(chars@, at as int) && 0 <= number < 100,
{
    match (read_digit(chars[at]), read_digit(chars[at + 1])) {
        (Some(tens), Some(ones)) => Some(tens * 10 + ones),
        _ => None,
    }
}

fn read_digit(c: char) -> (number: Option<i64>)
    ensures
        number is Some <==> is_digit(c),
        number matches Some(number) ==> number == c as int - 0x30 && 0 <= number < 10,
{
    let n = c as u32;
    if 0x30 <= n && n <= 0x39 {
        Some(n as i64 - 0x30)
    } else {
        None
    }
}

fn leap(year: i64) -> (answer: bool)
    requires
        0 <= year <= 9999,
    ensures
        answer == is_leap(year as int),
{
    year % 4 == 0 && (year % 100 != 0 || year % 400 == 0)
}

fn before_year(year: i64) -> (days: i64)
    requires
        0 <= year <= 10000,
    ensures
        days == days_before_year(year as int),
{
    365 * year + (year + 3) / 4 - (year + 99) / 100 + (year + 399) / 400
}

fn days_of(year: i64, month: i64) -> (days: i64)
    requires
        0 <= year <= 9999,
    ensures
        days == month_days(year as int, month as int),
{
    if month == 2 {
        if leap(year) {
            29
        } else {
            28
        }
    } else if month == 4 || month == 6 || month == 9 || month == 11 {
        30
    } else {
        31
    }
}

fn before_month(year: i64, month: i64) -> (days: i64)
    requires
        0 <= year <= 9999,
        1 <= month <= 13,
    ensures
        days == days_before_month(year as int, month as int),
{
    let mut days: i64 = 0;
    let mut at: i64 = 1;
    while at < month
        invariant
            1 <= at <= month <= 13,
            0 <= year <= 9999,
            days == days_before_month(year as int, at as int),
            0 <= days <= 31 * (at - 1),
        decreases month - at,
    {
        days += days_of(year, at);
        at += 1;
    }
    days
}

fn push_two(to: &mut String, n: i64)
    requires
        0 <= n < 100,
    ensures
        final(to)@ == old(to)@ + two(n as int),
{
    to.push((0x30 + (n / 10) as u8) as char);
    to.push((0x30 + (n % 10) as u8) as char);
    assert(to@ =~= old(to)@ + two(n as int));
}

/// The moment that a clock tells.
pub open spec fn told_at(seconds: Option<u64>) -> int {
    match seconds {
        Some(seconds) => if seconds < LAST {
            seconds as int
        } else {
            LAST as int
        },
        None => 0,
    }
}

impl Timestamp {
    /// The moment a text names: `2026-08-30T10:00:00Z`, to the second and in
    /// UTC, the way Kubernetes writes one.
    pub fn parse(source: &str) -> (stamp: Option<Self>)
        ensures
            stamp is Some <==> moment(source@) is Some,
            stamp matches Some(stamp) ==> moment(source@) == Some(stamp@),
    {
        let chars = text::chars_of(source);
        if chars.len() != 20 || chars[4] != '-' || chars[7] != '-' || chars[10] != 'T' || chars[13]
            != ':' || chars[16] != ':' || chars[19] != 'Z' {
            return None;
        }
        let century = read_two(&chars, 0)?;
        let year = century * 100 + read_two(&chars, 2)?;
        let month = read_two(&chars, 5)?;
        let day = read_two(&chars, 8)?;
        let hour = read_two(&chars, 11)?;
        let minute = read_two(&chars, 14)?;
        let second = read_two(&chars, 17)?;
        if month < 1 || month > 12 || day < 1 || day > days_of(year, month) || hour > 23 || minute
            > 59 || second > 59 {
            return None;
        }
        let ghost civil = read_at(source@);
        proof {
            lemma_in_year(civil);
            lemma_years(0, year as int);
            lemma_years(year as int, 9999);
        }
        let days = before_year(year) + before_month(year, month) + day - 1;
        Some(Timestamp { seconds: (days - EPOCH) * DAY + hour * 3600 + minute * 60 + second })
    }

    /// The year, month and day, and the time of that day.
    fn civil(self) -> (civil: (i64, i64, i64, i64, i64, i64))
        ensures
            ({
                let held = civil_of(self@);
                &&& held.valid()
                &&& held.seconds() == self@
                &&& held == Civil {
                    year: civil.0 as int,
                    month: civil.1 as int,
                    day: civil.2 as int,
                    hour: civil.3 as int,
                    minute: civil.4 as int,
                    second: civil.5 as int,
                }
            }),
    {
        proof {
            use_type_invariant(&self);
        }
        let since = self.seconds - FIRST;
        let days = since / DAY;
        let left = since % DAY;
        let mut year = days / 366;
        assert(days_before_year(year as int) <= days) by {
            lemma_years_at_most(year as int);
        }
        while before_year(year + 1) <= days
            invariant
                0 <= year <= 9999,
                days < 3652425,
                days_before_year(year as int) <= days,
            decreases 9999 - year,
        {
            assert(days_before_year(10000) == 3652425);
            if year >= 9999 {
                assert(false);
            }
            year += 1;
        }
        let into = days - before_year(year);
        let mut month: i64 = 1;
        proof {
            lemma_year(year as int);
            lemma_months_of_year(year as int);
        }
        while before_month(year, month + 1) <= into
            invariant
                0 <= year <= 9999,
                1 <= month <= 12,
                0 <= into < days_before_month(year as int, 13),
                days_before_month(year as int, month as int) <= into,
            decreases 12 - month,
        {
            month += 1;
        }
        let day = into - before_month(year, month) + 1;
        let (hour, minute, second) = (left / 3600, left % 3600 / 60, left % 60);
        proof {
            let found = Civil {
                year: year as int,
                month: month as int,
                day: day as int,
                hour: hour as int,
                minute: minute as int,
                second: second as int,
            };
            assert(days_before_month(year as int, month + 1) == days_before_month(
                year as int,
                month as int,
            ) + month_days(year as int, month as int));
            lemma_clock(left as int);
            assert(found.valid());
            assert(found.seconds() == (days - EPOCH) * 86400 + left);
            lemma_moment_is_one(found, civil_of(self@));
        }
        (year, month, day, hour, minute, second)
    }

    /// `2026-08-30T10:00:00Z`: the one text that [`Timestamp::parse`] reads
    /// as this moment.
    pub fn to_rfc3339(self) -> (printed: String)
        ensures
            printed@ == civil_of(self@).text(),
            moment(printed@) == Some(self@),
    {
        let (year, month, day, hour, minute, second) = self.civil();
        proof {
            lemma_printed(civil_of(self@));
        }
        let mut printed = print_date(year, month, day);
        printed.push('T');
        push_two(&mut printed, hour);
        printed.push(':');
        push_two(&mut printed, minute);
        printed.push(':');
        push_two(&mut printed, second);
        printed.push('Z');
        assert(printed@ =~= civil_of(self@).text());
        printed
    }

    /// `2026-08-30`.
    pub fn calendar_date(self) -> (printed: String)
        ensures
            printed@ == civil_of(self@).date(),
    {
        let (year, month, day, _, _, _) = self.civil();
        print_date(year, month, day)
    }

    /// The moment a clock tells: so many seconds since the start of 1970, and
    /// no later than the last moment there is. A clock that is before 1970
    /// tells none, which reads as its start.
    pub fn told(seconds: Option<u64>) -> (stamp: Self)
        ensures
            stamp@ == told_at(seconds),
    {
        let seconds: i64 = match seconds {
            Some(seconds) => if seconds < LAST as u64 {
                seconds as i64
            } else {
                LAST
            },
            None => 0,
        };
        Timestamp { seconds }
    }

    /// This moment, by the system's clock.
    pub fn now() -> (stamp: Self)
        ensures
            exists|seconds: Option<u64>| stamp@ == #[trigger] told_at(seconds),
    {
        Timestamp::told(clock())
    }

    /// The seconds since the start of 1970.
    pub fn seconds(self) -> (seconds: i64)
        ensures
            seconds == self@,
    {
        self.seconds
    }

    /// How many whole seconds this is after `earlier`; none when it is not.
    pub fn seconds_since(self, earlier: Self) -> (seconds: u64)
        ensures
            seconds == if self@ >= earlier@ { self@ - earlier@ } else { 0 },
    {
        proof {
            use_type_invariant(&self);
            use_type_invariant(&earlier);
        }
        if self.seconds >= earlier.seconds {
            (self.seconds - earlier.seconds) as u64
        } else {
            0
        }
    }
}

/// Reads the clock: `SystemTime::elapsed` of the start of 1970, in whole
/// seconds, or nothing on a clock that stands before it. What it says is not
/// claimed.
#[verifier::external_body]
fn clock() -> (seconds: Option<u64>) {
    std::time::SystemTime::UNIX_EPOCH.elapsed().ok().map(|since| since.as_secs())
}

proof fn lemma_clock(left: int)
    requires
        0 <= left < 86400,
    ensures
        left / 3600 * 3600 + left % 3600 / 60 * 60 + left % 60 == left,
        0 <= left / 3600 < 24,
        0 <= left % 3600 / 60 < 60,
{
    assert(left % 3600 % 60 == left % 60);
}

proof fn lemma_years_at_most(year: int)
    requires
        0 <= year,
    ensures
        days_before_year(year) <= 366 * year,
    decreases year,
{
    if year > 0 {
        lemma_year(year - 1);
        lemma_years_at_most(year - 1);
    }
}

fn print_date(year: i64, month: i64, day: i64) -> (printed: String)
    requires
        0 <= year <= 9999,
        1 <= month <= 12,
        1 <= day <= 31,
    ensures
        printed@ == two(year as int / 100) + two(year as int % 100) + seq!['-'] + two(month as int)
            + seq!['-'] + two(day as int),
{
    let mut printed = String::new();
    push_two(&mut printed, year / 100);
    push_two(&mut printed, year % 100);
    printed.push('-');
    push_two(&mut printed, month);
    printed.push('-');
    push_two(&mut printed, day);
    assert(printed@ =~= two(year as int / 100) + two(year as int % 100) + seq!['-'] + two(
        month as int,
    ) + seq!['-'] + two(day as int));
    printed
}

/// A text that names a moment is the text that moment is printed as.
pub proof fn law_a_timestamp_is_printed_as_it_was_read(source: Seq<char>)
    requires
        moment(source) is Some,
    ensures
        civil_of(moment(source)->0).text() == source,
{
    lemma_reads_back(source);
    assert(read_at(source).valid());
    lemma_moment_is_one(read_at(source), civil_of(moment(source)->0));
}

/// How long ago `seconds` seconds are, in the largest unit that fits.
pub open spec fn age_text(seconds: nat) -> Seq<char> {
    if seconds < 60 {
        decimal(seconds) + seq!['s']
    } else if seconds < 3600 {
        decimal(seconds / 60) + seq!['m']
    } else if seconds < 86400 {
        decimal(seconds / 3600) + seq!['h']
    } else {
        decimal(seconds / 86400) + seq!['d']
    }
}

/// How old something is, or a dash when nobody said when it was made.
/// Something made later than now has no age yet.
pub open spec fn age_of(created: Option<int>, now: int) -> Seq<char> {
    match created {
        Some(created) => age_text(
            (if now >= created {
                now - created
            } else {
                0
            }) as nat,
        ),
        None => seq!['\u{2014}'],
    }
}

/// When something was made, where that is known.
pub open spec fn maybe_moment(stamp: Option<Timestamp>) -> Option<int> {
    match stamp {
        Some(stamp) => Some(stamp@),
        None => None,
    }
}

/// How old something is: `12s`, `5m`, `3h`, `41d`, or a dash when nobody
/// said when it was made.
pub fn age(created: Option<Timestamp>, now: Timestamp) -> (printed: String)
    ensures
        printed@ == age_of(maybe_moment(created), now@),
{
    match created {
        Some(created) => {
            let seconds = now.seconds_since(created) as u128;
            let (count, unit) = if seconds < 60 {
                (seconds, 's')
            } else if seconds < 3600 {
                (seconds / 60, 'm')
            } else if seconds < 86400 {
                (seconds / 3600, 'h')
            } else {
                (seconds / 86400, 'd')
            };
            let mut printed = text::print(count);
            printed.push(unit);
            assert(printed@ =~= age_text(seconds as nat));
            printed
        },
        None => {
            let mut printed = String::new();
            printed.push('\u{2014}');
            assert(printed@ =~= seq!['\u{2014}']);
            printed
        },
    }
}

/// The days of a month, and which years have one more in February.
pub proof fn law_a_month_has_its_days(year: int)
    ensures
        month_days(year, 1) == 31 && month_days(year, 3) == 31 && month_days(year, 5) == 31,
        month_days(year, 7) == 31 && month_days(year, 8) == 31 && month_days(year, 10) == 31,
        month_days(year, 12) == 31,
        month_days(year, 4) == 30 && month_days(year, 6) == 30,
        month_days(year, 9) == 30 && month_days(year, 11) == 30,
        year % 4 != 0 ==> month_days(year, 2) == 28,
        year % 4 == 0 && year % 100 != 0 ==> month_days(year, 2) == 29,
        year % 100 == 0 && year % 400 != 0 ==> month_days(year, 2) == 28,
        year % 400 == 0 ==> month_days(year, 2) == 29,
{
}

proof fn lemma_year_step(year: int)
    requires
        0 <= year,
    ensures
        days_before_year(year + 1) == days_before_year(year) + days_before_month(year, 12) + 31,
{
    lemma_year(year);
    lemma_months_of_year(year);
}

/// A moment counts every second since 1970 began: one more with the next
/// second, a minute, an hour or a day more with the next of those, across
/// the ends of months and years alike.
pub proof fn law_a_moment_counts_the_seconds(civil: Civil)
    requires
        civil.valid(),
    ensures
        (Civil { second: civil.second + 1, ..civil }).seconds() == civil.seconds() + 1,
        (Civil { minute: civil.minute + 1, ..civil }).seconds() == civil.seconds() + 60,
        (Civil { hour: civil.hour + 1, ..civil }).seconds() == civil.seconds() + 3600,
        (Civil { day: civil.day + 1, ..civil }).seconds() == civil.seconds() + 86400,
        civil.month < 12 && civil.day == month_days(civil.year, civil.month) ==> (Civil {
            month: civil.month + 1,
            day: 1,
            ..civil
        }).seconds() == civil.seconds() + 86400,
        civil.month == 12 && civil.day == 31 ==> (Civil {
            year: civil.year + 1,
            month: 1,
            day: 1,
            ..civil
        }).seconds() == civil.seconds() + 86400,
        (Civil { year: 1970, month: 1, day: 1, hour: 0, minute: 0, second: 0 }).seconds() == 0,
{
    lemma_year_step(civil.year);
}

/// A moment is printed with its year, month, day, hour, minute and second
/// each in its own place, and its date is the front of that.
pub proof fn law_each_part_of_a_moment_has_its_place(civil: Civil)
    requires
        civil.valid(),
    ensures
        ({
            let said = civil.text();
            &&& said.len() == 20
            &&& text::number_in(said.subrange(0, 4)) == civil.year
            &&& text::number_in(said.subrange(5, 7)) == civil.month
            &&& text::number_in(said.subrange(8, 10)) == civil.day
            &&& text::number_in(said.subrange(11, 13)) == civil.hour
            &&& text::number_in(said.subrange(14, 16)) == civil.minute
            &&& text::number_in(said.subrange(17, 19)) == civil.second
            &&& said[4] == '-' && said[7] == '-' && said[10] == 'T'
            &&& said[13] == ':' && said[16] == ':' && said[19] == 'Z'
            &&& civil.date() == said.take(10)
        }),
{
    let said = civil.text();
    assert(said.subrange(0, 4) =~= two(civil.year / 100) + two(civil.year % 100));
    assert(said.subrange(5, 7) =~= two(civil.month));
    assert(said.subrange(8, 10) =~= two(civil.day));
    assert(said.subrange(11, 13) =~= two(civil.hour));
    assert(said.subrange(14, 16) =~= two(civil.minute));
    assert(said.subrange(17, 19) =~= two(civil.second));
    assert(civil.date() =~= said.take(10));
    lemma_two_reads(civil.month);
    lemma_two_reads(civil.day);
    lemma_two_reads(civil.hour);
    lemma_two_reads(civil.minute);
    lemma_two_reads(civil.second);
    lemma_two_reads(civil.year / 100);
    lemma_two_reads(civil.year % 100);
    reveal_with_fuel(text::number_in, 3);
    let year = two(civil.year / 100) + two(civil.year % 100);
    assert(year.drop_last().drop_last() =~= two(civil.year / 100));
}

proof fn lemma_two_reads(n: int)
    requires
        0 <= n < 100,
    ensures
        text::number_in(two(n)) == n,
        two(n).len() == 2,
        two(n)[0] as int == 0x30 + n / 10,
        two(n)[1] as int == 0x30 + n % 10,
{
    reveal_with_fuel(text::number_in, 3);
    assert(two(n).drop_last().drop_last() =~= seq![]);
}

/// An age is how many whole units of time have passed: seconds under a
/// minute, minutes under an hour, hours under a day, and days from there.
pub proof fn law_an_age_counts_whole_units(created: int, now: int)
    requires
        now >= created,
    ensures
        ({
            let passed = now - created;
            let said = age_of(Some(created), now);
            let count = text::number_in(said.drop_last());
            &&& said.len() > 1
            &&& passed < 60 ==> said.last() == 's' && count == passed
            &&& 60 <= passed < 3600 ==> said.last() == 'm' && count * 60 <= passed < (count + 1)
                * 60
            &&& 3600 <= passed < 86400 ==> said.last() == 'h' && count * 3600 <= passed < (count
                + 1) * 3600
            &&& 86400 <= passed ==> said.last() == 'd' && count * 86400 <= passed < (count + 1)
                * 86400
        }),
        age_of(Some(now), created) == seq!['0', 's'],
        age_of(None, now) == seq!['\u{2014}'],
{
    let passed = (now - created) as nat;
    let said = age_of(Some(created), now);
    text::law_a_number_is_written_in_digits(passed);
    text::law_a_number_is_written_in_digits(passed / 60);
    text::law_a_number_is_written_in_digits(passed / 3600);
    text::law_a_number_is_written_in_digits(passed / 86400);
    if passed < 60 {
        assert(said.drop_last() =~= decimal(passed));
    } else if passed < 3600 {
        assert(said.drop_last() =~= decimal(passed / 60));
    } else if passed < 86400 {
        assert(said.drop_last() =~= decimal(passed / 3600));
    } else {
        assert(said.drop_last() =~= decimal(passed / 86400));
    }
    assert(age_of(Some(now), created) =~= seq!['0', 's']);
}

/// Every day and time there is names its moment, written out.
pub proof fn law_what_is_printed_is_read(civil: Civil)
    requires
        civil.valid(),
    ensures
        moment(civil.text()) == Some(civil.seconds()),
{
    lemma_printed(civil);
}

/// A clock tells its seconds, nothing before the epoch and nothing past the
/// last moment that has four digits of year.
pub proof fn law_a_clock_tells_its_seconds(seconds: u64)
    ensures
        seconds <= 253_402_300_799 ==> told_at(Some(seconds)) == seconds,
        seconds > 253_402_300_799 ==> told_at(Some(seconds)) == 253_402_300_799,
        told_at(None) == 0,
{
}

/// The time between two moments is counted from the earlier, and is none
/// where that is the later.
pub proof fn law_time_is_counted_forwards(later: Timestamp, earlier: Timestamp, seconds: u64)
    requires
        call_ensures(Timestamp::seconds_since, (later, earlier), seconds),
    ensures
        later@ >= earlier@ ==> earlier@ + seconds == later@,
        later@ < earlier@ ==> seconds == 0,
{
}

} // verus!
