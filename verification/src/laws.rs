//! What holds of the policy as a whole: of its hours, of whom it admits, and of
//! the declarations it is made of.

use vstd::prelude::*;
use vstd::std_specs::cmp::{PartialEqIs, PartialOrdIs};

use crate::admission::{self, AdmissionView, Direction};
use crate::attempt::{self, Action, Attempt, AttemptView, Decision, DecisionView};
use crate::identity::{
    AuthenticatedIdentity, AuthenticatedIdentityView, IdentityFactsView, PartyId,
};
use crate::policy::{self, NAME};
use crate::text;
use crate::text_laws;
use crate::window::{self, Moment, Weekday, Window, WindowView, DAY, SECOND};

verus! {

// The time of day and the day of the week.

/// A time of day that was read lies within one day.
pub proof fn a_time_of_day_is_within_a_day(s: Seq<char>)
    ensures
        window::time_of_day(s) matches Some(seconds) ==> seconds < DAY,
{
}

/// White space around a text makes no difference to the time of day it reads as.
pub proof fn white_space_around_a_time_is_passed_over(s: Seq<char>)
    ensures
        window::time_of_day(text::trim(s)) == window::time_of_day(s),
{
    lemma_trim_again(s);
}

/// A text that was trimmed has nothing left to trim.
proof fn lemma_trim_again(s: Seq<char>)
    ensures
        text::trim(text::trim(s)) == text::trim(s),
    decreases s.len(),
{
    if s.len() > 0 && text::is_white(s.first()) {
        lemma_trim_again(s.drop_first());
    } else if s.len() > 0 && text::is_white(s.last()) {
        lemma_trim_again(s.drop_last());
    }
}

/// A text without the separator is its own only part.
pub(crate) proof fn lemma_split_whole(s: Seq<char>, sep: char)
    requires
        !s.contains(sep),
    ensures
        text::split(s, sep) == seq![s],
    decreases s.len(),
{
    if s.len() > 0 {
        let front = s.drop_last();
        assert forall|i: int| 0 <= i < front.len() implies front[i] != sep by {
            assert(s.contains(s[i]));
        }
        assert(s.contains(s.last()));
        lemma_split_whole(front, sep);
        assert(front.push(s.last()) =~= s);
        assert(text::split(s, sep) =~= seq![s]);
    } else {
        assert(s =~= Seq::empty());
    }
}

/// A text behind a separator is the last part.
pub(crate) proof fn lemma_split_last(a: Seq<char>, b: Seq<char>, sep: char)
    requires
        !b.contains(sep),
    ensures
        text::split(a.push(sep) + b, sep) == text::split(a, sep).push(b),
    decreases b.len(),
{
    let s = a.push(sep) + b;
    if b.len() == 0 {
        assert(s =~= a.push(sep));
        assert(s.drop_last() =~= a);
        assert(b =~= Seq::empty());
    } else {
        let front = b.drop_last();
        assert forall|i: int| 0 <= i < front.len() implies front[i] != sep by {
            assert(b.contains(b[i]));
        }
        assert(b.contains(b.last()));
        lemma_split_last(a, front, sep);
        assert(s.drop_last() =~= a.push(sep) + front);
        assert(front.push(b.last()) =~= b);
        let parts = text::split(a, sep).push(front);
        assert(parts.drop_last() =~= text::split(a, sep));
    }
}

/// Two decimal digits read as the number they were written for.
pub(crate) proof fn lemma_two_digits_read_back(n: int)
    requires
        0 <= n < 100,
    ensures
        text::number(text::two_digits(n)) == Some(n as u32),
        !text::two_digits(n).contains(':'),
        forall|i: int| 0 <= i < 2 ==> !text::is_white(#[trigger] text::two_digits(n)[i]),
{
    let s = text::two_digits(n);
    let tens = n / 10;
    let ones = n % 10;
    assert(s[0] == text::digit_char(tens));
    assert(s[1] == text::digit_char(ones));
    assert(s[0] as u32 == '0' as u32 + tens);
    assert(s[1] as u32 == '0' as u32 + ones);
    assert(text::all_digits(s));
    assert(s.drop_last() =~= seq![s[0]]);
    assert(s.drop_last().drop_last() =~= Seq::empty());
    reveal_with_fuel(text::decimal_value, 3);
    assert(text::decimal_value(s) == n);
}

/// A time of day is written so that it reads back, to the minute.
pub proof fn a_written_time_reads_back_to_the_minute(seconds: nat)
    requires
        seconds < DAY,
    ensures
        window::time_of_day(window::hours_and_minutes(seconds)) == Some(
            (seconds - seconds % 60) as nat,
        ),
{
    let hour = (seconds / 3600) as int;
    let minute = ((seconds / 60) % 60) as int;
    let s = window::hours_and_minutes(seconds);
    reveal_strlit(":");
    lemma_two_digits_read_back(hour);
    lemma_two_digits_read_back(minute);
    let h = text::two_digits(hour);
    let m = text::two_digits(minute);
    assert(s =~= h.push(':') + m);
    assert(s.first() == h[0]);
    assert(s.last() == m[1]);
    assert(text::trim(s) == s);
    lemma_split_whole(h, ':');
    lemma_split_last(h, m, ':');
    assert(text::split(s, ':') =~= seq![h, m]);
}

/// The time of day of an instant is that of the second it lies in, before the
/// epoch as after it.
pub proof fn the_time_of_day_an_instant_falls_at(unix_nanos: int)
    ensures
        window::second_of_day(unix_nanos) == (unix_nanos % (SECOND * DAY)) / SECOND as int,
{
    assert(SECOND * DAY == 86_400_000_000_000);
}

/// The day of an instant is the one it lies in, before the epoch as after it.
pub proof fn the_day_an_instant_falls_on(unix_nanos: int)
    ensures
        window::day_number(unix_nanos) == unix_nanos / (SECOND * DAY),
{
    assert(SECOND * DAY == 86_400_000_000_000);
}

/// A day later it is the same time of day.
pub proof fn a_day_later_is_the_same_time(unix_nanos: int)
    ensures
        window::second_of_day(unix_nanos + SECOND * DAY) == window::second_of_day(unix_nanos),
{
    assert(SECOND * DAY == 86_400_000_000_000);
}

/// The day of the week behind another.
pub open spec fn day_after(day: Weekday) -> Weekday {
    match day {
        Weekday::Monday => Weekday::Tuesday,
        Weekday::Tuesday => Weekday::Wednesday,
        Weekday::Wednesday => Weekday::Thursday,
        Weekday::Thursday => Weekday::Friday,
        Weekday::Friday => Weekday::Saturday,
        Weekday::Saturday => Weekday::Sunday,
        Weekday::Sunday => Weekday::Monday,
    }
}

/// A day later it is the next day of the week.
pub proof fn a_day_later_is_the_next_weekday(unix_nanos: int)
    ensures
        window::weekday_at(unix_nanos + SECOND * DAY) == day_after(
            window::weekday_at(unix_nanos),
        ),
{
    assert(SECOND * DAY == 86_400_000_000_000);
    let today = window::day_number(unix_nanos);
    assert(window::day_number(unix_nanos + SECOND * DAY) == today + 1);
}

/// White space in front of a text and behind it makes no difference to the time
/// of day it reads as.
pub proof fn a_time_reads_alike_with_white_space_around_it(
    front: Seq<char>,
    s: Seq<char>,
    back: Seq<char>,
)
    requires
        forall|i: int| 0 <= i < front.len() ==> text::is_white(#[trigger] front[i]),
        forall|i: int| 0 <= i < back.len() ==> text::is_white(#[trigger] back[i]),
    ensures
        window::time_of_day(front + s + back) == window::time_of_day(s),
{
    text_laws::white_space_put_around_is_taken_off(front, s, back);
}

/// A text that neither begins nor ends with white space has nothing to trim.
proof fn lemma_nothing_to_trim(s: Seq<char>)
    requires
        s.len() > 0,
        !text::is_white(s.first()),
        !text::is_white(s.last()),
    ensures
        text::trim(s) == s,
{
}

/// Two texts with a colon between them read as an hour and a minute exactly
/// where both are numbers that a clock shows, and as nothing else.
pub proof fn a_time_of_two_numbers(hour: Seq<char>, minute: Seq<char>)
    requires
        !hour.contains(':'),
        !minute.contains(':'),
        !text::is_white((hour + seq![':'] + minute).first()),
        !text::is_white((hour + seq![':'] + minute).last()),
    ensures
        window::time_of_day(hour + seq![':'] + minute) == (match (
            text::number(hour),
            text::number(minute),
        ) {
            (Some(h), Some(m)) => if h < 24 && m < 60 {
                Some((h * 3600 + m * 60) as nat)
            } else {
                None
            },
            _ => None,
        }),
{
    let s = hour + seq![':'] + minute;
    lemma_nothing_to_trim(s);
    lemma_split_whole(hour, ':');
    lemma_split_last(hour, minute, ':');
    assert(s =~= hour.push(':') + minute);
    assert(text::split(s, ':') =~= seq![hour, minute]);
}

/// Three texts with colons between them read as an hour, a minute and a second
/// exactly where all are numbers that a clock shows, and as nothing else.
pub proof fn a_time_of_three_numbers(hour: Seq<char>, minute: Seq<char>, second: Seq<char>)
    requires
        !hour.contains(':'),
        !minute.contains(':'),
        !second.contains(':'),
        !text::is_white((hour + seq![':'] + minute + seq![':'] + second).first()),
        !text::is_white((hour + seq![':'] + minute + seq![':'] + second).last()),
    ensures
        window::time_of_day(hour + seq![':'] + minute + seq![':'] + second) == (match (
            text::number(hour),
            text::number(minute),
            text::number(second),
        ) {
            (Some(h), Some(m), Some(s)) => if h < 24 && m < 60 && s < 60 {
                Some((h * 3600 + m * 60 + s) as nat)
            } else {
                None
            },
            _ => None,
        }),
{
    let start = hour + seq![':'] + minute;
    let s = start + seq![':'] + second;
    lemma_nothing_to_trim(s);
    lemma_split_whole(hour, ':');
    lemma_split_last(hour, minute, ':');
    assert(start =~= hour.push(':') + minute);
    lemma_split_last(start, second, ':');
    assert(s =~= start.push(':') + second);
    assert(text::split(s, ':') =~= seq![hour, minute, second]);
}

/// A text with no colon, or with more than two, is no time of day.
pub proof fn a_time_is_two_or_three_parts(parts: Seq<Seq<char>>)
    requires
        parts.len() == 1 || parts.len() > 3,
        forall|i: int| 0 <= i < parts.len() ==> !(#[trigger] parts[i]).contains(':'),
        text::join(parts, seq![':']).len() > 0,
        !text::is_white(text::join(parts, seq![':']).first()),
        !text::is_white(text::join(parts, seq![':']).last()),
    ensures
        window::time_of_day(text::join(parts, seq![':'])) is None,
{
    lemma_nothing_to_trim(text::join(parts, seq![':']));
    text_laws::joined_texts_come_apart_again(parts, ':');
}

/// White space alone, or nothing at all, is no time of day.
pub proof fn white_space_alone_is_no_time(s: Seq<char>)
    requires
        forall|i: int| 0 <= i < s.len() ==> text::is_white(#[trigger] s[i]),
    ensures
        window::time_of_day(s) is None,
{
    let nothing = Seq::<char>::empty();
    text_laws::trimming_takes_the_white_ends_off(s, nothing, nothing);
    assert(s + nothing + nothing =~= s);
    lemma_split_whole(nothing, ':');
}

/// Every time of day written `HH:MM:SS` reads back.
pub proof fn hours_minutes_and_seconds_read_back(h: int, m: int, s: int)
    requires
        0 <= h < 24,
        0 <= m < 60,
        0 <= s < 60,
    ensures
        window::time_of_day(
            text::two_digits(h) + ":"@ + text::two_digits(m) + ":"@ + text::two_digits(s),
        ) == Some((h * 3600 + m * 60 + s) as nat),
{
    let hour = text::two_digits(h);
    let minute = text::two_digits(m);
    let second = text::two_digits(s);
    reveal_strlit(":");
    lemma_two_digits_read_back(h);
    lemma_two_digits_read_back(m);
    lemma_two_digits_read_back(s);
    assert(":"@ =~= seq![':']);
    let all = hour + seq![':'] + minute + seq![':'] + second;
    assert(all.first() == hour[0]);
    assert(all.last() == second[1]);
    a_time_of_three_numbers(hour, minute, second);
}

/// Every time of day written `HH:MM` reads back.
pub proof fn hours_and_minutes_read_back(h: int, m: int)
    requires
        0 <= h < 24,
        0 <= m < 60,
    ensures
        window::time_of_day(text::two_digits(h) + ":"@ + text::two_digits(m)) == Some(
            (h * 3600 + m * 60) as nat,
        ),
{
    let hour = text::two_digits(h);
    let minute = text::two_digits(m);
    reveal_strlit(":");
    lemma_two_digits_read_back(h);
    lemma_two_digits_read_back(m);
    assert(":"@ =~= seq![':']);
    let all = hour + seq![':'] + minute;
    assert(all.first() == hour[0]);
    assert(all.last() == minute[1]);
    a_time_of_two_numbers(hour, minute);
}

/// A time of day is written as two digits, a colon and two digits.
pub proof fn a_time_is_written_in_five_characters(seconds: nat)
    requires
        seconds < 86_400,
    ensures
        window::hours_and_minutes(seconds).len() == 5,
        window::hours_and_minutes(seconds)[2] == ':',
        text::number(window::hours_and_minutes(seconds).subrange(0, 2)) == Some(
            (seconds / 3600) as u32,
        ),
        text::number(window::hours_and_minutes(seconds).subrange(3, 5)) == Some(
            (seconds % 3600 / 60) as u32,
        ),
{
    let hour = (seconds / 3600) as int;
    let minute = (seconds / 60) as int % 60;
    reveal_strlit(":");
    lemma_two_digits_read_back(hour);
    lemma_two_digits_read_back(minute);
    let s = window::hours_and_minutes(seconds);
    assert(minute == seconds % 3600 / 60);
    assert(s.subrange(0, 2) =~= text::two_digits(hour));
    assert(s.subrange(3, 5) =~= text::two_digits(minute));
}

/// A text that is no time of day is quoted whole in what is said of it.
pub proof fn a_refused_time_is_quoted(s: Seq<char>)
    ensures
        window::not_a_time(s).len() > s.len(),
        window::not_a_time(s)[0] == '\'',
        window::not_a_time(s).subrange(1, 1 + s.len() as int) == s,
        window::not_a_time(s).skip(1 + s.len() as int) == "' is not a time of day as HH:MM"@,
{
    reveal_strlit("'");
    let said = window::not_a_time(s);
    assert(said.subrange(1, 1 + s.len() as int) =~= s);
    assert(said.skip(1 + s.len() as int) =~= "' is not a time of day as HH:MM"@);
}

/// Times of day are in the order of their seconds.
pub proof fn times_are_in_the_order_of_the_clock(a: Moment, b: Moment)
    ensures
        a.is_lt(&b) <==> a@ < b@,
        a.is_le(&b) <==> a@ <= b@,
        a.is_gt(&b) <==> a@ > b@,
        a.is_ge(&b) <==> a@ >= b@,
{
}

/// An instant is so many days, so many seconds into the day, and less than one
/// second more: before the epoch as after it.
pub proof fn an_instant_is_its_day_and_its_second(unix_nanos: int)
    ensures
        0 <= window::second_of_day(unix_nanos) < 86_400,
        0 <= unix_nanos - window::day_number(unix_nanos) * 86_400_000_000_000
            - window::second_of_day(unix_nanos) * 1_000_000_000 < 1_000_000_000,
{
}

/// Every instant of the first of January 1970, and of every seventh day from
/// there, is a Thursday; the other days of the week follow in their order.
pub proof fn the_weekday_of_every_instant(unix_nanos: int)
    ensures
        unix_nanos / 86_400_000_000_000 % 7 == 0 ==> window::weekday_at(unix_nanos)
            == Weekday::Thursday,
        unix_nanos / 86_400_000_000_000 % 7 == 1 ==> window::weekday_at(unix_nanos)
            == Weekday::Friday,
        unix_nanos / 86_400_000_000_000 % 7 == 2 ==> window::weekday_at(unix_nanos)
            == Weekday::Saturday,
        unix_nanos / 86_400_000_000_000 % 7 == 3 ==> window::weekday_at(unix_nanos)
            == Weekday::Sunday,
        unix_nanos / 86_400_000_000_000 % 7 == 4 ==> window::weekday_at(unix_nanos)
            == Weekday::Monday,
        unix_nanos / 86_400_000_000_000 % 7 == 5 ==> window::weekday_at(unix_nanos)
            == Weekday::Tuesday,
        unix_nanos / 86_400_000_000_000 % 7 == 6 ==> window::weekday_at(unix_nanos)
            == Weekday::Wednesday,
{
    the_day_an_instant_falls_on(unix_nanos);
    assert(SECOND * DAY == 86_400_000_000_000);
}

/// Any two instants of one day have the same weekday.
pub proof fn a_day_has_one_weekday(a: int, b: int)
    requires
        a / 86_400_000_000_000 == b / 86_400_000_000_000,
    ensures
        window::weekday_at(a) == window::weekday_at(b),
        window::day_number(a) == window::day_number(b),
{
    the_weekday_of_every_instant(a);
    the_weekday_of_every_instant(b);
    an_instant_is_its_day_and_its_second(a);
    an_instant_is_its_day_and_its_second(b);
}

/// Seven days later it is the same weekday, and on none of the days between.
pub proof fn a_weekday_comes_round_every_seven_days(unix_nanos: int, days: int)
    ensures
        window::weekday_at(unix_nanos + days * 86_400_000_000_000) == window::weekday_at(unix_nanos)
            <==> days % 7 == 0,
{
    let later = unix_nanos + days * 86_400_000_000_000;
    the_weekday_of_every_instant(unix_nanos);
    the_weekday_of_every_instant(later);
    let day = unix_nanos / 86_400_000_000_000;
    assert(later / 86_400_000_000_000 == day + days);
    assert((day + days) % 7 == day % 7 <==> days % 7 == 0);
}

// The hours.

/// A window holds the second it opens at, unless it closes at the same one, and
/// never the second it closes at.
pub proof fn a_window_opens_inclusive_and_closes_exclusive(hours: WindowView)
    ensures
        hours.covers(hours.from as int) <==> hours.from != hours.to,
        !hours.covers(hours.to as int),
{
}

/// A window and the one that runs the other way share out the day between them:
/// on a day both apply on, each instant is inside exactly one of the two.
pub proof fn a_window_and_its_reverse_share_out_the_day(hours: WindowView, unix_nanos: int)
    requires
        hours.from != hours.to,
        hours.days.contains(window::weekday_at(unix_nanos)),
    ensures
        hours.holds(unix_nanos) <==> !(WindowView {
            from: hours.to,
            to: hours.from,
            days: hours.days,
        }).holds(unix_nanos),
{
}

/// The seven days of the week, Monday first.
pub open spec fn all_week() -> Seq<Weekday> {
    seq![
        Weekday::Monday,
        Weekday::Tuesday,
        Weekday::Wednesday,
        Weekday::Thursday,
        Weekday::Friday,
        Weekday::Saturday,
        Weekday::Sunday,
    ]
}

/// A window for every day is the same window put on all seven days: `every` is
/// what a window for every day stands for, `listed` what putting it on the seven
/// days gives.
pub proof fn every_day_is_all_seven_days(every: Window, listed: Window)
    requires
        every.seven_days(),
        listed.seven_days(),
        every@.days == Set::<Weekday>::full(),
        listed@ == (WindowView { days: all_week().to_set(), ..every@ }),
    ensures
        every == listed,
{
    let week = all_week();
    assert forall|day: Weekday| week.contains(day) by {
        match day {
            Weekday::Monday => assert(week[0] == day),
            Weekday::Tuesday => assert(week[1] == day),
            Weekday::Wednesday => assert(week[2] == day),
            Weekday::Thursday => assert(week[3] == day),
            Weekday::Friday => assert(week[4] == day),
            Weekday::Saturday => assert(week[5] == day),
            Weekday::Sunday => assert(week[6] == day),
        }
    }
    assert(week.to_set() =~= Set::full());
    window::a_window_is_what_it_stands_for(every, listed);
}

/// A window for every day answers a day later as it does now.
pub proof fn every_day_is_answered_alike(hours: WindowView, unix_nanos: int)
    requires
        hours.days == Set::<Weekday>::full(),
        unix_nanos != 0,
        unix_nanos + SECOND * DAY != 0,
    ensures
        hours.answer(unix_nanos + SECOND * DAY) == hours.answer(unix_nanos),
{
    a_day_later_is_the_same_time(unix_nanos);
}

/// To put a window on days replaces the days it was on: `hours` put on `before`
/// is `first`, that put on `afterwards` is `again`, and `hours` put on
/// `afterwards` straight away is `at_once`.
pub proof fn putting_a_window_on_days_replaces_its_days(
    hours: Window,
    first: Window,
    again: Window,
    at_once: Window,
    before: Seq<Weekday>,
    afterwards: Seq<Weekday>,
)
    requires
        first@ == (WindowView { days: before.to_set(), ..hours@ }),
        again.seven_days(),
        again@ == (WindowView { days: afterwards.to_set(), ..first@ }),
        at_once.seven_days(),
        at_once@ == (WindowView { days: afterwards.to_set(), ..hours@ }),
    ensures
        again == at_once,
        again@.from == hours@.from,
        again@.to == hours@.to,
{
    window::a_window_is_what_it_stands_for(again, at_once);
}

/// One window put on two rows of days gives equal windows exactly where the rows
/// hold the same days, whatever their order and however often each is named.
pub proof fn a_window_is_on_a_set_of_days(
    hours: Window,
    a: Window,
    b: Window,
    days: Seq<Weekday>,
    others: Seq<Weekday>,
)
    requires
        a.seven_days(),
        a@ == (WindowView { days: days.to_set(), ..hours@ }),
        b.seven_days(),
        b@ == (WindowView { days: others.to_set(), ..hours@ }),
    ensures
        a == b <==> (forall|day: Weekday| days.contains(day) <==> others.contains(day)),
{
    window::a_window_is_what_it_stands_for(a, b);
    if forall|day: Weekday| days.contains(day) <==> others.contains(day) {
        assert(days.to_set() =~= others.to_set());
    }
    if a@ == b@ {
        assert forall|day: Weekday| days.contains(day) <==> others.contains(day) by {
            assert(days.to_set().contains(day) <==> others.to_set().contains(day));
        }
    }
}

/// A window on no day is closed to every instant on record.
pub proof fn a_window_on_no_day_is_closed_always(hours: WindowView, unix_nanos: int)
    requires
        unix_nanos != 0,
    ensures
        (WindowView { days: Seq::<Weekday>::empty().to_set(), ..hours }).answer(unix_nanos) == Some(
            false,
        ),
{
}

/// A Location without hours is open to every attempt, recorded or not.
pub proof fn without_hours_a_location_is_open_always(admission: AdmissionView, at: int)
    requires
        admission.hours.len() == 0,
    ensures
        admission.open_at(at),
{
}

/// The first window a Location keeps confines it to that window; each further
/// one opens it inside that window too, and closes it nowhere.
pub proof fn a_location_is_open_inside_any_of_its_windows(
    admission: AdmissionView,
    added: WindowView,
    at: int,
)
    ensures
        (AdmissionView { hours: admission.hours.push(added), ..admission }).open_at(at) <==> at != 0
            && (added.holds(at) || (admission.hours.len() > 0 && admission.open_at(at))),
{
    let after = AdmissionView { hours: admission.hours.push(added), ..admission };
    if at != 0 && added.holds(at) {
        assert(after.hours[admission.hours.len() as int].holds(at));
    }
    if admission.inside_hours(at) {
        let i = choose|i: int|
            0 <= i < admission.hours.len() && (#[trigger] admission.hours[i]).holds(at);
        assert(after.hours[i].holds(at));
    }
    if after.inside_hours(at) && !added.holds(at) {
        let i = choose|i: int| 0 <= i < after.hours.len() && (#[trigger] after.hours[i]).holds(at);
        assert(admission.hours[i].holds(at));
    }
}

/// A Location that keeps hours refuses every attempt that does not say when it
/// is made, whoever makes it.
pub proof fn a_gap_in_the_record_is_not_a_pass(
    admission: AdmissionView,
    identity: AuthenticatedIdentityView,
)
    requires
        admission.hours.len() > 0,
    ensures
        policy::answer(admission, identity, 0) == (DecisionView::Denied {
            by: NAME@,
            reason: "the attempt does not record when it is made, and '"@ + admission.location
                + "' keeps hours"@,
        }),
{
}

/// Outside its hours a Location refuses everyone, those it admits included, and
/// all for the same reason.
pub proof fn the_hours_apply_to_everyone(
    admission: AdmissionView,
    a: AuthenticatedIdentityView,
    b: AuthenticatedIdentityView,
    at: int,
)
    requires
        !admission.open_at(at),
    ensures
        policy::answer(admission, a, at) is Denied,
        policy::answer(admission, a, at) == policy::answer(admission, b, at),
{
}

/// Where a Location keeps no hours, it makes no difference when an attempt is
/// made.
pub proof fn without_hours_time_makes_no_difference(
    admission: AdmissionView,
    identity: AuthenticatedIdentityView,
    at: int,
    other: int,
)
    requires
        admission.hours.len() == 0,
    ensures
        policy::answer(admission, identity, at) == policy::answer(admission, identity, other),
{
}

/// A second lies in a window exactly where it comes less long after the opening
/// than the closing does, the clock taken round: the day is a circle.
pub proof fn a_window_runs_from_its_opening_to_its_closing(hours: WindowView, second: int)
    requires
        hours.from < 86_400,
        hours.to < 86_400,
        0 <= second < 86_400,
    ensures
        hours.covers(second) <==> (second - hours.from) % 86_400 < (hours.to - hours.from) % 86_400,
{
}

/// From one second to the next, round the clock, a window opens at its opening
/// and closes at its closing, and changes nowhere else.
pub proof fn a_window_changes_only_at_its_ends(hours: WindowView, second: int)
    requires
        hours.from < 86_400,
        hours.to < 86_400,
        0 <= second < 86_400,
    ensures
        ({
            let next = (second + 1) % 86_400;
            &&& next == hours.to ==> !hours.covers(next)
            &&& next == hours.from && hours.from != hours.to ==> hours.covers(next)
            &&& next != hours.from && next != hours.to ==> (hours.covers(next) <==> hours.covers(
                second,
            ))
        }),
{
}

/// A window is closed to every instant on a day it does not apply on.
pub proof fn a_window_is_closed_on_other_days(hours: WindowView, unix_nanos: int)
    requires
        !hours.days.contains(window::weekday_at(unix_nanos)),
    ensures
        !hours.holds(unix_nanos),
        hours.answer(unix_nanos) != Some(true),
{
}

/// On a day it applies on, a window holds an instant exactly where the time of
/// day does lie between its ends, whatever other days it applies on.
pub proof fn a_window_goes_by_the_time_on_its_own_days(hours: WindowView, unix_nanos: int)
    requires
        hours.from < 86_400,
        hours.to < 86_400,
        hours.days.contains(window::weekday_at(unix_nanos)),
    ensures
        hours.holds(unix_nanos) <==> (unix_nanos / 1_000_000_000 - hours.from) % 86_400 < (hours.to
            - hours.from) % 86_400,
{
    let second = window::second_of_day(unix_nanos);
    an_instant_is_its_day_and_its_second(unix_nanos);
    a_window_runs_from_its_opening_to_its_closing(hours, second);
    let all = unix_nanos / 1_000_000_000;
    assert(all % 86_400 == second);
    assert((all - hours.from) % 86_400 == (second - hours.from) % 86_400);
}

/// To confine a window to days leaves it as it was on those days, and closes it
/// on all others.
pub proof fn confining_a_window_to_days(hours: WindowView, days: Set<Weekday>, unix_nanos: int)
    ensures
        (WindowView { days, ..hours }).holds(unix_nanos) <==> days.contains(
            window::weekday_at(unix_nanos),
        ) && (WindowView { days: Set::full(), ..hours }).holds(unix_nanos),
{
}

/// A window has no answer exactly to an instant that is not on record, and to
/// any other says whether it holds it.
pub proof fn a_window_answers_every_recorded_instant(hours: WindowView, unix_nanos: int)
    ensures
        hours.answer(unix_nanos) is None <==> unix_nanos == 0,
        hours.answer(unix_nanos) == Some(true) <==> unix_nanos != 0 && hours.holds(unix_nanos),
        hours.answer(unix_nanos) == Some(false) <==> unix_nanos != 0 && !hours.holds(unix_nanos),
{
}

/// A window is written as the time it opens at, a hyphen and the time it closes
/// at, and both read back to the minute.
pub proof fn a_window_is_written_as_its_two_times(hours: WindowView)
    requires
        hours.from < 86_400,
        hours.to < 86_400,
    ensures
        hours.written().len() == 11,
        hours.written()[5] == '-',
        window::time_of_day(hours.written().subrange(0, 5)) == Some(
            (hours.from - hours.from % 60) as nat,
        ),
        window::time_of_day(hours.written().subrange(6, 11)) == Some(
            (hours.to - hours.to % 60) as nat,
        ),
        hours.written().subrange(0, 5) == window::hours_and_minutes(hours.from),
        hours.written().subrange(6, 11) == window::hours_and_minutes(hours.to),
{
    reveal_strlit("-");
    a_time_is_written_in_five_characters(hours.from);
    a_time_is_written_in_five_characters(hours.to);
    a_written_time_reads_back_to_the_minute(hours.from);
    a_written_time_reads_back_to_the_minute(hours.to);
    let s = hours.written();
    assert(s.subrange(0, 5) =~= window::hours_and_minutes(hours.from));
    assert(s.subrange(6, 11) =~= window::hours_and_minutes(hours.to));
}

/// A Location is open exactly where it keeps no hours, or one of its windows
/// answers that it holds the instant. Nothing else it declares makes a difference.
pub proof fn a_location_is_open_by_its_windows_alone(admission: AdmissionView, at: int)
    ensures
        admission.open_at(at) <==> admission.hours.len() == 0 || (exists|i: int|
            0 <= i < admission.hours.len() && (#[trigger] admission.hours[i]).answer(at) == Some(
                true,
            )),
        admission.closed_reason(at) is None <==> admission.open_at(at),
{
    if admission.hours.len() > 0 && admission.open_at(at) {
        let i = choose|i: int|
            0 <= i < admission.hours.len() && (#[trigger] admission.hours[i]).holds(at);
        assert(admission.hours[i].answer(at) == Some(true));
    }
    if exists|i: int|
        0 <= i < admission.hours.len() && (#[trigger] admission.hours[i]).answer(at) == Some(true) {
        let i = choose|i: int|
            0 <= i < admission.hours.len() && (#[trigger] admission.hours[i]).answer(at) == Some(
                true,
            );
        assert(admission.hours[i].holds(at));
    }
}

/// The hours of a Location are written as its windows in the order they were
/// declared, a comma and a space between any two.
pub proof fn the_hours_are_written_in_order(admission: AdmissionView, added: WindowView)
    ensures
        (AdmissionView { hours: admission.hours.push(added), ..admission }).hours_text() == (
        if admission.hours.len() == 0 {
            added.written()
        } else {
            admission.hours_text() + ", "@ + added.written()
        }),
{
    let after = AdmissionView { hours: admission.hours.push(added), ..admission };
    let list = admission.hours.map_values(|w: WindowView| w.written());
    let more = after.hours.map_values(|w: WindowView| w.written());
    assert(more =~= list.push(added.written()));
    assert(more.drop_last() =~= list);
}

/// Outside its hours a Location says when it is closed and when it is open.
pub proof fn a_closed_location_says_its_hours(
    admission: AdmissionView,
    identity: AuthenticatedIdentityView,
    at: int,
)
    requires
        at != 0,
        admission.hours.len() > 0,
        forall|i: int| 0 <= i < admission.hours.len() ==> !(#[trigger] admission.hours[i]).holds(at),
    ensures
        policy::answer(admission, identity, at) == (DecisionView::Denied {
            by: "location"@,
            reason: "'"@ + admission.location + "' is closed at "@ + window::hours_and_minutes(
                (at / 1_000_000_000 % 86_400) as nat,
            ) + "; open "@ + admission.hours_text(),
        }),
{
    assert(!admission.open_at(at)) by {
        if admission.inside_hours(at) {
            let i = choose|i: int|
                0 <= i < admission.hours.len() && (#[trigger] admission.hours[i]).holds(at);
            assert(admission.hours[i].holds(at));
        }
    }
    an_instant_is_its_day_and_its_second(at);
    assert(at / 1_000_000_000 % 86_400 == window::second_of_day(at));
}

// Whom a Location admits.

/// A Location that was only named admits nobody.
pub proof fn a_location_admits_nobody_at_first(
    location: Seq<char>,
    direction: Direction,
    identity: AuthenticatedIdentityView,
)
    ensures
        !AdmissionView::at(location, direction).admits(identity),
{
}

/// To name a Party admits the identities that resolved to it, and changes
/// nothing for any other.
pub proof fn naming_a_party_admits_that_party(
    admission: AdmissionView,
    party: Seq<char>,
    identity: AuthenticatedIdentityView,
)
    ensures
        (AdmissionView { parties: admission.parties.push(party), ..admission }).admits(identity)
            <==> admission.admits(identity) || identity.party_id == Some(party),
{
    broadcast use vstd::seq_lib::lemma_seq_contains_after_push;

}

/// To name a value admits the identities recorded with it, whether or not they
/// resolved to a Party, and changes nothing for any other.
pub proof fn naming_a_value_admits_that_value(
    admission: AdmissionView,
    value: Seq<char>,
    identity: AuthenticatedIdentityView,
)
    ensures
        (AdmissionView { identities: admission.identities.push(value), ..admission }).admits(
            identity,
        ) <==> admission.admits(identity) || identity.value == value,
{
    broadcast use vstd::seq_lib::lemma_seq_contains_after_push;

}

/// To admit anyone admits every identity, and the hours stay as they are.
pub proof fn anyone_is_everyone_within_the_hours(
    admission: AdmissionView,
    identity: AuthenticatedIdentityView,
    at: int,
)
    ensures
        (AdmissionView { anyone: true, ..admission }).admits(identity),
        policy::answer(AdmissionView { anyone: true, ..admission }, identity, at) is Allowed
            <==> admission.open_at(at),
{
    let after = AdmissionView { anyone: true, ..admission };
    assert(after.hours == admission.hours);
    assert(after.inside_hours(at) == admission.inside_hours(at));
}

/// A Location that was only named holds its name and direction, and nothing else.
pub proof fn a_location_starts_with_its_name_alone(location: Seq<char>, direction: Direction)
    ensures
        ({
            let admission = AdmissionView::at(location, direction);
            &&& admission.location == location
            &&& admission.direction == direction
            &&& admission.parties.len() == 0
            &&& admission.identities.len() == 0
            &&& !admission.anyone
            &&& admission.hours.len() == 0
        }),
{
}

/// An identity is admitted exactly where anyone is, or the Party it resolved to
/// or the value on record is among those named: the hours, the Location's name
/// and the mechanism make no difference.
pub proof fn an_identity_is_admitted_by_party_or_value(
    admission: AdmissionView,
    identity: AuthenticatedIdentityView,
)
    ensures
        admission.admits(identity) <==> {
            ||| admission.anyone
            ||| exists|i: int|
                0 <= i < admission.parties.len() && identity.party_id == Some(
                    #[trigger] admission.parties[i],
                )
            ||| exists|i: int|
                0 <= i < admission.identities.len() && #[trigger] admission.identities[i]
                    == identity.value
        },
{
    if let Some(party) = identity.party_id {
        if admission.parties.contains(party) {
            let i = choose|i: int|
                0 <= i < admission.parties.len() && admission.parties[i] == party;
            assert(identity.party_id == Some(admission.parties[i]));
        }
    }
    if exists|i: int|
        0 <= i < admission.parties.len() && identity.party_id == Some(
            #[trigger] admission.parties[i],
        ) {
        let i = choose|i: int|
            0 <= i < admission.parties.len() && identity.party_id == Some(
                #[trigger] admission.parties[i],
            );
        assert(admission.parties.contains(admission.parties[i]));
    }
}

/// Two identifiers of Parties are equal exactly where they are written the same.
pub proof fn parties_are_equal_as_they_are_written(a: PartyId, b: PartyId)
    ensures
        a.is_eq(&b) <==> a@ == b@,
{
}

/// An identity stands for just what is on record of it.
pub proof fn an_identity_stands_for_its_record(identity: AuthenticatedIdentity)
    ensures
        identity@.mechanism == identity.mechanism@,
        identity@.value == identity.value@,
        identity.party_id is None <==> identity@.party_id is None,
        identity.party_id matches Some(party) ==> identity@.party_id == Some(party@),
{
}

/// An attempt stands for just what is on record of it.
pub proof fn an_attempt_stands_for_its_record(attempt: Attempt)
    ensures
        attempt@.action == attempt.action,
        attempt@.artifact == attempt.artifact@,
        attempt@.at == attempt.at,
{
}

/// A decision stands for what it says, and a missing one for no opinion.
pub proof fn a_decision_stands_for_what_it_says(decision: Decision)
    ensures
        attempt::opinion(None) is None,
        attempt::opinion(Some(decision)) == Some(decision@),
        decision is Allowed <==> decision@ is Allowed,
        decision matches Decision::Denied { by, reason } ==> decision@ == (DecisionView::Denied {
            by: by@,
            reason: reason@,
        }),
{
}

/// A denial in words gives the name of the policy and then its reason.
pub proof fn a_denial_in_words_gives_name_and_reason(by: Seq<char>, reason: Seq<char>)
    ensures
        attempt::denial_text(by, reason) == "denied by "@ + by + ": "@ + reason,
{
}

// The declarations.

/// The declaration consulted is the first for its name and direction; none is
/// consulted exactly where none was made.
pub proof fn the_first_declaration_is_consulted(
    admissions: Seq<AdmissionView>,
    artifact: Seq<char>,
    direction: Direction,
)
    ensures
        match policy::consulted(admissions, artifact, direction) {
            Some(admission) => exists|i: int|
                {
                    &&& 0 <= i < admissions.len()
                    &&& #[trigger] admissions[i] == admission
                    &&& admission.covers(artifact, direction)
                    &&& forall|j: int|
                        0 <= j < i ==> !(#[trigger] admissions[j]).covers(artifact, direction)
                },
            None => forall|i: int|
                0 <= i < admissions.len() ==> !(#[trigger] admissions[i]).covers(
                    artifact,
                    direction,
                ),
        },
    decreases admissions.len(),
{
    if admissions.len() > 0 {
        if admissions.first().covers(artifact, direction) {
            assert(admissions[0] == admissions.first());
        } else {
            let rest = admissions.drop_first();
            the_first_declaration_is_consulted(rest, artifact, direction);
            match policy::consulted(rest, artifact, direction) {
                Some(admission) => {
                    let k = choose|i: int|
                        {
                            &&& 0 <= i < rest.len()
                            &&& #[trigger] rest[i] == admission
                            &&& admission.covers(artifact, direction)
                            &&& forall|j: int|
                                0 <= j < i ==> !(#[trigger] rest[j]).covers(artifact, direction)
                        };
                    assert(admissions[k + 1] == admission);
                    assert forall|j: int| 0 <= j < k + 1 implies !(
                    #[trigger] admissions[j]).covers(artifact, direction) by {
                        if j > 0 {
                            assert(rest[j - 1] == admissions[j]);
                        }
                    }
                },
                None => {
                    assert forall|i: int| 0 <= i < admissions.len() implies !(
                    #[trigger] admissions[i]).covers(artifact, direction) by {
                        if i > 0 {
                            assert(rest[i - 1] == admissions[i]);
                        }
                    }
                },
            }
        }
    }
}

/// A further declaration is consulted only where none was before.
pub proof fn a_later_declaration_stands_behind_the_earlier(
    admissions: Seq<AdmissionView>,
    added: AdmissionView,
    artifact: Seq<char>,
    direction: Direction,
)
    ensures
        policy::consulted(admissions.push(added), artifact, direction) == (match policy::consulted(
            admissions,
            artifact,
            direction,
        ) {
            Some(admission) => Some(admission),
            None => if added.covers(artifact, direction) {
                Some(added)
            } else {
                None
            },
        }),
    decreases admissions.len(),
{
    let more = admissions.push(added);
    if admissions.len() == 0 {
        assert(more.first() == added);
        assert(more.drop_first() =~= Seq::empty());
        assert(policy::consulted(more.drop_first(), artifact, direction) is None);
    } else {
        assert(more.first() == admissions.first());
        assert(more.drop_first() =~= admissions.drop_first().push(added));
        a_later_declaration_stands_behind_the_earlier(
            admissions.drop_first(),
            added,
            artifact,
            direction,
        );
    }
}

/// An opinion the policy has is not changed by what is declared later.
pub proof fn an_opinion_outlives_later_declarations(
    admissions: Seq<AdmissionView>,
    added: AdmissionView,
    identity: IdentityFactsView,
    attempt: AttemptView,
)
    requires
        policy::decision(admissions, identity, attempt) is Some,
    ensures
        policy::decision(admissions.push(added), identity, attempt) == policy::decision(
            admissions,
            identity,
            attempt,
        ),
{
    if let Some(direction) = admission::direction_of(attempt.action) {
        a_later_declaration_stands_behind_the_earlier(
            admissions,
            added,
            attempt.artifact,
            direction,
        );
    }
}

/// A declaration touches no attempt but those on its own name and direction.
pub proof fn a_declaration_speaks_for_its_location_only(
    admissions: Seq<AdmissionView>,
    added: AdmissionView,
    identity: IdentityFactsView,
    attempt: AttemptView,
)
    requires
        added.location != attempt.artifact || admission::direction_of(attempt.action) != Some(
            added.direction,
        ),
    ensures
        policy::decision(admissions.push(added), identity, attempt) == policy::decision(
            admissions,
            identity,
            attempt,
        ),
{
    if let Some(direction) = admission::direction_of(attempt.action) {
        a_later_declaration_stands_behind_the_earlier(
            admissions,
            added,
            attempt.artifact,
            direction,
        );
    }
}

// The policy's word.

/// The policy speaks for the Locations it names and for nothing else: it has no
/// opinion exactly where the action is no Location's or no declaration was made
/// for the name and the direction.
pub proof fn the_policy_speaks_only_for_the_locations_it_names(
    admissions: Seq<AdmissionView>,
    identity: IdentityFactsView,
    attempt: AttemptView,
)
    ensures
        policy::decision(admissions, identity, attempt) is None <==> (match admission::direction_of(
            attempt.action,
        ) {
            None => true,
            Some(direction) => forall|i: int|
                0 <= i < admissions.len() ==> !(#[trigger] admissions[i]).covers(
                    attempt.artifact,
                    direction,
                ),
        }),
{
    if let Some(direction) = admission::direction_of(attempt.action) {
        the_first_declaration_is_consulted(admissions, attempt.artifact, direction);
    }
}

/// The identity judged is the transport identity: what else an attempt says of
/// who makes it makes no difference.
pub proof fn only_the_accountable_identity_is_judged(
    admissions: Seq<AdmissionView>,
    a: IdentityFactsView,
    b: IdentityFactsView,
    attempt: AttemptView,
)
    requires
        a.transport == b.transport,
    ensures
        policy::decision(admissions, a, attempt) == policy::decision(admissions, b, attempt),
{
}

/// An attempt is allowed exactly where the Location it is on was declared, is
/// open, and admits the transport identity.
pub proof fn allowed_means_declared_open_and_admitted(
    admissions: Seq<AdmissionView>,
    identity: IdentityFactsView,
    attempt: AttemptView,
)
    ensures
        policy::decision(admissions, identity, attempt) == Some(DecisionView::Allowed) <==> (
        match admission::direction_of(attempt.action) {
            None => false,
            Some(direction) => match policy::consulted(
                admissions,
                attempt.artifact,
                direction,
            ) {
                None => false,
                Some(admission) => admission.open_at(attempt.at) && admission.admits(
                    identity.transport,
                ),
            },
        }),
{
}

/// Every denial carries the name of the policy.
pub proof fn a_denial_carries_the_name(
    admissions: Seq<AdmissionView>,
    identity: IdentityFactsView,
    attempt: AttemptView,
)
    ensures
        policy::decision(admissions, identity, attempt) matches Some(
            DecisionView::Denied { by, reason },
        ) ==> by == "location"@,
{
}

/// An identity that resolved to no admitted Party and matches no admitted value
/// is refused by name: by the mechanism, the value and the Party, if any.
pub proof fn an_identity_not_admitted_is_refused_by_name(
    admission: AdmissionView,
    identity: AuthenticatedIdentityView,
    at: int,
)
    requires
        admission.open_at(at),
        !admission.anyone,
        identity.party_id matches Some(party) ==> !admission.parties.contains(party),
        !admission.identities.contains(identity.value),
    ensures
        policy::answer(admission, identity, at) == (DecisionView::Denied {
            by: NAME@,
            reason: policy::not_admitted_reason(admission.location, identity),
        }),
{
}

/// An action works in the direction of its Location: to receive in that of a
/// Receive Location, to send in that of a Send Location, to process in none.
pub proof fn an_action_works_in_its_own_direction(action: Action)
    ensures
        admission::direction_of(action) == Some(Direction::Receive) <==> action == Action::Receive,
        admission::direction_of(action) == Some(Direction::Send) <==> action == Action::Send,
        admission::direction_of(action) is None <==> action == Action::Process,
{
}

/// A declaration is the one for a name and a direction by these two alone,
/// whatever Parties, identities and hours it holds.
pub proof fn a_declaration_goes_by_name_and_direction(
    admission: AdmissionView,
    artifact: Seq<char>,
    direction: Direction,
)
    ensures
        admission.covers(artifact, direction) <==> admission.location == artifact
            && admission.direction == direction,
{
}

/// The policy has an opinion exactly where some declaration names the artifact
/// and works in the direction of the action, whatever else it declares.
pub proof fn a_declared_location_always_has_an_opinion(
    admissions: Seq<AdmissionView>,
    identity: IdentityFactsView,
    attempt: AttemptView,
)
    ensures
        policy::decision(admissions, identity, attempt) is Some <==> (exists|i: int|
            0 <= i < admissions.len() && (#[trigger] admissions[i]).location == attempt.artifact && (
            (admissions[i].direction == Direction::Receive && attempt.action == Action::Receive) || (
            admissions[i].direction == Direction::Send && attempt.action == Action::Send))),
{
    if let Some(direction) = admission::direction_of(attempt.action) {
        the_first_declaration_is_consulted(admissions, attempt.artifact, direction);
        if exists|i: int|
            0 <= i < admissions.len() && (#[trigger] admissions[i]).location == attempt.artifact && (
            (admissions[i].direction == Direction::Receive && attempt.action == Action::Receive) || (
            admissions[i].direction == Direction::Send && attempt.action == Action::Send)) {
            let i = choose|i: int|
                0 <= i < admissions.len() && (#[trigger] admissions[i]).location == attempt.artifact
                    && ((admissions[i].direction == Direction::Receive && attempt.action
                    == Action::Receive) || (admissions[i].direction == Direction::Send
                    && attempt.action == Action::Send));
            assert(admissions[i].covers(attempt.artifact, direction));
        }
    }
}

/// The policy's word on an attempt is that of the first declaration that names
/// the artifact and works in the direction of the action.
pub proof fn the_first_declaration_answers(
    admissions: Seq<AdmissionView>,
    first: int,
    identity: IdentityFactsView,
    attempt: AttemptView,
)
    requires
        0 <= first < admissions.len(),
        admissions[first].location == attempt.artifact,
        (admissions[first].direction == Direction::Receive && attempt.action == Action::Receive) || (
        admissions[first].direction == Direction::Send && attempt.action == Action::Send),
        forall|i: int|
            0 <= i < first ==> (#[trigger] admissions[i]).location != attempt.artifact
                || admissions[i].direction != admissions[first].direction,
    ensures
        policy::decision(admissions, identity, attempt) == Some(
            policy::answer(admissions[first], identity.transport, attempt.at),
        ),
    decreases first,
{
    if first > 0 {
        let rest = admissions.drop_first();
        assert(rest[first - 1] == admissions[first]);
        assert forall|i: int| 0 <= i < first - 1 implies (#[trigger] rest[i]).location
            != attempt.artifact || rest[i].direction != rest[first - 1].direction by {
            assert(rest[i] == admissions[i + 1]);
        }
        assert(admissions[0] == admissions.first());
        the_first_declaration_answers(rest, first - 1, identity, attempt);
    } else {
        assert(admissions[0] == admissions.first());
    }
}

/// A Location allows exactly the identities it admits, at the instants it is
/// open: by its windows and by whom it names.
pub proof fn a_location_allows_whom_it_admits_while_open(
    admission: AdmissionView,
    identity: AuthenticatedIdentityView,
    at: int,
)
    ensures
        policy::answer(admission, identity, at) is Allowed <==> {
            &&& admission.hours.len() == 0 || (exists|i: int|
                0 <= i < admission.hours.len() && (#[trigger] admission.hours[i]).answer(at)
                    == Some(true))
            &&& {
                ||| admission.anyone
                ||| exists|i: int|
                    0 <= i < admission.parties.len() && identity.party_id == Some(
                        #[trigger] admission.parties[i],
                    )
                ||| exists|i: int|
                    0 <= i < admission.identities.len() && #[trigger] admission.identities[i]
                        == identity.value
            }
        },
{
    a_location_is_open_by_its_windows_alone(admission, at);
    an_identity_is_admitted_by_party_or_value(admission, identity);
}

/// An identity an open Location does not admit is told the Location, the
/// mechanism and the value, and the Party where it resolved to one.
pub proof fn a_refusal_names_the_location_and_the_identity(
    admission: AdmissionView,
    identity: AuthenticatedIdentityView,
    at: int,
)
    requires
        admission.open_at(at),
        !admission.admits(identity),
    ensures
        policy::answer(admission, identity, at) matches DecisionView::Denied { by, reason } && by
            == "location"@ && (match identity.party_id {
            None => reason == "'"@ + admission.location + "' does not admit "@ + identity.mechanism
                + "="@ + identity.value,
            Some(party) => reason == "'"@ + admission.location + "' does not admit "@
                + identity.mechanism + "="@ + identity.value + (", resolved to Party "@ + party),
        }),
{
    let start = "'"@ + admission.location + "' does not admit "@ + identity.mechanism + "="@
        + identity.value;
    assert(start + Seq::<char>::empty() =~= start);
}

} // verus!
