//! The hours a Location keeps: a daily window on the days it applies.
//!
//! Wall-clock time is UTC, because the attempt carries unix nanoseconds and
//! nothing else; a deployment that keeps local hours states them in UTC. An
//! attempt that does not say when it is made is inside no window at all: a gap
//! in the record is not a pass.
//!
//! The day and the time of day of an instant are those of the second it lies in.

use std::cmp::Ordering;

use vstd::prelude::*;
use vstd::string::StringExecFns;

use crate::civil;
use crate::text;

verus! {

/// Seconds in one day.
pub const DAY: i128 = 86_400;

/// Nanoseconds in one second.
pub const SECOND: i128 = 1_000_000_000;

/// The second an instant lies in, counted from the epoch.
pub open spec fn whole_seconds(unix_nanos: int) -> int {
    unix_nanos / SECOND as int
}

/// The day of an instant, counted from the first of January 1970.
pub open spec fn day_number(unix_nanos: int) -> int {
    whole_seconds(unix_nanos) / DAY as int
}

/// The seconds an instant lies behind the midnight before it.
pub open spec fn second_of_day(unix_nanos: int) -> int {
    whole_seconds(unix_nanos) % DAY as int
}

/// The weekday of a number, Monday being zero.
pub open spec fn weekday_named(number: int) -> Weekday {
    if number == 0 {
        Weekday::Monday
    } else if number == 1 {
        Weekday::Tuesday
    } else if number == 2 {
        Weekday::Wednesday
    } else if number == 3 {
        Weekday::Thursday
    } else if number == 4 {
        Weekday::Friday
    } else if number == 5 {
        Weekday::Saturday
    } else {
        Weekday::Sunday
    }
}

/// The weekday of an instant.
pub open spec fn weekday_at(unix_nanos: int) -> Weekday {
    weekday_named(civil::weekday_number(day_number(unix_nanos)))
}

/// The time of day that a text reads as, in seconds behind midnight: an hour and
/// a minute, with or without a second, as numbers set apart by colons. White
/// space around the whole is passed over.
pub open spec fn time_of_day(s: Seq<char>) -> Option<nat> {
    let parts = text::split(text::trim(s), ':');
    if parts.len() == 2 {
        clock_seconds(text::number(parts[0]), text::number(parts[1]), Some(0))
    } else if parts.len() == 3 {
        clock_seconds(text::number(parts[0]), text::number(parts[1]), text::number(parts[2]))
    } else {
        None
    }
}

/// The seconds behind midnight of an hour, a minute and a second, where all
/// three are there and a twenty-four hour clock shows them.
pub open spec fn clock_seconds(
    hour: Option<u32>,
    minute: Option<u32>,
    second: Option<u32>,
) -> Option<nat> {
    match (hour, minute, second) {
        (Some(h), Some(m), Some(s)) => if h <= 23 && m <= 59 && s <= 59 {
            Some((h * 3600 + m * 60 + s) as nat)
        } else {
            None
        },
        _ => None,
    }
}

/// A time of day in hours and minutes, `HH:MM`.
pub open spec fn hours_and_minutes(seconds: nat) -> Seq<char> {
    text::two_digits((seconds / 3600) as int) + ":"@ + text::two_digits(((seconds / 60) % 60) as int)
}

/// What is said of a text that is no time of day.
pub open spec fn not_a_time(s: Seq<char>) -> Seq<char> {
    "'"@ + s + "' is not a time of day as HH:MM"@
}

/// The text does not state an hour.
#[derive(Clone, Debug, PartialEq, Eq)]
pub struct WindowError {
    message: String,
}

impl View for WindowError {
    type V = Seq<char>;

    closed spec fn view(&self) -> Seq<char> {
        self.message@
    }
}

impl WindowError {
    /// An error that says `message`.
    #[must_use]
    pub fn new(message: String) -> (r: Self)
        ensures
            r@ == message@,
    {
        WindowError { message }
    }

    /// What the error says.
    #[must_use]
    pub fn to_string(&self) -> (r: String)
        ensures
            r@ == self@,
    {
        self.message.clone()
    }
}

/// A day of the week, Monday first.
#[derive(Clone, Copy, Debug, PartialEq, Eq, Structural)]
pub enum Weekday {
    Monday,
    Tuesday,
    Wednesday,
    Thursday,
    Friday,
    Saturday,
    Sunday,
}

/// The day an instant falls on and the second of that day.
fn day_and_second(unix_nanos: i128) -> (r: (i128, u32))
    ensures
        r.0 == day_number(unix_nanos as int),
        r.1 == second_of_day(unix_nanos as int),
        r.1 < DAY,
{
    let toward_epoch: i128 = unix_nanos / SECOND;
    let seconds: i128 = if unix_nanos % SECOND < 0 {
        toward_epoch - 1
    } else {
        toward_epoch
    };
    let rest: i128 = seconds % DAY;
    let second: i128 = if rest < 0 {
        rest + DAY
    } else {
        rest
    };
    ((seconds - second) / DAY, second as u32)
}

impl Weekday {
    /// The day an instant in unix nanoseconds falls on, UTC, by the civil
    /// calendar's weekday.
    #[must_use]
    pub fn of(unix_nanos: i128) -> (r: Self)
        ensures
            r == weekday_at(unix_nanos as int),
    {
        let (day, _) = day_and_second(unix_nanos);
        match civil::weekday(day) {
            0 => Self::Monday,
            1 => Self::Tuesday,
            2 => Self::Wednesday,
            3 => Self::Thursday,
            4 => Self::Friday,
            5 => Self::Saturday,
            _ => Self::Sunday,
        }
    }

    /// The bit that stands for the day in a set of days.
    pub open spec fn spec_bit(self) -> u8 {
        match self {
            Weekday::Monday => 0b000_0001,
            Weekday::Tuesday => 0b000_0010,
            Weekday::Wednesday => 0b000_0100,
            Weekday::Thursday => 0b000_1000,
            Weekday::Friday => 0b001_0000,
            Weekday::Saturday => 0b010_0000,
            Weekday::Sunday => 0b100_0000,
        }
    }

    /// The bit that stands for the day in a set of days.
    #[must_use]
    pub fn bit(self) -> (r: u8)
        ensures
            r == self.spec_bit(),
    {
        match self {
            Self::Monday => 0b000_0001,
            Self::Tuesday => 0b000_0010,
            Self::Wednesday => 0b000_0100,
            Self::Thursday => 0b000_1000,
            Self::Friday => 0b001_0000,
            Self::Saturday => 0b010_0000,
            Self::Sunday => 0b100_0000,
        }
    }
}

/// A time of day, to the second, UTC. Seen as the seconds behind midnight.
#[derive(Clone, Copy, Debug, PartialEq, Eq, Structural, Ord)]
pub struct Moment {
    seconds: u32,
}

impl View for Moment {
    type V = nat;

    closed spec fn view(&self) -> nat {
        self.seconds as nat
    }
}

/// A time of day is known by its seconds alone.
pub proof fn moment_is_its_seconds(a: Moment, b: Moment)
    ensures
        a == b <==> a@ == b@,
{
}

impl PartialOrd for Moment {
    fn partial_cmp(&self, other: &Self) -> (r: Option<Ordering>) {
        if self.seconds < other.seconds {
            Some(Ordering::Less)
        } else if self.seconds > other.seconds {
            Some(Ordering::Greater)
        } else {
            Some(Ordering::Equal)
        }
    }
}

impl vstd::std_specs::cmp::PartialOrdSpecImpl for Moment {
    open spec fn obeys_partial_cmp_spec() -> bool {
        true
    }

    open spec fn partial_cmp_spec(&self, other: &Self) -> Option<Ordering> {
        if self@ < other@ {
            Some(Ordering::Less)
        } else if self@ > other@ {
            Some(Ordering::Greater)
        } else {
            Some(Ordering::Equal)
        }
    }
}

impl Moment {
    #[verifier::type_invariant]
    spec fn within_a_day(self) -> bool {
        self.seconds < DAY
    }

    /// `HH:MM` or `HH:MM:SS`, twenty-four hour.
    ///
    /// # Errors
    ///
    /// When the text is not a time of day.
    pub fn parse(text: &str) -> (r: Result<Self, WindowError>)
        ensures
            match r {
                Ok(moment) => time_of_day(text@) == Some(moment@),
                Err(error) => time_of_day(text@) is None && error@ == not_a_time(text@),
            },
    {
        let chars: Vec<char> = text::chars_of(text);
        let (from, to) = text::trim_bounds(&chars);
        let parts: Vec<Vec<char>> = text::split_at(&chars, from, to, ':');
        let ghost split = text::split(text::trim(text@), ':');
        assert(text::rows(parts@) == split);
        if parts.len() == 2 || parts.len() == 3 {
            assert(split[0] == parts@[0]@ && split[1] == parts@[1]@);
            let hour: Option<u32> = text::read_number(&parts[0]);
            let minute: Option<u32> = text::read_number(&parts[1]);
            let second: Option<u32> = if parts.len() == 3 {
                assert(split[2] == parts@[2]@);
                text::read_number(&parts[2])
            } else {
                Some(0)
            };
            if let (Some(h), Some(m), Some(s)) = (hour, minute, second) {
                if h <= 23 && m <= 59 && s <= 59 {
                    return Ok(Moment { seconds: h * 3600 + m * 60 + s });
                }
            }
        }
        let mut message: String = String::from_str("'");
        message.append(text);
        message.append("' is not a time of day as HH:MM");
        Err(WindowError::new(message))
    }

    /// The time of day an instant in unix nanoseconds falls at, UTC. `None`
    /// for zero, which is the record's word for "unrecorded".
    #[must_use]
    pub fn of(unix_nanos: i128) -> (r: Option<Self>)
        ensures
            match r {
                Some(moment) => unix_nanos != 0 && moment@ == second_of_day(unix_nanos as int),
                None => unix_nanos == 0,
            },
    {
        if unix_nanos == 0 {
            return None;
        }
        let (_, seconds) = day_and_second(unix_nanos);
        Some(Moment { seconds })
    }

    /// The hours and minutes, `HH:MM`.
    #[must_use]
    pub fn to_string(&self) -> (r: String)
        ensures
            self@ < DAY,
            r@ == hours_and_minutes(self@),
    {
        proof {
            use_type_invariant(self);
        }
        let mut out: String = String::new();
        text::push_two_digits(&mut out, self.seconds / 3600);
        out.append(":");
        text::push_two_digits(&mut out, (self.seconds / 60) % 60);
        assert(out@ =~= hours_and_minutes(self@));
        out
    }
}

/// What a window stands for: the second of the day it opens at, the second it
/// closes at, and the days it applies on.
pub struct WindowView {
    pub from: nat,
    pub to: nat,
    pub days: Set<Weekday>,
}

impl WindowView {
    /// Whether a second of the day lies in the window: from its opening on, up
    /// to its closing, past midnight where it opens later in the day than it
    /// closes.
    pub open spec fn covers(self, second: int) -> bool {
        if self.from <= self.to {
            self.from <= second < self.to
        } else {
            self.from <= second || second < self.to
        }
    }

    /// Whether an instant, taken as recorded, is inside the window.
    pub open spec fn holds(self, unix_nanos: int) -> bool {
        self.days.contains(weekday_at(unix_nanos)) && self.covers(second_of_day(unix_nanos))
    }

    /// What the window answers to an instant, zero being an unrecorded one.
    pub open spec fn answer(self, unix_nanos: int) -> Option<bool> {
        if unix_nanos == 0 {
            None
        } else {
            Some(self.holds(unix_nanos))
        }
    }

    /// The window in hours and minutes, `HH:MM-HH:MM`.
    pub open spec fn written(self) -> Seq<char> {
        hours_and_minutes(self.from) + "-"@ + hours_and_minutes(self.to)
    }
}

/// One daily window, `from` inclusive to `to` exclusive, on the days it
/// applies. A window whose `from` is after its `to` runs overnight.
#[derive(Debug, PartialEq, Eq, Structural)]
pub struct Window {
    from: Moment,
    to: Moment,
    days: u8,
}

impl Clone for Window {
    fn clone(&self) -> (r: Self)
        ensures
            r == *self,
    {
        proof {
            use_type_invariant(self);
        }
        Window { from: self.from, to: self.to, days: self.days }
    }
}

impl View for Window {
    type V = WindowView;

    closed spec fn view(&self) -> WindowView {
        WindowView {
            from: self.from@,
            to: self.to@,
            days: Set::new(|day: Weekday| self.days & day.spec_bit() != 0),
        }
    }
}

/// The place of a day in the week, Monday being zero.
pub open spec fn place_in_week(day: Weekday) -> nat {
    match day {
        Weekday::Monday => 0,
        Weekday::Tuesday => 1,
        Weekday::Wednesday => 2,
        Weekday::Thursday => 3,
        Weekday::Friday => 4,
        Weekday::Saturday => 5,
        Weekday::Sunday => 6,
    }
}

/// The bit of a day is the power of two at its place in the week, so below 128.
pub proof fn a_days_bit_is_a_power_of_two(day: Weekday)
    ensures
        day.spec_bit() == vstd::arithmetic::power2::pow2(place_in_week(day)),
        day.spec_bit() < 128,
{
    vstd::arithmetic::power2::lemma2_to64();
}

/// The bits of the seven days together are all seven bits.
pub proof fn the_bits_of_the_week_together()
    ensures
        Weekday::Monday.spec_bit() | Weekday::Tuesday.spec_bit() | Weekday::Wednesday.spec_bit()
            | Weekday::Thursday.spec_bit() | Weekday::Friday.spec_bit()
            | Weekday::Saturday.spec_bit() | Weekday::Sunday.spec_bit() == 0b111_1111,
{
    assert(1u8 | 2u8 | 4u8 | 8u8 | 16u8 | 32u8 | 64u8 == 0b111_1111u8) by (bit_vector);
}

/// The bits of two days meet exactly where the days are the same.
pub proof fn bits_of_different_days_do_not_meet(a: Weekday, b: Weekday)
    ensures
        a.spec_bit() & b.spec_bit() == 0 <==> a != b,
{
    let x = a.spec_bit();
    let y = b.spec_bit();
    assert((x & y != 0) <==> x == y) by (bit_vector)
        requires
            x == 1u8 || x == 2u8 || x == 4u8 || x == 8u8 || x == 16u8 || x == 32u8 || x == 64u8,
            y == 1u8 || y == 2u8 || y == 4u8 || y == 8u8 || y == 16u8 || y == 32u8 || y == 64u8,
    ;
}

/// Two windows are equal exactly where they stand for the same hours on the same
/// days.
pub proof fn a_window_is_what_it_stands_for(a: Window, b: Window)
    requires
        a.seven_days(),
        b.seven_days(),
    ensures
        a == b <==> a@ == b@,
{
    if a@ == b@ {
        moment_is_its_seconds(a.from, b.from);
        moment_is_its_seconds(a.to, b.to);
        let x = a.days;
        let y = b.days;
        assert forall|day: Weekday|
            (x & #[trigger] day.spec_bit() != 0) <==> (y & day.spec_bit() != 0) by {
            assert(a@.days.contains(day) <==> b@.days.contains(day));
        }
        assert((x & 1 != 0) <==> (y & 1 != 0)) by {
            assert(Weekday::Monday.spec_bit() == 1);
        }
        assert((x & 2 != 0) <==> (y & 2 != 0)) by {
            assert(Weekday::Tuesday.spec_bit() == 2);
        }
        assert((x & 4 != 0) <==> (y & 4 != 0)) by {
            assert(Weekday::Wednesday.spec_bit() == 4);
        }
        assert((x & 8 != 0) <==> (y & 8 != 0)) by {
            assert(Weekday::Thursday.spec_bit() == 8);
        }
        assert((x & 16 != 0) <==> (y & 16 != 0)) by {
            assert(Weekday::Friday.spec_bit() == 16);
        }
        assert((x & 32 != 0) <==> (y & 32 != 0)) by {
            assert(Weekday::Saturday.spec_bit() == 32);
        }
        assert((x & 64 != 0) <==> (y & 64 != 0)) by {
            assert(Weekday::Sunday.spec_bit() == 64);
        }
        assert(x == y) by (bit_vector)
            requires
                x < 128,
                y < 128,
                (x & 1 != 0) <==> (y & 1 != 0),
                (x & 2 != 0) <==> (y & 2 != 0),
                (x & 4 != 0) <==> (y & 4 != 0),
                (x & 8 != 0) <==> (y & 8 != 0),
                (x & 16 != 0) <==> (y & 16 != 0),
                (x & 32 != 0) <==> (y & 32 != 0),
                (x & 64 != 0) <==> (y & 64 != 0),
        ;
    }
}

impl Window {
    /// The set of days holds no bit but those of the seven days.
    #[verifier::type_invariant]
    pub closed spec fn seven_days(self) -> bool {
        self.days < 128
    }

    /// Every day between two times.
    #[must_use]
    pub fn between(from: Moment, to: Moment) -> (r: Self)
        ensures
            r.seven_days(),
            r@ == (WindowView { from: from@, to: to@, days: Set::full() }),
    {
        let window = Window { from, to, days: 0b111_1111 };
        proof {
            assert forall|day: Weekday| window@.days.contains(day) by {
                let bit = day.spec_bit();
                assert(0b111_1111u8 & bit != 0) by (bit_vector)
                    requires
                        bit == 1u8 || bit == 2u8 || bit == 4u8 || bit == 8u8 || bit == 16u8 || bit
                            == 32u8 || bit == 64u8,
                ;
            }
            assert(window@.days =~= Set::full());
        }
        window
    }

    /// Only on these days. The day is the attempt's, UTC, which for an
    /// overnight window is the day the attempt falls on rather than the day
    /// the window opened.
    #[must_use]
    pub fn on(self, days: &[Weekday]) -> (r: Self)
        ensures
            r.seven_days(),
            r@ == (WindowView { days: days@.to_set(), ..self@ }),
    {
        let mut mask: u8 = 0;
        let mut i: usize = 0;
        assert forall|day: Weekday| mask & #[trigger] day.spec_bit() == 0 by {
            let bit = day.spec_bit();
            assert(0u8 & bit == 0) by (bit_vector);
        }
        while i < days.len()
            invariant
                i <= days@.len(),
                mask < 128,
                forall|day: Weekday|
                    (mask & #[trigger] day.spec_bit() != 0) <==> days@.take(i as int).contains(day),
            decreases days@.len() - i,
        {
            let added: u8 = days[i].bit();
            let ghost before = mask;
            mask = mask | added;
            proof {
                a_days_bit_is_a_power_of_two(days@[i as int]);
                assert(before | added < 128) by (bit_vector)
                    requires
                        before < 128,
                        added < 128,
                ;
                assert(days@.take(i + 1) =~= days@.take(i as int).push(days@[i as int]));
                assert forall|day: Weekday|
                    (mask & #[trigger] day.spec_bit() != 0) <==> days@.take(i + 1).contains(
                        day,
                    ) by {
                    let bit = day.spec_bit();
                    assert(((before | added) & bit != 0) <==> (before & bit != 0 || added & bit
                        != 0)) by (bit_vector);
                    bits_of_different_days_do_not_meet(days@[i as int], day);
                    vstd::seq_lib::lemma_seq_contains_after_push(
                        days@.take(i as int),
                        days@[i as int],
                        day,
                    );
                }
            }
            i = i + 1;
        }
        assert(days@.take(days@.len() as int) =~= days@);
        let window = Window { from: self.from, to: self.to, days: mask };
        assert(window@.days =~= days@.to_set());
        window
    }

    /// Whether an instant is inside this window. `None` when the instant is
    /// unrecorded, which is a different answer from closed.
    #[must_use]
    pub fn admits(&self, unix_nanos: i128) -> (r: Option<bool>)
        ensures
            r == self@.answer(unix_nanos as int),
    {
        let moment: Moment = match Moment::of(unix_nanos) {
            Some(moment) => moment,
            None => {
                return None;
            },
        };
        let weekday: Weekday = Weekday::of(unix_nanos);
        let bit: u8 = weekday.bit();
        let days: u8 = self.days;
        assert(bit & days == days & bit) by (bit_vector);
        let today: bool = bit & days != 0;
        let inside: bool = if self.from <= self.to {
            self.from <= moment && moment < self.to
        } else {
            self.from <= moment || moment < self.to
        };
        Some(today && inside)
    }

    /// The hours and minutes it opens and closes at, `HH:MM-HH:MM`.
    #[must_use]
    pub fn to_string(&self) -> (r: String)
        ensures
            self.seven_days(),
            self@.from < DAY,
            self@.to < DAY,
            r@ == self@.written(),
    {
        proof {
            use_type_invariant(self);
        }
        let mut out: String = self.from.to_string();
        out.append("-");
        let to: String = self.to.to_string();
        out.append(to.as_str());
        out
    }
}

} // verus!
