//! The cyclic seven-valued day-of-week enumeration.

use vstd::prelude::*;

verus! {

/// A day of the week, cycling Monday through Sunday.
#[derive(Clone, Copy, Debug, PartialEq, Eq, Structural)]
pub enum Weekday {
    Monday,
    Tuesday,
    Wednesday,
    Thursday,
    Friday,
    Saturday,
    Sunday,
}

/// The position of a weekday in the Monday-first week, 0 through 6.
pub open spec fn day_index(w: Weekday) -> int {
    match w {
        Weekday::Monday => 0,
        Weekday::Tuesday => 1,
        Weekday::Wednesday => 2,
        Weekday::Thursday => 3,
        Weekday::Friday => 4,
        Weekday::Saturday => 5,
        Weekday::Sunday => 6,
    }
}

/// The weekday at a given Monday-first position.
pub open spec fn weekday_at(i: int) -> Weekday {
    if i == 0 {
        Weekday::Monday
    } else if i == 1 {
        Weekday::Tuesday
    } else if i == 2 {
        Weekday::Wednesday
    } else if i == 3 {
        Weekday::Thursday
    } else if i == 4 {
        Weekday::Friday
    } else if i == 5 {
        Weekday::Saturday
    } else {
        Weekday::Sunday
    }
}

impl Weekday {
    /// The weekday one day earlier, wrapping from Monday back to Sunday.
    pub fn previous(self) -> (r: Weekday)
        ensures
            day_index(r) == (day_index(self) + 6) % 7,
    {
        match self {
            Weekday::Monday => Weekday::Sunday,
            Weekday::Tuesday => Weekday::Monday,
            Weekday::Wednesday => Weekday::Tuesday,
            Weekday::Thursday => Weekday::Wednesday,
            Weekday::Friday => Weekday::Thursday,
            Weekday::Saturday => Weekday::Friday,
            Weekday::Sunday => Weekday::Saturday,
        }
    }

    /// The weekday one day later, wrapping from Sunday to Monday.
    pub fn next(self) -> (r: Weekday)
        ensures
            day_index(r) == (day_index(self) + 1) % 7,
    {
        match self {
            Weekday::Monday => Weekday::Tuesday,
            Weekday::Tuesday => Weekday::Wednesday,
            Weekday::Wednesday => Weekday::Thursday,
            Weekday::Thursday => Weekday::Friday,
            Weekday::Friday => Weekday::Saturday,
            Weekday::Saturday => Weekday::Sunday,
            Weekday::Sunday => Weekday::Monday,
        }
    }

    /// The day's number in the Monday-first week, Monday being 1.
    pub fn number_from_monday(self) -> (r: u8)
        ensures
            r == day_index(self) + 1,
    {
        match self {
            Weekday::Monday => 1,
            Weekday::Tuesday => 2,
            Weekday::Wednesday => 3,
            Weekday::Thursday => 4,
            Weekday::Friday => 5,
            Weekday::Saturday => 6,
            Weekday::Sunday => 7,
        }
    }

    /// How many days the day lies after Monday, Monday being 0.
    pub fn number_days_from_monday(self) -> (r: u8)
        ensures
            r == day_index(self),
    {
        match self {
            Weekday::Monday => 0,
            Weekday::Tuesday => 1,
            Weekday::Wednesday => 2,
            Weekday::Thursday => 3,
            Weekday::Friday => 4,
            Weekday::Saturday => 5,
            Weekday::Sunday => 6,
        }
    }
}

/// Stepping back one day in the cycle, as a value-level function.
pub open spec fn previous_spec(w: Weekday) -> Weekday {
    weekday_at((day_index(w) + 6) % 7)
}

/// Going to the previous weekday seven times returns the original weekday:
/// the rotation is cyclic with period seven.
pub proof fn lemma_previous_seven_times_is_identity(w: Weekday)
    ensures
        previous_spec(
            previous_spec(
                previous_spec(
                    previous_spec(previous_spec(previous_spec(previous_spec(w)))),
                ),
            ),
        ) == w,
{
}

} // verus!
