//! Clock times as minutes since midnight.

use vstd::prelude::*;
use vstd::string::StringExecFns;

verus! {

/// The decimal digit character for `d` in `0..10`.
pub open spec fn digit_char(d: int) -> char {
    if d == 0 {
        '0'
    } else if d == 1 {
        '1'
    } else if d == 2 {
        '2'
    } else if d == 3 {
        '3'
    } else if d == 4 {
        '4'
    } else if d == 5 {
        '5'
    } else if d == 6 {
        '6'
    } else if d == 7 {
        '7'
    } else if d == 8 {
        '8'
    } else {
        '9'
    }
}

/// The hour as printed on a 12-hour clock face: one digit, or two for
/// ten through twelve.
pub open spec fn hour_chars(h: int) -> Seq<char> {
    if h >= 10 {
        seq![digit_char(h / 10), digit_char(h % 10)]
    } else {
        seq![digit_char(h)]
    }
}

/// The exact text of the 12-hour rendering of a time `total` minutes past
/// midnight: the clock-face hour (midnight and noon print as 12), a colon,
/// the zero-padded minutes, and an AM/PM suffix.
pub open spec fn twelve_hour_chars(total: int) -> Seq<char> {
    let h24 = (total / 60) % 24;
    let m = total % 60;
    let h12 = if h24 % 12 == 0 {
        12int
    } else {
        h24 % 12
    };
    hour_chars(h12) + seq![':', digit_char(m / 10), digit_char(m % 10)] + (if h24 < 12 {
        seq![' ', 'A', 'M']
    } else {
        seq![' ', 'P', 'M']
    })
}

/// The single-character text of a decimal digit.
fn digit_str(d: u32) -> (r: &'static str)
    requires
        d < 10,
    ensures
        r@ == seq![digit_char(d as int)],
{
    let r: &'static str = if d == 0 {
        "0"
    } else if d == 1 {
        "1"
    } else if d == 2 {
        "2"
    } else if d == 3 {
        "3"
    } else if d == 4 {
        "4"
    } else if d == 5 {
        "5"
    } else if d == 6 {
        "6"
    } else if d == 7 {
        "7"
    } else if d == 8 {
        "8"
    } else {
        "9"
    };
    proof {
        reveal_strlit("0");
        reveal_strlit("1");
        reveal_strlit("2");
        reveal_strlit("3");
        reveal_strlit("4");
        reveal_strlit("5");
        reveal_strlit("6");
        reveal_strlit("7");
        reveal_strlit("8");
        reveal_strlit("9");
        assert(r@ =~= seq![digit_char(d as int)]);
    }
    r
}

/// A clock time, stored as a total count of minutes since midnight.
///
/// Values normally lie in `[0, 1440]`, where `1440` (`Time::end_of_day()`)
/// is a reserved sentinel meaning "end of day": an exclusive upper bound,
/// never a real moment. Construction stores the given count verbatim;
/// range checking happens downstream, in validation.
#[derive(Debug, Clone, Copy, PartialEq, Eq, Structural)]
pub struct Time {
    /// Total minutes since midnight.
    pub total_mins: u32,
}

impl View for Time {
    type V = int;

    open spec fn view(&self) -> int {
        self.total_mins as int
    }
}

impl Time {
    /// Builds a time from a total count of minutes, stored verbatim.
    pub fn new(total_mins: u32) -> (t: Time)
        ensures
            t@ == total_mins as int,
    {
        Time { total_mins }
    }

    /// Midnight, the start of the day (zero minutes).
    pub fn midnight() -> (t: Time)
        ensures
            t@ == 0,
    {
        Time { total_mins: 0 }
    }

    /// The end-of-day sentinel: 1440 minutes, one past the last real minute.
    pub fn end_of_day() -> (t: Time)
        ensures
            t@ == 1440,
    {
        Time { total_mins: 1440 }
    }

    /// The hour component, `total / 60`.
    pub fn hours(&self) -> (h: u32)
        ensures
            h == self@ / 60,
    {
        self.total_mins / 60
    }

    /// The minute component, `total % 60`.
    pub fn mins(&self) -> (m: u32)
        ensures
            m == self@ % 60,
    {
        self.total_mins % 60
    }

    /// Returns a new time shifted forward by `minutes`: the unclamped sum.
    ///
    /// Callers generating breakpoint sequences may step past the end-of-day
    /// sentinel before stopping; the type itself never wraps silently.
    pub fn add(&self, minutes: u32) -> (t: Time)
        requires
            self@ + minutes <= u32::MAX,
        ensures
            t@ == self@ + minutes,
    {
        Time { total_mins: self.total_mins + minutes }
    }

    /// Renders the time on a 12-hour clock with an AM/PM suffix, for the
    /// schedule-preview output; never used in comparisons.
    pub fn twelve_hour(&self) -> (r: String)
        ensures
            r@ == twelve_hour_chars(self@),
    {
        let h24: u32 = (self.total_mins / 60) % 24;
        let m: u32 = self.total_mins % 60;
        let h12: u32 = if h24 % 12 == 0 {
            12
        } else {
            h24 % 12
        };
        let mut out: String = String::new();
        if h12 >= 10 {
            out.append(digit_str(h12 / 10));
            out.append(digit_str(h12 % 10));
        } else {
            out.append(digit_str(h12));
        }
        out.append(":");
        out.append(digit_str(m / 10));
        out.append(digit_str(m % 10));
        if h24 < 12 {
            out.append(" AM");
        } else {
            out.append(" PM");
        }
        proof {
            reveal_strlit(":");
            reveal_strlit(" AM");
            reveal_strlit(" PM");
            assert(out@ =~= twelve_hour_chars(self@));
        }
        out
    }
}

impl Default for Time {
    /// The default time is midnight.
    fn default() -> (t: Time)
        ensures
            t@ == 0,
    {
        Time { total_mins: 0 }
    }
}

impl PartialOrd for Time {
    /// Times are ordered by their total minute count alone.
    fn partial_cmp(&self, other: &Time) -> (r: Option<core::cmp::Ordering>) {
        if self.total_mins < other.total_mins {
            Some(core::cmp::Ordering::Less)
        } else if self.total_mins == other.total_mins {
            Some(core::cmp::Ordering::Equal)
        } else {
            Some(core::cmp::Ordering::Greater)
        }
    }
}

impl vstd::std_specs::cmp::PartialOrdSpecImpl for Time {
    open spec fn obeys_partial_cmp_spec() -> bool {
        true
    }

    open spec fn partial_cmp_spec(&self, other: &Time) -> Option<core::cmp::Ordering> {
        if self@ < other@ {
            Some(core::cmp::Ordering::Less)
        } else if self@ == other@ {
            Some(core::cmp::Ordering::Equal)
        } else {
            Some(core::cmp::Ordering::Greater)
        }
    }
}

} // verus!
