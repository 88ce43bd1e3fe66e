//! One tick's wall-clock coordinates: the five fields a cron schedule is
//! matched against, sampled from the local clock once per minute.

use vstd::prelude::*;

use crate::text::push_hex_digit;
use vstd::string::StringExecFns;

verus! {

/// The five schedule coordinates of one minute tick.
///
/// `dom` (day of month) and `mon` (month) are 1-based as on a calendar;
/// `dow` counts days of the week from 0 = Sunday.
#[derive(Clone, Copy, Debug)]
pub struct Point {
    pub min: u8,
    pub hour: u8,
    pub dom: u8,
    pub mon: u8,
    pub dow: u8,
}

impl Point {
    /// Every field lies in its calendar range.
    pub open spec fn wf(self) -> bool {
        &&& self.min < 60
        &&& self.hour < 24
        &&& 1 <= self.dom <= 31
        &&& 1 <= self.mon <= 12
        &&& self.dow < 7
    }

    /// The current local time as schedule coordinates.
    pub fn now() -> (p: Point)
        ensures
            p.wf(),
    {
        let (min, hour, dom, mon, dow_from_sunday) = clock_fields();
        Point { min, hour, dom, mon, dow: dow_from_sunday - 1 }
    }

    /// The current second within the local minute, for aligning the tick
    /// loop to minute boundaries.
    #[verifier::external_body]
    pub fn get_secs() -> (s: u64)
        ensures
            s < 60,
    {
        let dt = chrono::Local::now();
        chrono::Timelike::second(&dt) as u64
    }

    /// Renders the tick as the human-readable report timestamp.
    pub fn timestamp(&self) -> (r: String)
        requires
            self.wf(),
        ensures
            r@ == timestamp_chars(*self),
    {
        let mut s = String::new();
        match self.dow {
            0 => s.append("Sun"),
            1 => s.append("Mon"),
            2 => s.append("Tue"),
            3 => s.append("Wed"),
            4 => s.append("Thu"),
            5 => s.append("Fri"),
            6 => s.append("Sat"),
            _ => s.append("WTF"),
        }
        s.append(" ");
        match self.mon {
            1 => s.append("Jan"),
            2 => s.append("Feb"),
            3 => s.append("Mar"),
            4 => s.append("Apr"),
            5 => s.append("May"),
            6 => s.append("Jun"),
            7 => s.append("Jul"),
            8 => s.append("Aug"),
            9 => s.append("Sep"),
            10 => s.append("Oct"),
            11 => s.append("Nov"),
            12 => s.append("Dec"),
            _ => s.append("LOL"),
        }
        s.append(" ");
        if self.dom < 10 {
            push_hex_digit(&mut s, self.dom);
        } else {
            push_hex_digit(&mut s, self.dom / 10);
            push_hex_digit(&mut s, self.dom % 10);
        }
        s.append(" ");
        push_hex_digit(&mut s, self.hour / 10);
        push_hex_digit(&mut s, self.hour % 10);
        s.append(":");
        push_hex_digit(&mut s, self.min / 10);
        push_hex_digit(&mut s, self.min % 10);
        proof {
            assert(s@ =~= timestamp_chars(*self));
        }
        s
    }
}

/// The short weekday name the report timestamp uses.
pub open spec fn dow_name(d: int) -> Seq<char> {
    if d == 0 {
        "Sun"@
    } else if d == 1 {
        "Mon"@
    } else if d == 2 {
        "Tue"@
    } else if d == 3 {
        "Wed"@
    } else if d == 4 {
        "Thu"@
    } else if d == 5 {
        "Fri"@
    } else if d == 6 {
        "Sat"@
    } else {
        "WTF"@
    }
}

/// The short month name the report timestamp uses.
pub open spec fn mon_name(m: int) -> Seq<char> {
    if m == 1 {
        "Jan"@
    } else if m == 2 {
        "Feb"@
    } else if m == 3 {
        "Mar"@
    } else if m == 4 {
        "Apr"@
    } else if m == 5 {
        "May"@
    } else if m == 6 {
        "Jun"@
    } else if m == 7 {
        "Jul"@
    } else if m == 8 {
        "Aug"@
    } else if m == 9 {
        "Sep"@
    } else if m == 10 {
        "Oct"@
    } else if m == 11 {
        "Nov"@
    } else if m == 12 {
        "Dec"@
    } else {
        "LOL"@
    }
}

/// A value below 100 as two decimal digit characters, zero-padded.
pub open spec fn two_digits(v: int) -> Seq<char> {
    seq![crate::text::hex_digit(v / 10), crate::text::hex_digit(v % 10)]
}

/// A day of month as decimal digit characters, without padding.
pub open spec fn dom_digits(v: int) -> Seq<char> {
    if v < 10 {
        seq![crate::text::hex_digit(v)]
    } else {
        two_digits(v)
    }
}

/// The human-readable timestamp a job report is prefixed with:
/// `Wed Jan 1 02:30` for minute 30, hour 2, day 1, January, Wednesday.
pub open spec fn timestamp_chars(p: Point) -> Seq<char> {
    dow_name(p.dow as int) + " "@ + mon_name(p.mon as int) + " "@ + dom_digits(p.dom as int) + " "@
        + two_digits(p.hour as int) + ":"@ + two_digits(p.min as int)
}

/// Relies on chrono's `Local::now` and its `Timelike`/`Datelike` accessors:
/// `minute()` is 0–59, `hour()` 0–23, `day()` 1–31, `month()` 1–12, and
/// `Weekday::number_from_sunday()` 1–7.  Nothing else is assumed of the
/// clock reading.
#[verifier::external_body]
fn clock_fields() -> (f: (u8, u8, u8, u8, u8))
    ensures
        f.0 < 60,
        f.1 < 24,
        1 <= f.2 <= 31,
        1 <= f.3 <= 12,
        1 <= f.4 <= 7,
{
    let dt = chrono::Local::now();
    (
        chrono::Timelike::minute(&dt) as u8,
        chrono::Timelike::hour(&dt) as u8,
        chrono::Datelike::day(&dt) as u8,
        chrono::Datelike::month(&dt) as u8,
        chrono::Datelike::weekday(&dt).number_from_sunday() as u8,
    )
}

} // verus!
