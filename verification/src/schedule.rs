//! The weekly time slot and the compound-field grammar that encodes it.
//!
//! One line of a schedule cell reads `<weekday>.<HHMM>-<credits> / <place>`:
//! a weekday code, a dot, a four-digit 24-hour clock time, a dash, the
//! number of credit hours the slot spans, and after a spaced slash the room
//! it takes place in.
use vstd::prelude::*;

use crate::ParseError;
use crate::text::{
    all_digits, digit_value, parse_u32, spec_parse_u32, spec_split_once, spec_split_once_char,
    spec_trim, split_once, split_once_char, trim,
};

verus! {

/// A day of the week.  The catalog numbers them from one, Sunday first;
/// `parse_weekday` preserves that convention.
#[derive(Clone, Copy, Debug, PartialEq, Eq, Structural)]
pub enum Weekday {
    Sunday,
    Monday,
    Tuesday,
    Wednesday,
    Thursday,
    Friday,
    Saturday,
}

/// The weekday a catalog code denotes: codes one through seven map to
/// Sunday through Saturday in that order; every other code is invalid.
pub open spec fn spec_parse_weekday(code: u32) -> Result<Weekday, ParseError> {
    if code == 1 {
        Ok(Weekday::Sunday)
    } else if code == 2 {
        Ok(Weekday::Monday)
    } else if code == 3 {
        Ok(Weekday::Tuesday)
    } else if code == 4 {
        Ok(Weekday::Wednesday)
    } else if code == 5 {
        Ok(Weekday::Thursday)
    } else if code == 6 {
        Ok(Weekday::Friday)
    } else if code == 7 {
        Ok(Weekday::Saturday)
    } else {
        Err(ParseError::InvalidTime)
    }
}

/// Map a weekday code to its weekday, Sunday as one through Saturday as
/// seven; anything else fails with `InvalidTime`.
pub fn parse_weekday(code: u32) -> (r: Result<Weekday, ParseError>)
    ensures
        r == spec_parse_weekday(code),
{
    match code {
        1 => Ok(Weekday::Sunday),
        2 => Ok(Weekday::Monday),
        3 => Ok(Weekday::Tuesday),
        4 => Ok(Weekday::Wednesday),
        5 => Ok(Weekday::Thursday),
        6 => Ok(Weekday::Friday),
        7 => Ok(Weekday::Saturday),
        _ => Err(ParseError::InvalidTime),
    }
}

/// One weekly time slot of a class: when it starts, how many credit hours
/// it spans, and where it takes place.
#[derive(Debug, Clone, PartialEq)]
pub struct Time {
    pub weekday: Weekday,
    /// Starting hour on the 24-hour clock.
    pub hour: u8,
    /// Starting minute.
    pub minute: u8,
    /// Credit hours this slot occupies.
    pub credits: u32,
    /// Room or building code, taken verbatim.
    pub place: String,
}

/// The mathematical value of a `Time`.
pub struct TimeView {
    pub weekday: Weekday,
    pub hour: u8,
    pub minute: u8,
    pub credits: u32,
    pub place: Seq<char>,
}

impl View for Time {
    type V = TimeView;

    open spec fn view(&self) -> TimeView {
        TimeView {
            weekday: self.weekday,
            hour: self.hour,
            minute: self.minute,
            credits: self.credits,
            place: self.place@,
        }
    }
}

impl DeepView for Time {
    type V = TimeView;

    open spec fn deep_view(&self) -> TimeView {
        self.view()
    }
}

/// What a clock-time string denotes: exactly four digits, zero-padded,
/// hour below twenty-four and minute below sixty.
pub open spec fn spec_parse_hhmm(s: Seq<char>) -> Option<(u8, u8)> {
    if s.len() == 4 && all_digits(s) {
        let h = digit_value(s[0]) * 10 + digit_value(s[1]);
        let m = digit_value(s[2]) * 10 + digit_value(s[3]);
        if h <= 23 && m <= 59 {
            Some((h as u8, m as u8))
        } else {
            None
        }
    } else {
        None
    }
}

fn parse_hhmm(s: &str) -> (r: Option<(u8, u8)>)
    ensures
        r == spec_parse_hhmm(s@),
{
    let n = s.unicode_len();
    if n != 4 {
        return None;
    }
    let c0 = s.get_char(0);
    let c1 = s.get_char(1);
    let c2 = s.get_char(2);
    let c3 = s.get_char(3);
    if c0 < '0' || c0 > '9' || c1 < '0' || c1 > '9' || c2 < '0' || c2 > '9' || c3 < '0' || c3
        > '9' {
        return None;
    }
    let h: u32 = (c0 as u32 - 48) * 10 + (c1 as u32 - 48);
    let m: u32 = (c2 as u32 - 48) * 10 + (c3 as u32 - 48);
    proof {
        assert(all_digits(s@));
    }
    if h <= 23 && m <= 59 {
        Some((h as u8, m as u8))
    } else {
        None
    }
}

/// The separator between a slot's schedule part and its place.
pub open spec fn slot_separator() -> Seq<char> {
    seq![' ', '/', ' ']
}

/// What one schedule-cell line denotes, step by step: split on the spaced
/// slash into schedule and place, split the schedule on the dot into
/// weekday code and time, map the code to a weekday, split the time on the
/// dash into clock time and credit span, parse the trimmed credit span as
/// a number, and parse the clock time as four digits.  A missing delimiter
/// or an out-of-range value fails with `InvalidTime`; an unparsable number
/// fails with `InvalidNumber`.
pub open spec fn spec_parse_time_slot(s: Seq<char>) -> Result<TimeView, ParseError> {
    match spec_split_once(s, slot_separator()) {
        None => Err(ParseError::InvalidTime),
        Some((sched, place)) => match spec_split_once_char(sched, '.') {
            None => Err(ParseError::InvalidTime),
            Some((wd_txt, rest)) => match spec_parse_u32(wd_txt) {
                None => Err(ParseError::InvalidNumber),
                Some(code) => match spec_parse_weekday(code) {
                    Err(e) => Err(e),
                    Ok(weekday) => match spec_split_once_char(rest, '-') {
                        None => Err(ParseError::InvalidTime),
                        Some((clock, cred_txt)) => match spec_parse_u32(spec_trim(cred_txt)) {
                            None => Err(ParseError::InvalidNumber),
                            Some(credits) => match spec_parse_hhmm(clock) {
                                None => Err(ParseError::InvalidTime),
                                Some(hm) => Ok(
                                    TimeView {
                                        weekday,
                                        hour: hm.0,
                                        minute: hm.1,
                                        credits,
                                        place,
                                    },
                                ),
                            },
                        },
                    },
                },
            },
        },
    }
}

/// Parse one line of a schedule cell as a time slot.
pub fn parse_time_slot(s: &str) -> (r: Result<Time, ParseError>)
    ensures
        (spec_parse_time_slot(s@) matches Ok(t) ==> r matches Ok(time) && time@ == t),
        (spec_parse_time_slot(s@) matches Err(e) ==> r matches Err(e2) && e2 == e),
{
    let sep = " / ";
    proof {
        reveal_strlit(" / ");
        assert(sep@ =~= slot_separator());
    }
    let (sched, place) = match split_once(s, sep) {
        Some(p) => p,
        None => {
            return Err(ParseError::InvalidTime);
        },
    };
    let (wd_txt, rest) = match split_once_char(sched, '.') {
        Some(p) => p,
        None => {
            return Err(ParseError::InvalidTime);
        },
    };
    let code = match parse_u32(wd_txt) {
        Some(c) => c,
        None => {
            return Err(ParseError::InvalidNumber);
        },
    };
    let weekday = match parse_weekday(code) {
        Ok(w) => w,
        Err(e) => {
            return Err(e);
        },
    };
    let (clock, cred_txt) = match split_once_char(rest, '-') {
        Some(p) => p,
        None => {
            return Err(ParseError::InvalidTime);
        },
    };
    let credits = match parse_u32(trim(cred_txt)) {
        Some(c) => c,
        None => {
            return Err(ParseError::InvalidNumber);
        },
    };
    let (hour, minute) = match parse_hhmm(clock) {
        Some(hm) => hm,
        None => {
            return Err(ParseError::InvalidTime);
        },
    };
    Ok(Time { weekday, hour, minute, credits, place: place.to_owned() })
}

} // verus!
