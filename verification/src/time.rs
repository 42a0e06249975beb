//! The start-delay calculator: given the current wall-clock time of day and a
//! start-time specification, it computes how many whole seconds to wait before
//! the first invocation of the tasks.
//!
//! Two forms of specification are understood:
//! - `hour` or `minute`, optionally suffixed `+N` with `N` one or two digits:
//!   start at minute `N`, second 0, of the current hour if that minute has not
//!   passed yet, else of the next hour (and one level down for `minute`); the
//!   delay is the absolute difference between that target and now.
//! - `HH:MM`: start at the next occurrence of that wall-clock time, today or,
//!   if it has already passed, tomorrow.

use vstd::prelude::*;

verus! {

/// A wall-clock time of day. Values are always in range: hours below 24,
/// minutes and seconds below 60.
#[derive(Clone, Copy, Debug)]
pub struct ClockTime {
    hour: u8,
    minute: u8,
    second: u8,
}

/// The mathematical content of a `ClockTime`.
pub ghost struct ClockTimeView {
    pub hour: int,
    pub minute: int,
    pub second: int,
}

impl ClockTimeView {
    /// A valid time of day.
    pub open spec fn wf(self) -> bool {
        0 <= self.hour < 24 && 0 <= self.minute < 60 && 0 <= self.second < 60
    }

    /// Seconds elapsed since midnight.
    pub open spec fn seconds_of_day(self) -> int {
        self.hour * 3600 + self.minute * 60 + self.second
    }
}

impl View for ClockTime {
    type V = ClockTimeView;

    closed spec fn view(&self) -> ClockTimeView {
        ClockTimeView {
            hour: self.hour as int,
            minute: self.minute as int,
            second: self.second as int,
        }
    }
}

impl ClockTime {
    #[verifier::type_invariant]
    spec fn type_inv(self) -> bool {
        self@.wf()
    }

    /// Builds a time of day, rejecting out-of-range fields.
    pub fn new(hour: u8, minute: u8, second: u8) -> (r: Option<ClockTime>)
        ensures
            r is Some <==> hour < 24 && minute < 60 && second < 60,
            r matches Some(t) ==> t@ == (ClockTimeView {
                hour: hour as int,
                minute: minute as int,
                second: second as int,
            }),
    {
        if hour < 24 && minute < 60 && second < 60 {
            Some(ClockTime { hour, minute, second })
        } else {
            None
        }
    }
}

/// A start-time specification that could not be used.
#[derive(Clone, Copy, Debug, PartialEq, Eq, Structural)]
pub enum StartTimeError {
    /// The string matches neither `hour[+N]`/`minute[+N]` nor `HH:MM`.
    InvalidFormat,
    /// The string is shaped like `HH:MM` but names no time of day.
    InvalidValues,
}

impl StartTimeError {
    /// A short description of the error.
    pub fn message(&self) -> (m: &'static str)
        ensures
            *self is InvalidFormat ==> m@ == "invalid format for start time"@,
            *self is InvalidValues ==> m@ == "invalid values found in start time"@,
    {
        match self {
            StartTimeError::InvalidFormat => "invalid format for start time",
            StartTimeError::InvalidValues => "invalid values found in start time",
        }
    }
}

/// A decimal digit.
pub open spec fn is_digit(c: char) -> bool {
    '0' as int <= c as int <= '9' as int
}

/// The value of a decimal digit.
pub open spec fn digit_val(c: char) -> int {
    c as int - '0' as int
}

/// A parsed relative start-time specification: start at minute `offset` of
/// the appropriate hour (`hourly`), or at second `offset` of the appropriate
/// minute (not `hourly`).
pub ghost struct NextSpec {
    pub hourly: bool,
    pub offset: int,
}

/// Parses the optional `+N` suffix of a relative specification: an empty
/// suffix means an offset of zero; otherwise a `+` followed by one or two
/// digits gives the offset.
pub open spec fn parse_offset(s: Seq<char>) -> Option<int> {
    if s.len() == 0 {
        Some(0)
    } else if s.len() == 2 && s[0] == '+' && is_digit(s[1]) {
        Some(digit_val(s[1]))
    } else if s.len() == 3 && s[0] == '+' && is_digit(s[1]) && is_digit(s[2]) {
        Some(10 * digit_val(s[1]) + digit_val(s[2]))
    } else {
        None
    }
}

/// Parses a relative start-time specification: the word `hour` or `minute`,
/// then an optional `+N` suffix.
pub open spec fn parse_next_spec(s: Seq<char>) -> Option<NextSpec> {
    if s.len() >= 4 && s[0] == 'h' && s[1] == 'o' && s[2] == 'u' && s[3] == 'r' {
        match parse_offset(s.skip(4)) {
            Some(o) => Some(NextSpec { hourly: true, offset: o }),
            None => None,
        }
    } else if s.len() >= 6 && s[0] == 'm' && s[1] == 'i' && s[2] == 'n' && s[3] == 'u' && s[4]
        == 't' && s[5] == 'e' {
        match parse_offset(s.skip(6)) {
            Some(o) => Some(NextSpec { hourly: false, offset: o }),
            None => None,
        }
    } else {
        None
    }
}

/// The delay, in whole seconds, from `now` to the start time that a relative
/// specification requests. For `hour+N`: the target is minute `N`, second 0,
/// of this hour if the current minute is at most `N`, else of the next hour;
/// the delay is the absolute difference between target and `now` (at minute
/// `N` exactly, with seconds already past second 0, the target lies just
/// behind `now`). For `minute+N` the same one level down.
pub open spec fn next_delay(req: NextSpec, now: ClockTimeView) -> int {
    if req.hourly {
        if now.minute <= req.offset {
            let ahead = (req.offset - now.minute) * 60;
            if ahead >= now.second {
                ahead - now.second
            } else {
                now.second - ahead
            }
        } else {
            (60 - now.minute + req.offset) * 60 - now.second
        }
    } else {
        if now.second <= req.offset {
            req.offset - now.second
        } else {
            60 - now.second + req.offset
        }
    }
}

/// Parses an absolute start-time specification: exactly two digits, a colon,
/// and two digits, giving an hour and a minute (not yet checked for range).
pub open spec fn parse_hh_mm_spec(s: Seq<char>) -> Option<(int, int)> {
    if s.len() == 5 && is_digit(s[0]) && is_digit(s[1]) && s[2] == ':' && is_digit(s[3])
        && is_digit(s[4]) {
        Some((10 * digit_val(s[0]) + digit_val(s[1]), 10 * digit_val(s[3]) + digit_val(s[4])))
    } else {
        None
    }
}

/// The delay, in whole seconds, from `now` to the next occurrence of
/// `hour:minute`: today if that time has not passed yet, else the same time
/// tomorrow.
pub open spec fn hh_mm_delay(hour: int, minute: int, now: ClockTimeView) -> int {
    let target = hour * 3600 + minute * 60;
    if target >= now.seconds_of_day() {
        target - now.seconds_of_day()
    } else {
        86400 - (now.seconds_of_day() - target)
    }
}

/// Tests whether a character is a decimal digit.
fn is_digit_exec(c: char) -> (r: bool)
    ensures
        r == is_digit(c),
{
    let v = c as u32;
    48 <= v && v <= 57
}

/// The value of a decimal digit.
fn digit_val_exec(c: char) -> (r: u8)
    requires
        is_digit(c),
    ensures
        r == digit_val(c),
{
    (c as u32 - 48) as u8
}

/// Computes the start delay, in whole seconds, requested by a relative
/// specification (`hour[+N]` or `minute[+N]`) at the time of day `now`.
pub fn get_start_delay_from_next(now: &ClockTime, next: &str) -> (r: Result<u64, StartTimeError>)
    ensures
        r matches Ok(delay) ==> parse_next_spec(next@) matches Some(req) && delay == next_delay(
            req,
            now@,
        ),
        r is Err <==> parse_next_spec(next@) is None,
        r matches Err(e) ==> e == StartTimeError::InvalidFormat,
{
    let n = next.unicode_len();
    let hourly: bool;
    let body_start: usize;
    if n >= 4 && next.get_char(0) == 'h' && next.get_char(1) == 'o' && next.get_char(2) == 'u'
        && next.get_char(3) == 'r' {
        hourly = true;
        body_start = 4;
    } else if n >= 6 && next.get_char(0) == 'm' && next.get_char(1) == 'i' && next.get_char(2)
        == 'n' && next.get_char(3) == 'u' && next.get_char(4) == 't' && next.get_char(5) == 'e' {
        hourly = false;
        body_start = 6;
    } else {
        return Err(StartTimeError::InvalidFormat);
    }
    let ghost suffix = next@.skip(body_start as int);
    let offset: u8;
    if n == body_start {
        offset = 0;
    } else if n == body_start + 2 && next.get_char(body_start) == '+' && is_digit_exec(
        next.get_char(body_start + 1),
    ) {
        offset = digit_val_exec(next.get_char(body_start + 1));
    } else if n == body_start + 3 && next.get_char(body_start) == '+' && is_digit_exec(
        next.get_char(body_start + 1),
    ) && is_digit_exec(next.get_char(body_start + 2)) {
        let high = digit_val_exec(next.get_char(body_start + 1));
        let low = digit_val_exec(next.get_char(body_start + 2));
        offset = 10 * high + low;
    } else {
        proof {
            assert(suffix.len() == n - body_start);
            assert(forall|i: int| 0 <= i < suffix.len() ==> suffix[i] == next@[body_start + i]);
            assert(parse_offset(suffix) is None);
        }
        return Err(StartTimeError::InvalidFormat);
    }
    proof {
        assert(suffix.len() == n - body_start);
        assert(forall|i: int| 0 <= i < suffix.len() ==> suffix[i] == next@[body_start + i]);
        assert(parse_offset(suffix) == Some(offset as int));
        use_type_invariant(*now);
    }
    let delay: u64 = if hourly {
        if now.minute <= offset {
            let ahead = (offset - now.minute) as u64 * 60;
            let sec = now.second as u64;
            if ahead >= sec {
                ahead - sec
            } else {
                sec - ahead
            }
        } else {
            (60 - now.minute as u64 + offset as u64) * 60 - now.second as u64
        }
    } else {
        if now.second <= offset {
            (offset - now.second) as u64
        } else {
            60 - now.second as u64 + offset as u64
        }
    };
    Ok(delay)
}

/// Computes the start delay, in whole seconds, requested by an absolute
/// `HH:MM` specification at the time of day `now`.
pub fn get_start_delay_from_hh_mm(now: &ClockTime, start_at: &str) -> (r: Result<
    u64,
    StartTimeError,
>)
    ensures
        r matches Ok(delay) ==> parse_hh_mm_spec(start_at@) matches Some(hm) && 0 <= hm.0 < 24 && 0
            <= hm.1 < 60 && delay == hh_mm_delay(hm.0, hm.1, now@),
        r matches Err(e) ==> match parse_hh_mm_spec(start_at@) {
            None => e == StartTimeError::InvalidFormat,
            Some(hm) => !(0 <= hm.0 < 24 && 0 <= hm.1 < 60) && e == StartTimeError::InvalidValues,
        },
        r is Err <==> (parse_hh_mm_spec(start_at@) matches Some(hm) ==> !(0 <= hm.0 < 24 && 0
            <= hm.1 < 60)),
{
    let n = start_at.unicode_len();
    if !(n == 5 && is_digit_exec(start_at.get_char(0)) && is_digit_exec(start_at.get_char(1))
        && start_at.get_char(2) == ':' && is_digit_exec(start_at.get_char(3)) && is_digit_exec(
        start_at.get_char(4),
    )) {
        return Err(StartTimeError::InvalidFormat);
    }
    let hour = 10 * digit_val_exec(start_at.get_char(0)) + digit_val_exec(start_at.get_char(1));
    let minute = 10 * digit_val_exec(start_at.get_char(3)) + digit_val_exec(start_at.get_char(4));
    if !(hour < 24 && minute < 60) {
        return Err(StartTimeError::InvalidValues);
    }
    proof {
        use_type_invariant(*now);
    }
    let target: u64 = hour as u64 * 3600 + minute as u64 * 60;
    let now_secs: u64 = now.hour as u64 * 3600 + now.minute as u64 * 60 + now.second as u64;
    if target >= now_secs {
        Ok(target - now_secs)
    } else {
        Ok(86400 - (now_secs - target))
    }
}

} // verus!
