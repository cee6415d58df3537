//! Clock text for the chat panel: `HH:MM:SS.CC` in UTC, taken from an
//! RFC 3339 timestamp when the server sent one, else from the current time.

use vstd::prelude::*;

use crate::json::is_digit;
use crate::json::spec_skip_digits;
use crate::protocol::spec_digit_char;

verus! {

/// The two decimal digits of `n` (`n < 100`).
pub open spec fn spec_two_digits(n: u32) -> Seq<char> {
    seq![spec_digit_char(n / 10), spec_digit_char(n % 10)]
}

/// `HH:MM:SS.CC`.
pub open spec fn spec_clock_text(h: u32, mi: u32, se: u32, cs: u32) -> Seq<char> {
    spec_two_digits(h) + seq![':'] + spec_two_digits(mi) + seq![':'] + spec_two_digits(se) + seq![
        '.',
    ] + spec_two_digits(cs)
}

/// The UTC time of day a count of milliseconds since the epoch denotes:
/// hour, minute, second and centisecond.
pub open spec fn spec_clock_of_millis(ms: u64) -> (u32, u32, u32, u32) {
    (
        ((ms / 3600000) % 24) as u32,
        ((ms / 60000) % 60) as u32,
        ((ms / 1000) % 60) as u32,
        ((ms / 10) % 100) as u32,
    )
}

fn two_digits(out: &mut Vec<char>, n: u32)
    requires
        n < 100,
    ensures
        final(out)@ == old(out)@ + spec_two_digits(n),
{
    out.push(crate::protocol::digit_char(n / 10));
    out.push(crate::protocol::digit_char(n % 10));
    assert(final(out)@ =~= old(out)@ + spec_two_digits(n));
}

/// Writes `HH:MM:SS.CC`.
pub fn clock_text(h: u32, mi: u32, se: u32, cs: u32) -> (r: String)
    requires
        h < 100,
        mi < 100,
        se < 100,
        cs < 100,
    ensures
        r@ == spec_clock_text(h, mi, se, cs),
{
    let mut out: Vec<char> = Vec::new();
    two_digits(&mut out, h);
    out.push(':');
    two_digits(&mut out, mi);
    out.push(':');
    two_digits(&mut out, se);
    out.push('.');
    two_digits(&mut out, cs);
    proof {
        assert(out@ =~= spec_clock_text(h, mi, se, cs));
    }
    crate::text::chars_to_string(&out)
}

/// The UTC time of day of a count of milliseconds since the epoch.
pub fn clock_of_millis(ms: u64) -> (r: (u32, u32, u32, u32))
    ensures
        r == spec_clock_of_millis(ms),
{
    let h = ((ms / 3600000) % 24) as u32;
    let mi = ((ms / 60000) % 60) as u32;
    let se = ((ms / 1000) % 60) as u32;
    let cs = ((ms / 10) % 100) as u32;
    (h, mi, se, cs)
}

/// Whether `y` is a leap year.
pub open spec fn spec_is_leap(y: u32) -> bool {
    y % 4 == 0 && (y % 100 != 0 || y % 400 == 0)
}

/// The days of month `mo` (1 to 12) of year `y`.
pub open spec fn spec_days_in_month(y: u32, mo: u32) -> u32 {
    if mo == 2 {
        if spec_is_leap(y) {
            29
        } else {
            28
        }
    } else if mo == 4 || mo == 6 || mo == 9 || mo == 11 {
        30
    } else {
        31
    }
}

/// The digit value of the character at `i`.
pub open spec fn spec_d1(s: Seq<char>, i: int) -> Option<u32> {
    if 0 <= i && i < s.len() && is_digit(s[i]) {
        Some(((s[i] as u32) - ('0' as u32)) as u32)
    } else {
        None
    }
}

/// The value of the two decimal digits at `i`.
pub open spec fn spec_d2(s: Seq<char>, i: int) -> Option<u32> {
    match (spec_d1(s, i), spec_d1(s, i + 1)) {
        (Some(a), Some(b)) => Some((a * 10 + b) as u32),
        _ => None,
    }
}

/// The value of the four decimal digits at `i`.
pub open spec fn spec_d4(s: Seq<char>, i: int) -> Option<u32> {
    match (spec_d2(s, i), spec_d2(s, i + 2)) {
        (Some(a), Some(b)) => Some((a * 100 + b) as u32),
        _ => None,
    }
}

fn d1(s: &Vec<char>, i: usize) -> (r: Option<u32>)
    ensures
        r == spec_d1(s@, i as int),
        r matches Some(v) ==> v < 10,
{
    if i < s.len() && '0' <= s[i] && s[i] <= '9' {
        Some((s[i] as u32) - ('0' as u32))
    } else {
        None
    }
}

fn d2(s: &Vec<char>, i: usize) -> (r: Option<u32>)
    requires
        i + 1 < usize::MAX,
    ensures
        r == spec_d2(s@, i as int),
        r matches Some(v) ==> v < 100,
{
    match (d1(s, i), d1(s, i + 1)) {
        (Some(a), Some(b)) => Some(a * 10 + b),
        _ => None,
    }
}

fn d4(s: &Vec<char>, i: usize) -> (r: Option<u32>)
    requires
        i + 3 < usize::MAX,
    ensures
        r == spec_d4(s@, i as int),
        r matches Some(v) ==> v < 10000,
{
    match (d2(s, i), d2(s, i + 2)) {
        (Some(a), Some(b)) => Some(a * 100 + b),
        _ => None,
    }
}

/// The minute of day `h * 60 + mi` shifted by the zone offset into UTC.
pub open spec fn spec_utc_minute(local: u32, plus: bool, off: u32) -> u32 {
    if plus {
        (((local + 1440) - off) % 1440) as u32
    } else {
        ((local + off) % 1440) as u32
    }
}

/// The UTC time of day an RFC 3339 timestamp denotes: hour, minute, second
/// and centisecond. The date must be a real calendar date; the time must
/// have two-digit fields in range, an optional fraction of a second, and a
/// zone: `Z`, `z` or `+hh:mm`/`-hh:mm`. A leap second is refused.
pub open spec fn spec_rfc3339_clock(s: Seq<char>) -> Option<(u32, u32, u32, u32)> {
    match (spec_d4(s, 0), spec_d2(s, 5), spec_d2(s, 8), spec_d2(s, 11), spec_d2(s, 14), spec_d2(
        s,
        17,
    )) {
        (Some(y), Some(mo), Some(d), Some(h), Some(mi), Some(se)) => {
            if s.len() >= 20 && s[4] == '-' && s[7] == '-' && (s[10] == 'T' || s[10] == 't'
                || s[10] == ' ') && s[13] == ':' && s[16] == ':' && 1 <= mo && mo <= 12 && 1 <= d
                && d <= spec_days_in_month(y, mo) && h < 24 && mi < 60 && se < 60 {
                let p = if s[19] == '.' {
                    spec_skip_digits(s, 20)
                } else {
                    19
                };
                if s[19] == '.' && !(p > 20) {
                    None
                } else {
                    let cs = if s[19] == '.' {
                        if p > 21 {
                            match (spec_d1(s, 20), spec_d1(s, 21)) {
                                (Some(a), Some(b)) => (a * 10 + b) as u32,
                                _ => 0,
                            }
                        } else {
                            match spec_d1(s, 20) {
                                Some(a) => (a * 10) as u32,
                                _ => 0,
                            }
                        }
                    } else {
                        0
                    };
                    if p < s.len() && (s[p] == 'Z' || s[p] == 'z') && p + 1 == s.len() {
                        let utc = spec_utc_minute((h * 60 + mi) as u32, true, 0);
                        Some((utc / 60, utc % 60, se, cs))
                    } else if p + 6 == s.len() && (s[p] == '+' || s[p] == '-') && s[p + 3]
                        == ':' {
                        match (spec_d2(s, p + 1), spec_d2(s, p + 4)) {
                            (Some(oh), Some(om)) => if oh < 24 && om < 60 {
                                let utc = spec_utc_minute(
                                    (h * 60 + mi) as u32,
                                    s[p] == '+',
                                    (oh * 60 + om) as u32,
                                );
                                Some((utc / 60, utc % 60, se, cs))
                            } else {
                                None
                            },
                            _ => None,
                        }
                    } else {
                        None
                    }
                }
            } else {
                None
            }
        },
        _ => None,
    }
}

/// Reads the UTC time of day out of an RFC 3339 timestamp.
pub fn rfc3339_clock(s: &str) -> (r: Option<(u32, u32, u32, u32)>)
    ensures
        r == spec_rfc3339_clock(s@),
        r matches Some((h, mi, se, cs)) ==> h < 24 && mi < 60 && se < 60 && cs < 100,
{
    let cs = crate::text::str_to_chars(s);
    let v = (d4(&cs, 0), d2(&cs, 5), d2(&cs, 8), d2(&cs, 11), d2(&cs, 14), d2(&cs, 17));
    match v {
        (Some(y), Some(mo), Some(d), Some(h), Some(mi), Some(se)) => {
            let days = if mo == 2 {
                if y % 4 == 0 && (y % 100 != 0 || y % 400 == 0) {
                    29u32
                } else {
                    28u32
                }
            } else if mo == 4 || mo == 6 || mo == 9 || mo == 11 {
                30u32
            } else {
                31u32
            };
            if cs.len() >= 20 && cs[4] == '-' && cs[7] == '-' && (cs[10] == 'T' || cs[10] == 't'
                || cs[10] == ' ') && cs[13] == ':' && cs[16] == ':' && 1 <= mo && mo <= 12 && 1
                <= d && d <= days && h < 24 && mi < 60 && se < 60 {
                let frac = cs[19] == '.';
                let p = if frac {
                    crate::json::skip_digits(&cs, 20)
                } else {
                    19
                };
                if frac && !(p > 20) {
                    return None;
                }
                let centi = if frac {
                    if p > 21 {
                        match (d1(&cs, 20), d1(&cs, 21)) {
                            (Some(a), Some(b)) => a * 10 + b,
                            _ => 0,
                        }
                    } else {
                        match d1(&cs, 20) {
                            Some(a) => a * 10,
                            _ => 0,
                        }
                    }
                } else {
                    0
                };
                if p < cs.len() && (cs[p] == 'Z' || cs[p] == 'z') && p + 1 == cs.len() {
                    let utc = ((h * 60 + mi) + 1440) % 1440;
                    Some((utc / 60, utc % 60, se, centi))
                } else if cs.len() - p == 6 && (cs[p] == '+' || cs[p] == '-') && cs[p + 3]
                    == ':' {
                    let o = (d2(&cs, p + 1), d2(&cs, p + 4));
                    match o {
                        (Some(oh), Some(om)) => {
                            if oh < 24 && om < 60 {
                                let off = oh * 60 + om;
                                let utc = if cs[p] == '+' {
                                    (((h * 60 + mi) + 1440) - off) % 1440
                                } else {
                                    ((h * 60 + mi) + off) % 1440
                                };
                                Some((utc / 60, utc % 60, se, centi))
                            } else {
                                None
                            }
                        },
                        _ => None,
                    }
                } else {
                    None
                }
            } else {
                None
            }
        },
        _ => None,
    }
}

/// The clock text a chat message shows: from its own timestamp when that is
/// an RFC 3339 string, else from the present moment.
pub open spec fn spec_stamp_clock(ts: Option<Seq<char>>, now_ms: u64) -> Seq<char> {
    let fallback = spec_clock_of_millis(now_ms);
    match ts {
        Some(t) => match spec_rfc3339_clock(t) {
            Some((h, mi, se, cs)) => spec_clock_text(h, mi, se, cs),
            None => spec_clock_text(fallback.0, fallback.1, fallback.2, fallback.3),
        },
        None => spec_clock_text(fallback.0, fallback.1, fallback.2, fallback.3),
    }
}

/// Writes the clock text a chat message shows.
pub fn stamp_clock(ts: &Option<String>, now_ms: u64) -> (r: String)
    ensures
        r@ == spec_stamp_clock(
            match ts {
                Some(t) => Some(t@),
                None => None,
            },
            now_ms,
        ),
{
    match ts {
        Some(t) => {
            let parsed = rfc3339_clock(t.as_str());
            match parsed {
                Some((h, mi, se, cs)) => clock_text(h, mi, se, cs),
                None => {
                    let (h, mi, se, cs) = clock_of_millis(now_ms);
                    clock_text(h, mi, se, cs)
                },
            }
        },
        None => {
            let (h, mi, se, cs) = clock_of_millis(now_ms);
            clock_text(h, mi, se, cs)
        },
    }
}

/// Relies on chrono's `Utc::now` and `DateTime::timestamp_millis`: the
/// present moment as non-leap milliseconds since the Unix epoch. `Utc::now`
/// does not return on a clock set before 1970, and nothing is assumed here
/// of the value it gives.
#[verifier::external_body]
fn now_millis_raw() -> (r: i64) {
    chrono::Utc::now().timestamp_millis()
}

/// The present moment in milliseconds since the epoch, clamped below at
/// zero.
pub fn now_millis() -> (r: u64) {
    let ms = now_millis_raw();
    if ms < 0 {
        0
    } else {
        ms as u64
    }
}

} // verus!
