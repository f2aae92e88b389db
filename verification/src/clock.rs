//! Wall-clock conversion: from a Unix timestamp, as a clock-sync task
//! obtains it, to the panel's seven-field clock value.

use vstd::prelude::*;

use crate::datetime::DateTime;

verus! {

/// The civil calendar fields of one instant: the full year, the ISO
/// week, and the month, day, hour, minute and second.
#[derive(Clone, Copy, Debug, PartialEq, Eq, Structural)]
pub struct CivilTime {
    /// Full calendar year.
    pub year: i32,
    /// ISO week of the year (1-53).
    pub week: u8,
    /// Month (1-12).
    pub month: u8,
    /// Day of the month (1-31).
    pub day: u8,
    /// Hour (0-23).
    pub hour: u8,
    /// Minute (0-59).
    pub minute: u8,
    /// Second (0-59).
    pub second: u8,
}

/// What the calendar computation answers for a Unix timestamp shifted
/// by a whole-hour offset: a function of those two arguments alone,
/// with no answer for values outside the calendar's supported range.
pub uninterp spec fn civil_of(secs: i64, offset_hours: i8) -> Option<CivilTime>;

/// Relies on `time::OffsetDateTime::from_unix_timestamp`,
/// `checked_to_offset`, `time::UtcOffset::from_hms` and the field
/// accessors `year`, `iso_week`, `month`, `day`, `hour`, `minute` and
/// `second`: the civil calendar fields of a timestamp under a fixed
/// offset depend on the two arguments alone, and the accessors
/// document the stated field ranges.
#[verifier::external_body]
fn civil_from_unix(secs: i64, offset_hours: i8) -> (r: Option<CivilTime>)
    ensures
        r == civil_of(secs, offset_hours),
        r matches Some(c) ==> 1 <= c.week <= 53 && 1 <= c.month <= 12 && 1 <= c.day <= 31
            && c.hour <= 23 && c.minute <= 59 && c.second <= 59,
{
    let offset = time::UtcOffset::from_hms(offset_hours, 0, 0).ok()?;
    let t = time::OffsetDateTime::from_unix_timestamp(secs).ok()?.checked_to_offset(offset)?;
    Some(
        CivilTime {
            year: t.year(),
            week: t.iso_week(),
            month: t.month() as u8,
            day: t.day(),
            hour: t.hour(),
            minute: t.minute(),
            second: t.second(),
        },
    )
}

/// The panel's clock value for a civil time with a non-negative year:
/// the year folded to its two-digit form, and an ISO week of 53
/// clamped to the panel's 52-week range.
pub open spec fn civil_datetime(c: CivilTime) -> DateTime {
    DateTime {
        year: (c.year % 100) as u8,
        week: if c.week > 52 {
            52u8
        } else {
            c.week
        },
        month: c.month,
        day: c.day,
        hour: c.hour,
        minute: c.minute,
        second: c.second,
    }
}

/// The panel's clock value for a Unix timestamp under a whole-hour
/// offset, or `None` when the timestamp or the offset is outside the
/// calendar's supported range or the year precedes the epoch of the
/// two-digit form.
pub fn datetime_from_unix(secs: i64, offset_hours: i8) -> (r: Option<DateTime>)
    ensures
        match r {
            Some(dt) => {
                &&& civil_of(secs, offset_hours) matches Some(c) && c.year >= 0 && dt
                    == civil_datetime(c)
                &&& dt.valid()
            },
            None => civil_of(secs, offset_hours) is None || civil_of(
                secs,
                offset_hours,
            )->Some_0.year < 0,
        },
{
    let c = match civil_from_unix(secs, offset_hours) {
        Some(c) => c,
        None => {
            return None;
        },
    };
    if c.year < 0 {
        return None;
    }
    let dt = DateTime {
        year: (c.year % 100) as u8,
        week: if c.week > 52 {
            52
        } else {
            c.week
        },
        month: c.month,
        day: c.day,
        hour: c.hour,
        minute: c.minute,
        second: c.second,
    };
    Some(dt)
}

} // verus!
