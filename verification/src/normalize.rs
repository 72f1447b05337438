//! The reading normalizer.
//!
//! Takes the typed upstream payload for one target and produces the reading
//! to persist: exact decimal measurements, absent where the upstream sent
//! the sentinel `"-"` or other non-numeric text, and the UTC hour bucket of
//! the reading's timestamp. A timestamp that does not fit the fixed pattern
//! falls back to the current instant, so a batch always carries some
//! plausible hour bucket rather than failing the target.

use vstd::prelude::*;

use crate::decimal::{parse_decimal, spec_parse_decimal, Decimal};
use crate::payload::{opt_str_view, UpstreamPayload};
use crate::time::{
    kst_to_utc, parse_data_time, spec_parse_data_time, spec_truncate_to_hour, truncate_to_hour,
    CivilDateTime,
};

verus! {

/// One reading ready for storage.
pub struct NormalizedReading {
    pub sub_region_id: i32,
    pub pm10: Option<Decimal>,
    pub pm25: Option<Decimal>,
    pub recorded_at: CivilDateTime,
}

/// The measurement a payload field denotes: the exact decimal for numeric
/// text; absent for a missing field, the sentinel `"-"`, and any other
/// non-numeric text.
pub open spec fn spec_field_value(f: Option<Seq<char>>) -> Option<Decimal> {
    match f {
        Option::Some(s) => spec_parse_decimal(s),
        Option::None => Option::None,
    }
}

/// The timestamp a payload field denotes, where it fits the fixed pattern.
pub open spec fn spec_field_time(f: Option<Seq<char>>) -> Option<CivilDateTime> {
    match f {
        Option::Some(s) => spec_parse_data_time(s),
        Option::None => Option::None,
    }
}

fn field_value(f: &Option<String>) -> (r: Option<Decimal>)
    ensures
        r == spec_field_value(opt_str_view(*f)),
{
    match f {
        Option::Some(s) => parse_decimal(s.as_str()),
        Option::None => Option::None,
    }
}

/// Normalizes the most recent item of one target's payload.
///
/// The measurements are the exact decimals of the item's numeric text, and
/// absent where the upstream sent its sentinel or anything non-numeric. The
/// timestamp is the item's `dataTime` read as KST where it fits the fixed
/// pattern — shifted nine hours back to UTC, then truncated to the hour —
/// and the hour bucket of `now_utc` otherwise.
pub fn normalize(sub_region_id: i32, payload: &UpstreamPayload, now_utc: CivilDateTime) -> (r:
    NormalizedReading)
    requires
        now_utc.wf(),
    ensures
        r.sub_region_id == sub_region_id,
        r.pm10 == spec_field_value(payload@.pm10_value),
        r.pm25 == spec_field_value(payload@.pm25_value),
        r.recorded_at.wf(),
        r.recorded_at.minute == 0,
        match spec_field_time(payload@.data_time) {
            Option::Some(t) => r.recorded_at.minutes() == t.minutes() - 540 - t.minute,
            Option::None => r.recorded_at == spec_truncate_to_hour(now_utc),
        },
{
    let pm10 = field_value(&payload.pm10_value);
    let pm25 = field_value(&payload.pm25_value);
    let parsed = match &payload.data_time {
        Option::Some(s) => parse_data_time(s.as_str()),
        Option::None => Option::None,
    };
    let recorded_at = match parsed {
        Option::Some(t) => truncate_to_hour(kst_to_utc(t)),
        Option::None => truncate_to_hour(now_utc),
    };
    NormalizedReading { sub_region_id, pm10, pm25, recorded_at }
}

} // verus!
