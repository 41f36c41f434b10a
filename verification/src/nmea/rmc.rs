//! RMC — recommended minimum data: time, status, position, speed, course, date.
use vstd::prelude::*;
use crate::types::{
    coordinate_aborts, coordinate_field, coordinate_would_abort, date_field, date_field_aborts,
    date_field_would_abort, float_or, parse_latlon, time_field, time_field_aborts,
    time_field_would_abort, zero_coordinate, zero_text, Coordinate, CoordinateModel,
    FloatText, GnssSystem, NmeaDate, NmeaTime,
};
use crate::text::is_float_literal;
use super::{field_is, fields_of};

verus! {

#[derive(Debug, PartialEq, Eq)]
pub struct RmcData {
    pub time: NmeaTime,
    pub date: NmeaDate,
    pub valid: bool,
    pub lat: Coordinate,
    pub lon: Coordinate,
    pub speed_knots: FloatText,
    pub course_deg: FloatText,
}

pub ghost struct RmcModel {
    pub time: NmeaTime,
    pub date: NmeaDate,
    pub valid: bool,
    pub lat: CoordinateModel,
    pub lon: CoordinateModel,
    pub speed_knots: Seq<u8>,
    pub course_deg: Seq<u8>,
}

impl DeepView for RmcData {
    type V = RmcModel;

    open spec fn deep_view(&self) -> RmcModel {
        RmcModel {
            time: self.time,
            date: self.date,
            valid: self.valid,
            lat: self.lat.deep_view(),
            lon: self.lon.deep_view(),
            speed_knots: self.speed_knots.deep_view(),
            course_deg: self.course_deg.deep_view(),
        }
    }
}

impl RmcData {
    pub open spec fn wf(&self) -> bool {
        self.lat.wf() && self.lon.wf() && self.speed_knots.wf() && self.course_deg.wf()
    }

    pub open spec fn spec_is_valid(&self) -> bool {
        self.valid
    }

    /// The status field said `A` (data valid).
    #[verifier::when_used_as_spec(spec_is_valid)]
    pub fn is_valid(&self) -> (r: bool)
        ensures
            r == self.valid,
    {
        self.valid
    }
}

impl Clone for RmcData {
    fn clone(&self) -> (r: Self)
        ensures
            r.deep_view() == self.deep_view(),
            r.wf() == self.wf(),
    {
        RmcData {
            time: self.time,
            date: self.date,
            valid: self.valid,
            lat: self.lat.clone(),
            lon: self.lon.clone(),
            speed_knots: self.speed_knots.clone(),
            course_deg: self.course_deg.clone(),
        }
    }
}

/// Reading of the RMC fields (UTC time, status, lat, N/S, lon, E/W, speed,
/// course, date, …). Time is required; an unreadable coordinate becomes 0°,
/// speed and course fall back to 0.0, an unreadable date to all zeros.
pub open spec fn rmc_fields(f: Seq<Seq<u8>>) -> Option<RmcModel> {
    if f.len() < 9 {
        None
    } else {
        match time_field(f[0]) {
            Some(time) => Some(
                RmcModel {
                    time,
                    date: match date_field(f[8]) {
                        Some(d) => d,
                        None => NmeaDate { day: 0, month: 0, year: 0 },
                    },
                    valid: f[1] == seq![65u8],
                    lat: match coordinate_field(f[2], f[3]) {
                        Some(c) => c,
                        None => zero_coordinate(),
                    },
                    lon: match coordinate_field(f[4], f[5]) {
                        Some(c) => c,
                        None => zero_coordinate(),
                    },
                    speed_knots: float_or(f[6], zero_text()),
                    course_deg: float_or(f[7], zero_text()),
                },
            ),
            None => None,
        }
    }
}

/// RMC fields on which reading the time, a coordinate or the date would cut
/// a UTF-8 character.
pub open spec fn rmc_aborts(f: Seq<Seq<u8>>) -> bool {
    f.len() >= 9 && (time_field_aborts(f[0]) || (time_field(f[0]).is_some() && (coordinate_aborts(
        f[2],
    ) || coordinate_aborts(f[4]) || date_field_aborts(f[8]))))
}

/// Whether reading the RMC fields would cut a UTF-8 character.
pub(crate) fn would_abort(f: &[Vec<u8>]) -> (r: bool)
    ensures
        r == rmc_aborts(fields_of(f@)),
{
    if f.len() < 9 {
        return false;
    }
    if time_field_would_abort(f[0].as_slice()) {
        return true;
    }
    if NmeaTime::parse_field(f[0].as_slice()).is_err() {
        return false;
    }
    coordinate_would_abort(f[2].as_slice()) || coordinate_would_abort(f[4].as_slice())
        || date_field_would_abort(f[8].as_slice())
}

pub(crate) fn parse(_system: GnssSystem, f: &[Vec<u8>]) -> (r: Option<RmcData>)
    requires
        !rmc_aborts(fields_of(f@)),
    ensures
        r.deep_view() == rmc_fields(fields_of(f@)),
        r matches Some(d) ==> d.wf(),
{
    if f.len() < 9 {
        return None;
    }
    let time = match NmeaTime::parse_field(f[0].as_slice()) {
        Ok(t) => t,
        Err(_) => return None,
    };
    let valid = field_is(f[1].as_slice(), 65);
    let lat = match parse_latlon(f[2].as_slice(), f[3].as_slice()) {
        Some(c) => c,
        None => Coordinate::zero(),
    };
    let lon = match parse_latlon(f[4].as_slice(), f[5].as_slice()) {
        Some(c) => c,
        None => Coordinate::zero(),
    };
    let zero = [48u8, 46, 48];
    proof {
        crate::types::lemma_fallbacks_read();
        assert(zero@ == zero_text());
    }
    let speed_knots = FloatText::from_field_or(f[6].as_slice(), zero.as_slice());
    let course_deg = FloatText::from_field_or(f[7].as_slice(), zero.as_slice());
    let date = match NmeaDate::parse_field(f[8].as_slice()) {
        Ok(d) => d,
        Err(_) => NmeaDate { day: 0, month: 0, year: 0 },
    };
    Some(RmcData { time, date, valid, lat, lon, speed_knots, course_deg })
}


// ── Laws ─────────────────────────────────────────────────────────────────────

/// An RMC sentence (time, status, latitude, N/S, longitude, E/W, speed in
/// knots, course, date, …) reads back each value from its own field; the fix
/// is valid exactly when the status is `A`.
pub proof fn lemma_rmc_reads_layout(
    time: Seq<u8>,
    status: Seq<u8>,
    lat: Seq<u8>,
    ns: Seq<u8>,
    lon: Seq<u8>,
    ew: Seq<u8>,
    speed: Seq<u8>,
    course: Seq<u8>,
    date: Seq<u8>,
    rest: Seq<Seq<u8>>,
)
    requires
        time_field(time) is Some,
        date_field(date) is Some,
        coordinate_field(lat, ns) is Some,
        coordinate_field(lon, ew) is Some,
        is_float_literal(speed),
        is_float_literal(course),
    ensures
        rmc_fields(seq![time, status, lat, ns, lon, ew, speed, course, date] + rest) == Some(
            RmcModel {
                time: time_field(time).unwrap(),
                date: date_field(date).unwrap(),
                valid: status == seq![65u8],
                lat: coordinate_field(lat, ns).unwrap(),
                lon: coordinate_field(lon, ew).unwrap(),
                speed_knots: speed,
                course_deg: course,
            },
        ),
{
    let f = seq![time, status, lat, ns, lon, ew, speed, course, date] + rest;
    assert(f[0] == time && f[1] == status && f[2] == lat && f[3] == ns && f[4] == lon);
    assert(f[5] == ew && f[6] == speed && f[7] == course && f[8] == date);
}

} // verus!
