//! GGA — time, position and fix data.
use vstd::prelude::*;
use crate::text::{decimal_text, is_float_literal, lemma_decimal_text_reads, parse_u8, parse_u8_spec};
use crate::types::{
    coordinate_aborts, coordinate_field, coordinate_would_abort, float_or, parse_latlon, time_field,
    time_field_aborts, time_field_would_abort,
    unknown_dop_text, zero_text, Coordinate, CoordinateModel, FixQuality, FloatText, GnssSystem,
    NmeaTime,
};
use super::{field_is, fields_of, u8_or_zero};

verus! {

#[derive(Debug, PartialEq, Eq)]
pub struct GgaData {
    pub time: NmeaTime,
    pub lat: Coordinate,
    pub lon: Coordinate,
    pub fix_quality: FixQuality,
    pub sats_used: u8,
    pub hdop: FloatText,
    pub alt_msl: FloatText,
    pub geoid_sep: FloatText,
}

pub ghost struct GgaModel {
    pub time: NmeaTime,
    pub lat: CoordinateModel,
    pub lon: CoordinateModel,
    pub fix_quality: FixQuality,
    pub sats_used: u8,
    pub hdop: Seq<u8>,
    pub alt_msl: Seq<u8>,
    pub geoid_sep: Seq<u8>,
}

impl DeepView for GgaData {
    type V = GgaModel;

    open spec fn deep_view(&self) -> GgaModel {
        GgaModel {
            time: self.time,
            lat: self.lat.deep_view(),
            lon: self.lon.deep_view(),
            fix_quality: self.fix_quality,
            sats_used: self.sats_used,
            hdop: self.hdop.deep_view(),
            alt_msl: self.alt_msl.deep_view(),
            geoid_sep: self.geoid_sep.deep_view(),
        }
    }
}

impl GgaData {
    /// Every decimal text reads as a number.
    pub open spec fn wf(&self) -> bool {
        self.lat.wf() && self.lon.wf() && self.hdop.wf() && self.alt_msl.wf() && self.geoid_sep.wf()
    }

    pub open spec fn spec_is_valid(&self) -> bool {
        self.fix_quality != FixQuality::Invalid
    }

    /// A fix is reported (quality other than invalid).
    #[verifier::when_used_as_spec(spec_is_valid)]
    pub fn is_valid(&self) -> (r: bool)
        ensures
            r == self.spec_is_valid(),
    {
        self.fix_quality != FixQuality::Invalid
    }
}

impl Clone for GgaData {
    fn clone(&self) -> (r: Self)
        ensures
            r.deep_view() == self.deep_view(),
            r.wf() == self.wf(),
    {
        GgaData {
            time: self.time,
            lat: self.lat.clone(),
            lon: self.lon.clone(),
            fix_quality: self.fix_quality,
            sats_used: self.sats_used,
            hdop: self.hdop.clone(),
            alt_msl: self.alt_msl.clone(),
            geoid_sep: self.geoid_sep.clone(),
        }
    }
}

/// `1` → SPS fix, `6` → estimated (dead reckoning), anything else → invalid.
pub open spec fn fix_quality_of(f: Seq<u8>) -> FixQuality {
    if f == seq![49u8] {
        FixQuality::Sps
    } else if f == seq![54u8] {
        FixQuality::Estimated
    } else {
        FixQuality::Invalid
    }
}

/// Reading of the GGA fields (UTC time, lat, N/S, lon, E/W, quality, satellites
/// used, HDOP, altitude, unit, geoid separation, …). Time and both coordinates
/// are required; HDOP falls back to 99.9, altitude and separation to 0.0,
/// satellites to 0.
pub open spec fn gga_fields(f: Seq<Seq<u8>>) -> Option<GgaModel> {
    if f.len() < 9 {
        None
    } else {
        match (time_field(f[0]), coordinate_field(f[1], f[2]), coordinate_field(f[3], f[4])) {
            (Some(time), Some(lat), Some(lon)) => Some(
                GgaModel {
                    time,
                    lat,
                    lon,
                    fix_quality: fix_quality_of(f[5]),
                    sats_used: u8_or_zero(f[6]),
                    hdop: float_or(f[7], unknown_dop_text()),
                    alt_msl: float_or(f[8], zero_text()),
                    geoid_sep: if f.len() > 10 {
                        float_or(f[10], zero_text())
                    } else {
                        zero_text()
                    },
                },
            ),
            _ => None,
        }
    }
}

/// GGA fields on which reading the time or a coordinate would cut a UTF-8
/// character (the reading stops at the first field that fails).
pub open spec fn gga_aborts(f: Seq<Seq<u8>>) -> bool {
    f.len() >= 9 && (time_field_aborts(f[0]) || (time_field(f[0]).is_some() && (coordinate_aborts(
        f[1],
    ) || (coordinate_field(f[1], f[2]).is_some() && coordinate_aborts(f[3])))))
}

/// Whether reading the GGA fields would cut a UTF-8 character.
pub(crate) fn would_abort(f: &[Vec<u8>]) -> (r: bool)
    ensures
        r == gga_aborts(fields_of(f@)),
{
    if f.len() < 9 {
        return false;
    }
    if time_field_would_abort(f[0].as_slice()) {
        return true;
    }
    if NmeaTime::parse_field(f[0].as_slice()).is_err() {
        return false;
    }
    if coordinate_would_abort(f[1].as_slice()) {
        return true;
    }
    if parse_latlon(f[1].as_slice(), f[2].as_slice()).is_none() {
        return false;
    }
    coordinate_would_abort(f[3].as_slice())
}

pub(crate) fn parse(_system: GnssSystem, f: &[Vec<u8>]) -> (r: Option<GgaData>)
    requires
        !gga_aborts(fields_of(f@)),
    ensures
        r.deep_view() == gga_fields(fields_of(f@)),
        r matches Some(g) ==> g.wf(),
{
    let ghost fs = fields_of(f@);
    if f.len() < 9 {
        return None;
    }
    let time = match NmeaTime::parse_field(f[0].as_slice()) {
        Ok(t) => t,
        Err(_) => return None,
    };
    let lat = match parse_latlon(f[1].as_slice(), f[2].as_slice()) {
        Some(c) => c,
        None => return None,
    };
    let lon = match parse_latlon(f[3].as_slice(), f[4].as_slice()) {
        Some(c) => c,
        None => return None,
    };
    let fix_quality = if field_is(f[5].as_slice(), 49) {
        FixQuality::Sps
    } else if field_is(f[5].as_slice(), 54) {
        FixQuality::Estimated
    } else {
        FixQuality::Invalid
    };
    let sats_used: u8 = match parse_u8(f[6].as_slice()) {
        Some(v) => v,
        None => 0,
    };
    let dop_fallback = [57u8, 57, 46, 57];
    let zero = [48u8, 46, 48];
    proof {
        crate::types::lemma_fallbacks_read();
        assert(dop_fallback@ == unknown_dop_text());
        assert(zero@ == zero_text());
    }
    let hdop = FloatText::from_field_or(f[7].as_slice(), dop_fallback.as_slice());
    let alt_msl = FloatText::from_field_or(f[8].as_slice(), zero.as_slice());
    let geoid_sep = if f.len() > 10 {
        FloatText::from_field_or(f[10].as_slice(), zero.as_slice())
    } else {
        FloatText::zero()
    };
    Some(GgaData { time, lat, lon, fix_quality, sats_used, hdop, alt_msl, geoid_sep })
}


// ── Laws ─────────────────────────────────────────────────────────────────────

/// The fields of a GGA sentence laid out as the module sends them: UTC time,
/// latitude, N/S, longitude, E/W, fix quality, satellites used, HDOP,
/// altitude, its unit `M`, geoid separation, its unit `M`, then the rest.
pub open spec fn gga_layout(
    time: Seq<u8>,
    lat: Seq<u8>,
    ns: Seq<u8>,
    lon: Seq<u8>,
    ew: Seq<u8>,
    quality: Seq<u8>,
    used: nat,
    hdop: Seq<u8>,
    msl: Seq<u8>,
    sep: Seq<u8>,
    rest: Seq<Seq<u8>>,
) -> Seq<Seq<u8>> {
    seq![time, lat, ns, lon, ew, quality, decimal_text(used), hdop, msl, seq![77u8], sep, seq![77u8]] + rest
}

/// A GGA sentence reads back what was written in each of its fields: the
/// satellites-used count, HDOP, the altitude and the geoid separation (not
/// the unit fields beside them), together with its time and coordinates.
pub proof fn lemma_gga_reads_layout(
    time: Seq<u8>,
    lat: Seq<u8>,
    ns: Seq<u8>,
    lon: Seq<u8>,
    ew: Seq<u8>,
    quality: Seq<u8>,
    used: nat,
    hdop: Seq<u8>,
    msl: Seq<u8>,
    sep: Seq<u8>,
    rest: Seq<Seq<u8>>,
)
    requires
        time_field(time) is Some,
        coordinate_field(lat, ns) is Some,
        coordinate_field(lon, ew) is Some,
        used <= 255,
        is_float_literal(hdop),
        is_float_literal(msl),
        is_float_literal(sep),
    ensures
        gga_fields(gga_layout(time, lat, ns, lon, ew, quality, used, hdop, msl, sep, rest)) == Some(
            GgaModel {
                time: time_field(time).unwrap(),
                lat: coordinate_field(lat, ns).unwrap(),
                lon: coordinate_field(lon, ew).unwrap(),
                fix_quality: fix_quality_of(quality),
                sats_used: used as u8,
                hdop,
                alt_msl: msl,
                geoid_sep: sep,
            },
        ),
{
    let f = gga_layout(time, lat, ns, lon, ew, quality, used, hdop, msl, sep, rest);
    assert(f[0] == time && f[1] == lat && f[2] == ns && f[3] == lon && f[4] == ew);
    assert(f[5] == quality && f[6] == decimal_text(used) && f[7] == hdop && f[8] == msl && f[10] == sep);
    lemma_decimal_text_reads(used);
}

/// GGA fix quality: `1` is a standard fix, `6` an estimated (dead
/// reckoning) one; any other value is no fix.
pub proof fn lemma_gga_fix_quality(q: Seq<u8>)
    ensures
        fix_quality_of(seq![49u8]) == FixQuality::Sps,
        fix_quality_of(seq![54u8]) == FixQuality::Estimated,
        q != seq![49u8] && q != seq![54u8] ==> fix_quality_of(q) == FixQuality::Invalid,
{
    assert(seq![54u8][0] != seq![49u8][0]);
}

} // verus!
