//! GST — pseudorange error statistics.
use vstd::prelude::*;
use crate::text::is_float_literal;
use crate::types::{float_or, zero_text, FloatText};
use super::fields_of;

verus! {

#[derive(Debug, PartialEq, Eq)]
pub struct GstData {
    pub rms: FloatText,
    pub std_lat: FloatText,
    pub std_lon: FloatText,
    pub std_alt: FloatText,
}

pub ghost struct GstModel {
    pub rms: Seq<u8>,
    pub std_lat: Seq<u8>,
    pub std_lon: Seq<u8>,
    pub std_alt: Seq<u8>,
}

impl DeepView for GstData {
    type V = GstModel;

    open spec fn deep_view(&self) -> GstModel {
        GstModel {
            rms: self.rms.deep_view(),
            std_lat: self.std_lat.deep_view(),
            std_lon: self.std_lon.deep_view(),
            std_alt: self.std_alt.deep_view(),
        }
    }
}

impl GstData {
    pub open spec fn wf(&self) -> bool {
        self.rms.wf() && self.std_lat.wf() && self.std_lon.wf() && self.std_alt.wf()
    }
}

impl Clone for GstData {
    fn clone(&self) -> (r: Self)
        ensures
            r.deep_view() == self.deep_view(),
            r.wf() == self.wf(),
    {
        GstData {
            rms: self.rms.clone(),
            std_lat: self.std_lat.clone(),
            std_lon: self.std_lon.clone(),
            std_alt: self.std_alt.clone(),
        }
    }
}

/// Reading of the GST fields (UTC time, RMS, major, minor, orientation,
/// σ latitude, σ longitude, σ altitude); each value falls back to 0.0.
pub open spec fn gst_fields(f: Seq<Seq<u8>>) -> Option<GstModel> {
    if f.len() < 8 {
        None
    } else {
        Some(
            GstModel {
                rms: float_or(f[1], zero_text()),
                std_lat: float_or(f[5], zero_text()),
                std_lon: float_or(f[6], zero_text()),
                std_alt: float_or(f[7], zero_text()),
            },
        )
    }
}

pub(crate) fn parse(f: &[Vec<u8>]) -> (r: Option<GstData>)
    ensures
        r.deep_view() == gst_fields(fields_of(f@)),
        r matches Some(d) ==> d.wf(),
{
    if f.len() < 8 {
        return None;
    }
    let zero = [48u8, 46, 48];
    proof {
        crate::types::lemma_fallbacks_read();
        assert(zero@ == zero_text());
    }
    let rms = FloatText::from_field_or(f[1].as_slice(), zero.as_slice());
    let std_lat = FloatText::from_field_or(f[5].as_slice(), zero.as_slice());
    let std_lon = FloatText::from_field_or(f[6].as_slice(), zero.as_slice());
    let std_alt = FloatText::from_field_or(f[7].as_slice(), zero.as_slice());
    Some(GstData { rms, std_lat, std_lon, std_alt })
}


// ── Laws ─────────────────────────────────────────────────────────────────────

/// A GST sentence (time, RMS, semi-major and semi-minor deviation, their
/// orientation, then the latitude, longitude and altitude deviations) reads
/// back the RMS and the three position deviations from their own fields.
pub proof fn lemma_gst_reads_layout(
    time: Seq<u8>,
    rms: Seq<u8>,
    major: Seq<u8>,
    minor: Seq<u8>,
    orientation: Seq<u8>,
    std_lat: Seq<u8>,
    std_lon: Seq<u8>,
    std_alt: Seq<u8>,
    rest: Seq<Seq<u8>>,
)
    requires
        is_float_literal(rms),
        is_float_literal(std_lat),
        is_float_literal(std_lon),
        is_float_literal(std_alt),
    ensures
        gst_fields(seq![time, rms, major, minor, orientation, std_lat, std_lon, std_alt] + rest) == Some(
            GstModel { rms, std_lat, std_lon, std_alt },
        ),
{
    let f = seq![time, rms, major, minor, orientation, std_lat, std_lon, std_alt] + rest;
    assert(f[1] == rms && f[5] == std_lat && f[6] == std_lon && f[7] == std_alt);
}

} // verus!
