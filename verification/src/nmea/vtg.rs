//! VTG — course and speed over ground.
use vstd::prelude::*;
use crate::text::is_float_literal;
use crate::types::{float_or, zero_text, FloatText};
use super::fields_of;

verus! {

#[derive(Debug, PartialEq, Eq)]
pub struct VtgData {
    pub course_true: FloatText,
    pub speed_knots: FloatText,
    pub speed_kmh: FloatText,
}

pub ghost struct VtgModel {
    pub course_true: Seq<u8>,
    pub speed_knots: Seq<u8>,
    pub speed_kmh: Seq<u8>,
}

impl DeepView for VtgData {
    type V = VtgModel;

    open spec fn deep_view(&self) -> VtgModel {
        VtgModel {
            course_true: self.course_true.deep_view(),
            speed_knots: self.speed_knots.deep_view(),
            speed_kmh: self.speed_kmh.deep_view(),
        }
    }
}

impl VtgData {
    pub open spec fn wf(&self) -> bool {
        self.course_true.wf() && self.speed_knots.wf() && self.speed_kmh.wf()
    }
}

impl Clone for VtgData {
    fn clone(&self) -> (r: Self)
        ensures
            r.deep_view() == self.deep_view(),
            r.wf() == self.wf(),
    {
        VtgData {
            course_true: self.course_true.clone(),
            speed_knots: self.speed_knots.clone(),
            speed_kmh: self.speed_kmh.clone(),
        }
    }
}

/// Reading of the VTG fields (true course, T, magnetic course, M, knots, N,
/// km/h, K, mode); each value falls back to 0.0.
pub open spec fn vtg_fields(f: Seq<Seq<u8>>) -> Option<VtgModel> {
    if f.len() < 7 {
        None
    } else {
        Some(
            VtgModel {
                course_true: float_or(f[0], zero_text()),
                speed_knots: float_or(f[4], zero_text()),
                speed_kmh: float_or(f[6], zero_text()),
            },
        )
    }
}

pub(crate) fn parse(f: &[Vec<u8>]) -> (r: Option<VtgData>)
    ensures
        r.deep_view() == vtg_fields(fields_of(f@)),
        r matches Some(d) ==> d.wf(),
{
    if f.len() < 7 {
        return None;
    }
    let zero = [48u8, 46, 48];
    proof {
        crate::types::lemma_fallbacks_read();
        assert(zero@ == zero_text());
    }
    let course_true = FloatText::from_field_or(f[0].as_slice(), zero.as_slice());
    let speed_knots = FloatText::from_field_or(f[4].as_slice(), zero.as_slice());
    let speed_kmh = FloatText::from_field_or(f[6].as_slice(), zero.as_slice());
    Some(VtgData { course_true, speed_knots, speed_kmh })
}


// ── Laws ─────────────────────────────────────────────────────────────────────

/// A VTG sentence (true course, `T`, magnetic course, `M`, speed in knots,
/// `N`, speed in km/h, `K`, …) reads back the true course and both speeds
/// from their own fields.
pub proof fn lemma_vtg_reads_layout(
    course_true: Seq<u8>,
    course_mag: Seq<u8>,
    knots: Seq<u8>,
    kmh: Seq<u8>,
    rest: Seq<Seq<u8>>,
)
    requires
        is_float_literal(course_true),
        is_float_literal(knots),
        is_float_literal(kmh),
    ensures
        vtg_fields(seq![course_true, seq![84u8], course_mag, seq![77u8], knots, seq![78u8], kmh, seq![75u8]] + rest)
            == Some(VtgModel { course_true, speed_knots: knots, speed_kmh: kmh }),
{
    let f = seq![course_true, seq![84u8], course_mag, seq![77u8], knots, seq![78u8], kmh, seq![75u8]] + rest;
    assert(f[0] == course_true && f[4] == knots && f[6] == kmh);
}

} // verus!
