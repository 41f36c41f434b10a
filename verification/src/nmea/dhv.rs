//! DHV — velocity in three dimensions.
use vstd::prelude::*;
use crate::text::is_float_literal;
use crate::types::{float_or, zero_text, FloatText};
use super::fields_of;

verus! {

#[derive(Debug, PartialEq, Eq)]
pub struct DhvData {
    pub speed_3d: FloatText,
    pub speed_x: FloatText,
    pub speed_y: FloatText,
    pub speed_z: FloatText,
    pub ground_speed: FloatText,
}

pub ghost struct DhvModel {
    pub speed_3d: Seq<u8>,
    pub speed_x: Seq<u8>,
    pub speed_y: Seq<u8>,
    pub speed_z: Seq<u8>,
    pub ground_speed: Seq<u8>,
}

impl DeepView for DhvData {
    type V = DhvModel;

    open spec fn deep_view(&self) -> DhvModel {
        DhvModel {
            speed_3d: self.speed_3d.deep_view(),
            speed_x: self.speed_x.deep_view(),
            speed_y: self.speed_y.deep_view(),
            speed_z: self.speed_z.deep_view(),
            ground_speed: self.ground_speed.deep_view(),
        }
    }
}

impl DhvData {
    pub open spec fn wf(&self) -> bool {
        self.speed_3d.wf() && self.speed_x.wf() && self.speed_y.wf() && self.speed_z.wf()
            && self.ground_speed.wf()
    }
}

impl Clone for DhvData {
    fn clone(&self) -> (r: Self)
        ensures
            r.deep_view() == self.deep_view(),
            r.wf() == self.wf(),
    {
        DhvData {
            speed_3d: self.speed_3d.clone(),
            speed_x: self.speed_x.clone(),
            speed_y: self.speed_y.clone(),
            speed_z: self.speed_z.clone(),
            ground_speed: self.ground_speed.clone(),
        }
    }
}

/// Reading of the DHV fields (UTC time, 3D speed, x, y, z, ground speed, …);
/// each value falls back to 0.0.
pub open spec fn dhv_fields(f: Seq<Seq<u8>>) -> Option<DhvModel> {
    if f.len() < 6 {
        None
    } else {
        Some(
            DhvModel {
                speed_3d: float_or(f[1], zero_text()),
                speed_x: float_or(f[2], zero_text()),
                speed_y: float_or(f[3], zero_text()),
                speed_z: float_or(f[4], zero_text()),
                ground_speed: float_or(f[5], zero_text()),
            },
        )
    }
}

pub(crate) fn parse(f: &[Vec<u8>]) -> (r: Option<DhvData>)
    ensures
        r.deep_view() == dhv_fields(fields_of(f@)),
        r matches Some(d) ==> d.wf(),
{
    if f.len() < 6 {
        return None;
    }
    let zero = [48u8, 46, 48];
    proof {
        crate::types::lemma_fallbacks_read();
        assert(zero@ == zero_text());
    }
    let speed_3d = FloatText::from_field_or(f[1].as_slice(), zero.as_slice());
    let speed_x = FloatText::from_field_or(f[2].as_slice(), zero.as_slice());
    let speed_y = FloatText::from_field_or(f[3].as_slice(), zero.as_slice());
    let speed_z = FloatText::from_field_or(f[4].as_slice(), zero.as_slice());
    let ground_speed = FloatText::from_field_or(f[5].as_slice(), zero.as_slice());
    Some(DhvData { speed_3d, speed_x, speed_y, speed_z, ground_speed })
}


// ── Laws ─────────────────────────────────────────────────────────────────────

/// A DHV sentence (time, 3D speed, X, Y and Z speeds, ground speed, …)
/// reads back each speed from its own field.
pub proof fn lemma_dhv_reads_layout(
    time: Seq<u8>,
    speed_3d: Seq<u8>,
    speed_x: Seq<u8>,
    speed_y: Seq<u8>,
    speed_z: Seq<u8>,
    ground_speed: Seq<u8>,
    rest: Seq<Seq<u8>>,
)
    requires
        is_float_literal(speed_3d),
        is_float_literal(speed_x),
        is_float_literal(speed_y),
        is_float_literal(speed_z),
        is_float_literal(ground_speed),
    ensures
        dhv_fields(seq![time, speed_3d, speed_x, speed_y, speed_z, ground_speed] + rest) == Some(
            DhvModel { speed_3d, speed_x, speed_y, speed_z, ground_speed },
        ),
{
    let f = seq![time, speed_3d, speed_x, speed_y, speed_z, ground_speed] + rest;
    assert(f[1] == speed_3d && f[2] == speed_x && f[3] == speed_y && f[4] == speed_z && f[5] == ground_speed);
}

} // verus!
