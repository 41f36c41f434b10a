//! GSA — fix mode, satellites used, dilution of precision.
use vstd::prelude::*;
use crate::text::{decimal_text, is_float_literal, lemma_decimal_text_reads, parse_u16, parse_u16_spec};
use crate::types::{
    float_or, unknown_dop_text, DopModel, DopValues, FixMode, FloatText, GnssSystem,
};
use super::{field_is, fields_of};

verus! {

#[derive(Debug, PartialEq, Eq)]
pub struct GsaData {
    pub system: GnssSystem,
    pub fix_mode: FixMode,
    pub pdop: FloatText,
    pub hdop: FloatText,
    pub vdop: FloatText,
    pub svids: [Option<u16>; 12],
}

pub ghost struct GsaModel {
    pub system: GnssSystem,
    pub fix_mode: FixMode,
    pub pdop: Seq<u8>,
    pub hdop: Seq<u8>,
    pub vdop: Seq<u8>,
    pub svids: Seq<Option<u16>>,
}

impl DeepView for GsaData {
    type V = GsaModel;

    open spec fn deep_view(&self) -> GsaModel {
        GsaModel {
            system: self.system,
            fix_mode: self.fix_mode,
            pdop: self.pdop.deep_view(),
            hdop: self.hdop.deep_view(),
            vdop: self.vdop.deep_view(),
            svids: self.svids@,
        }
    }
}

impl GsaData {
    pub open spec fn wf(&self) -> bool {
        self.pdop.wf() && self.hdop.wf() && self.vdop.wf()
    }
}

impl Clone for GsaData {
    fn clone(&self) -> (r: Self)
        ensures
            r.deep_view() == self.deep_view(),
            r.wf() == self.wf(),
    {
        GsaData {
            system: self.system,
            fix_mode: self.fix_mode,
            pdop: self.pdop.clone(),
            hdop: self.hdop.clone(),
            vdop: self.vdop.clone(),
            svids: self.svids,
        }
    }
}

/// The dilution-of-precision values a GSA sentence carries.
pub open spec fn dop_of_gsa(g: GsaModel) -> DopModel {
    DopModel { pdop: g.pdop, hdop: g.hdop, vdop: g.vdop }
}

impl DopValues {
    /// The three DOP values of a GSA sentence.
    pub fn from_gsa(g: GsaData) -> (r: DopValues)
        ensures
            r.deep_view() == dop_of_gsa(g.deep_view()),
            g.wf() ==> r.wf(),
    {
        DopValues { pdop: g.pdop, hdop: g.hdop, vdop: g.vdop }
    }
}

/// `2` → 2D fix, `3` → 3D fix, anything else → no fix.
pub open spec fn fix_mode_of(f: Seq<u8>) -> FixMode {
    if f == seq![50u8] {
        FixMode::Fix2D
    } else if f == seq![51u8] {
        FixMode::Fix3D
    } else {
        FixMode::NoFix
    }
}

/// NMEA 4.1 system id: `1` GPS, `2` GLONASS, `4` BeiDou, `8` Galileo;
/// anything else keeps the talker's constellation.
pub open spec fn system_of_id(f: Seq<u8>, talker: GnssSystem) -> GnssSystem {
    if f == seq![49u8] {
        GnssSystem::Gps
    } else if f == seq![50u8] {
        GnssSystem::Glonass
    } else if f == seq![52u8] {
        GnssSystem::Beidou
    } else if f == seq![56u8] {
        GnssSystem::Galileo
    } else {
        talker
    }
}

/// Reading of the GSA fields (mode, fix type, 12 satellite ids, PDOP, HDOP,
/// VDOP, system id). The DOP values fall back to 99.9.
pub open spec fn gsa_fields(system: GnssSystem, f: Seq<Seq<u8>>) -> Option<GsaModel> {
    if f.len() < 15 {
        None
    } else {
        Some(
            GsaModel {
                system: if f.len() > 17 {
                    system_of_id(f[17], system)
                } else {
                    system
                },
                fix_mode: fix_mode_of(f[1]),
                pdop: float_or(f[14], unknown_dop_text()),
                hdop: if f.len() > 15 {
                    float_or(f[15], unknown_dop_text())
                } else {
                    unknown_dop_text()
                },
                vdop: if f.len() > 16 {
                    float_or(f[16], unknown_dop_text())
                } else {
                    unknown_dop_text()
                },
                svids: Seq::new(12, |i: int| parse_u16_spec(f[2 + i])),
            },
        )
    }
}

pub(crate) fn parse(system: GnssSystem, f: &[Vec<u8>]) -> (r: Option<GsaData>)
    ensures
        r.deep_view() == gsa_fields(system, fields_of(f@)),
        r matches Some(d) ==> d.wf(),
{
    let ghost fs = fields_of(f@);
    if f.len() < 15 {
        return None;
    }
    let fix_mode = if field_is(f[1].as_slice(), 50) {
        FixMode::Fix2D
    } else if field_is(f[1].as_slice(), 51) {
        FixMode::Fix3D
    } else {
        FixMode::NoFix
    };
    let mut svids = [None::<u16>; 12];
    let mut i: usize = 0;
    while i < 12
        invariant
            i <= 12,
            f@.len() >= 15,
            fs == fields_of(f@),
            svids@.len() == 12,
            forall|k: int| 0 <= k < i ==> svids@[k] == parse_u16_spec(#[trigger] fs[2 + k]),
        decreases 12 - i,
    {
        if f[2 + i].len() > 0 {
            svids[i] = parse_u16(f[2 + i].as_slice());
        } else {
            proof {
                reveal(parse_u16_spec);
            }
            svids[i] = None;
        }
        i += 1;
    }
    let fallback = [57u8, 57, 46, 57];
    proof {
        crate::types::lemma_fallbacks_read();
        assert(fallback@ == unknown_dop_text());
    }
    let pdop = FloatText::from_field_or(f[14].as_slice(), fallback.as_slice());
    let hdop = if f.len() > 15 {
        FloatText::from_field_or(f[15].as_slice(), fallback.as_slice())
    } else {
        FloatText::from_field_or(fallback.as_slice(), fallback.as_slice())
    };
    let vdop = if f.len() > 16 {
        FloatText::from_field_or(f[16].as_slice(), fallback.as_slice())
    } else {
        FloatText::from_field_or(fallback.as_slice(), fallback.as_slice())
    };
    let resolved_system = if f.len() > 17 {
        let id = f[17].as_slice();
        if field_is(id, 49) {
            GnssSystem::Gps
        } else if field_is(id, 50) {
            GnssSystem::Glonass
        } else if field_is(id, 52) {
            GnssSystem::Beidou
        } else if field_is(id, 56) {
            GnssSystem::Galileo
        } else {
            system
        }
    } else {
        system
    };
    let r = GsaData { system: resolved_system, fix_mode, pdop, hdop, vdop, svids };
    assert(r.deep_view().svids =~= Seq::new(12, |k: int| parse_u16_spec(fs[2 + k])));
    Some(r)
}


// ── Laws ─────────────────────────────────────────────────────────────────────

/// The NMEA 4.1 system id in a GSA sentence's 18th field names the
/// constellation the listed satellites belong to, whatever the talker:
/// `1` GPS, `2` GLONASS, `4` BeiDou, `8` Galileo; with any other id, or
/// none, the talker's constellation is kept.
pub proof fn lemma_gsa_system_id(talker: GnssSystem, f: Seq<Seq<u8>>)
    requires
        f.len() >= 15,
    ensures
        gsa_fields(talker, f) is Some,
        f.len() >= 18 && f[17] == seq![49u8] ==> gsa_fields(talker, f).unwrap().system == GnssSystem::Gps,
        f.len() >= 18 && f[17] == seq![50u8] ==> gsa_fields(talker, f).unwrap().system == GnssSystem::Glonass,
        f.len() >= 18 && f[17] == seq![52u8] ==> gsa_fields(talker, f).unwrap().system == GnssSystem::Beidou,
        f.len() >= 18 && f[17] == seq![56u8] ==> gsa_fields(talker, f).unwrap().system == GnssSystem::Galileo,
        f.len() < 18 || (f[17] != seq![49u8] && f[17] != seq![50u8] && f[17] != seq![52u8] && f[17]
            != seq![56u8]) ==> gsa_fields(talker, f).unwrap().system == talker,
{
    assert(seq![50u8][0] != seq![49u8][0]);
    assert(seq![52u8][0] != seq![49u8][0] && seq![52u8][0] != seq![50u8][0]);
    assert(seq![56u8][0] != seq![49u8][0] && seq![56u8][0] != seq![50u8][0] && seq![56u8][0] != seq![52u8][0]);
}

/// A GSA sentence reads back its layout: the fix type from the second field
/// (`2` a 2D fix, `3` a 3D fix, anything else none), the twelve satellite
/// ids in the order written, then PDOP, HDOP and VDOP.
pub proof fn lemma_gsa_reads_layout(talker: GnssSystem, f: Seq<Seq<u8>>, ids: Seq<nat>)
    requires
        f.len() >= 17,
        ids.len() == 12,
        forall|i: int| 0 <= i < 12 ==> ids[i] <= 65535 && f[2 + i] == decimal_text(#[trigger] ids[i]),
        is_float_literal(f[14]),
        is_float_literal(f[15]),
        is_float_literal(f[16]),
    ensures
        gsa_fields(talker, f) is Some,
        gsa_fields(talker, f).unwrap().svids == Seq::new(12, |i: int| Some(ids[i] as u16)),
        gsa_fields(talker, f).unwrap().pdop == f[14],
        gsa_fields(talker, f).unwrap().hdop == f[15],
        gsa_fields(talker, f).unwrap().vdop == f[16],
        f[1] == seq![50u8] ==> gsa_fields(talker, f).unwrap().fix_mode == FixMode::Fix2D,
        f[1] == seq![51u8] ==> gsa_fields(talker, f).unwrap().fix_mode == FixMode::Fix3D,
        f[1] != seq![50u8] && f[1] != seq![51u8] ==> gsa_fields(talker, f).unwrap().fix_mode == FixMode::NoFix,
{
    assert(seq![51u8][0] != seq![50u8][0]);
    let g = gsa_fields(talker, f).unwrap();
    assert forall|i: int| 0 <= i < 12 implies g.svids[i] == Some(ids[i] as u16) by {
        lemma_decimal_text_reads(ids[i]);
    }
    assert(g.svids =~= Seq::new(12, |i: int| Some(ids[i] as u16)));
}

} // verus!
