//! GSV — satellites in view, up to four per sentence.
use vstd::prelude::*;
use crate::text::{
    decimal_text, lemma_decimal_text_reads, parse_i8, parse_i8_spec, parse_u16, parse_u16_spec, parse_u8,
    parse_u8_spec,
};
use crate::types::{GnssSystem, SatInfo};
use super::{fields_of, u8_or_zero};

verus! {

#[derive(Clone, Copy, Debug, PartialEq, Eq)]
pub struct GsvData {
    pub system: GnssSystem,
    pub total_msgs: u8,
    pub msg_num: u8,
    pub total_in_view: u8,
    pub sats: [Option<SatInfo>; 4],
}

pub ghost struct GsvModel {
    pub system: GnssSystem,
    pub total_msgs: u8,
    pub msg_num: u8,
    pub total_in_view: u8,
    pub sats: Seq<Option<SatInfo>>,
}

impl DeepView for GsvData {
    type V = GsvModel;

    open spec fn deep_view(&self) -> GsvModel {
        GsvModel {
            system: self.system,
            total_msgs: self.total_msgs,
            msg_num: self.msg_num,
            total_in_view: self.total_in_view,
            sats: self.sats@,
        }
    }
}

/// Satellite `i` (0..4) of a GSV sentence: present when its four fields
/// (id, elevation, azimuth, SNR) are all there and the id reads.
pub open spec fn gsv_sat(system: GnssSystem, f: Seq<Seq<u8>>, i: int) -> Option<SatInfo> {
    let base = 3 + 4 * i;
    if base + 4 <= f.len() {
        match parse_u16_spec(f[base]) {
            Some(svid) => Some(
                SatInfo {
                    svid,
                    system,
                    elevation: parse_i8_spec(f[base + 1]),
                    azimuth: parse_u16_spec(f[base + 2]),
                    snr: parse_u8_spec(f[base + 3]),
                    used: false,
                },
            ),
            None => None,
        }
    } else {
        None
    }
}

/// Reading of the GSV fields (message count, message number, satellites in
/// view, then id/elevation/azimuth/SNR per satellite). The two message
/// numbers are required; satellites in view falls back to 0.
pub open spec fn gsv_fields(system: GnssSystem, f: Seq<Seq<u8>>) -> Option<GsvModel> {
    if f.len() < 3 {
        None
    } else {
        match (parse_u8_spec(f[0]), parse_u8_spec(f[1])) {
            (Some(total), Some(num)) => Some(
                GsvModel {
                    system,
                    total_msgs: total,
                    msg_num: num,
                    total_in_view: u8_or_zero(f[2]),
                    sats: Seq::new(4, |i: int| gsv_sat(system, f, i)),
                },
            ),
            _ => None,
        }
    }
}

pub(crate) fn parse(system: GnssSystem, f: &[Vec<u8>]) -> (r: Option<GsvData>)
    ensures
        r.deep_view() == gsv_fields(system, fields_of(f@)),
{
    let ghost fs = fields_of(f@);
    if f.len() < 3 {
        return None;
    }
    let total_msgs = match parse_u8(f[0].as_slice()) {
        Some(v) => v,
        None => return None,
    };
    let msg_num = match parse_u8(f[1].as_slice()) {
        Some(v) => v,
        None => return None,
    };
    let total_in_view: u8 = match parse_u8(f[2].as_slice()) {
        Some(v) => v,
        None => 0,
    };
    let mut sats = [None::<SatInfo>; 4];
    let mut i: usize = 0;
    while i < 4
        invariant
            i <= 4,
            fs == fields_of(f@),
            f@.len() >= 3,
            sats@.len() == 4,
            forall|k: int| 0 <= k < i ==> sats@[k] == gsv_sat(system, fs, k),
        decreases 4 - i,
    {
        let base = 3 + 4 * i;
        if base + 4 <= f.len() {
        match parse_u16(f[base].as_slice()) {
            Some(svid) => {
                let elevation = parse_i8(f[base + 1].as_slice());
                let azimuth = parse_u16(f[base + 2].as_slice());
                let snr = if f[base + 3].len() == 0 {
                    proof {
                        reveal(parse_u8_spec);
                    }
                    None
                } else {
                    parse_u8(f[base + 3].as_slice())
                };
                sats[i] = Some(SatInfo { svid, system, elevation, azimuth, snr, used: false });
            },
            None => {
                sats[i] = None;
            },
        }
        } else {
            sats[i] = None;
        }
        i += 1;
    }
    let r = GsvData { system, total_msgs, msg_num, total_in_view, sats };
    assert(r.sats@ =~= Seq::new(4, |k: int| gsv_sat(system, fs, k)));
    Some(r)
}


// ── Laws ─────────────────────────────────────────────────────────────────────

/// The fields of a GSV sentence with a satellite group written from given
/// values at group `before.len() / 4`: message count, message number and
/// satellites in view, then groups of id, elevation, azimuth and SNR.
pub open spec fn gsv_with_group(
    head: Seq<Seq<u8>>,
    before: Seq<Seq<u8>>,
    svid: nat,
    elevation: nat,
    azimuth: nat,
    snr: nat,
    rest: Seq<Seq<u8>>,
) -> Seq<Seq<u8>> {
    head + before + seq![decimal_text(svid), decimal_text(elevation), decimal_text(azimuth), decimal_text(snr)]
        + rest
}

/// A satellite group written as id, elevation (degrees), azimuth (degrees)
/// and SNR (dB-Hz) reads back as that satellite, of the sentence's
/// constellation and not yet marked used, in the slot of its group.
pub proof fn lemma_gsv_reads_satellite(
    system: GnssSystem,
    head: Seq<Seq<u8>>,
    before: Seq<Seq<u8>>,
    svid: nat,
    elevation: nat,
    azimuth: nat,
    snr: nat,
    rest: Seq<Seq<u8>>,
)
    requires
        head.len() == 3,
        parse_u8_spec(head[0]) is Some,
        parse_u8_spec(head[1]) is Some,
        before.len() % 4 == 0,
        before.len() < 16,
        svid <= 65535,
        elevation <= 90,
        azimuth < 360,
        snr <= 99,
    ensures
        gsv_fields(system, gsv_with_group(head, before, svid, elevation, azimuth, snr, rest)) is Some,
        gsv_fields(system, gsv_with_group(head, before, svid, elevation, azimuth, snr, rest)).unwrap().sats[before.len()
            as int / 4] == Some(
            SatInfo {
                svid: svid as u16,
                system,
                elevation: Some(elevation as i8),
                azimuth: Some(azimuth as u16),
                snr: Some(snr as u8),
                used: false,
            },
        ),
{
    let f = gsv_with_group(head, before, svid, elevation, azimuth, snr, rest);
    let k: int = before.len() as int / 4;
    let base: int = 3 + 4 * k;
    assert(base == 3 + before.len());
    assert(f[base] == decimal_text(svid));
    assert(f[base + 1] == decimal_text(elevation));
    assert(f[base + 2] == decimal_text(azimuth));
    assert(f[base + 3] == decimal_text(snr));
    assert(f[0] == head[0] && f[1] == head[1]);
    lemma_decimal_text_reads(svid);
    lemma_decimal_text_reads(elevation);
    lemma_decimal_text_reads(azimuth);
    lemma_decimal_text_reads(snr);
    let d = gsv_fields(system, f).unwrap();
    assert(d.sats[k] == gsv_sat(system, f, k));
}


/// A GSV sentence reads its message count, message number and satellites in
/// view from its first three fields, in that order, and its satellites are
/// of the constellation it was read for.
pub proof fn lemma_gsv_reads_header(system: GnssSystem, total: nat, num: nat, in_view: nat, rest: Seq<Seq<u8>>)
    requires
        total <= 255,
        num <= 255,
        in_view <= 255,
    ensures
        gsv_fields(system, seq![decimal_text(total), decimal_text(num), decimal_text(in_view)] + rest) is Some,
        gsv_fields(system, seq![decimal_text(total), decimal_text(num), decimal_text(in_view)] + rest).unwrap().total_msgs
            == total as u8,
        gsv_fields(system, seq![decimal_text(total), decimal_text(num), decimal_text(in_view)] + rest).unwrap().msg_num
            == num as u8,
        gsv_fields(system, seq![decimal_text(total), decimal_text(num), decimal_text(in_view)] + rest).unwrap().total_in_view
            == in_view as u8,
        gsv_fields(system, seq![decimal_text(total), decimal_text(num), decimal_text(in_view)] + rest).unwrap().system
            == system,
{
    let f = seq![decimal_text(total), decimal_text(num), decimal_text(in_view)] + rest;
    assert(f[0] == decimal_text(total) && f[1] == decimal_text(num) && f[2] == decimal_text(in_view));
    lemma_decimal_text_reads(total);
    lemma_decimal_text_reads(num);
    lemma_decimal_text_reads(in_view);
}

} // verus!
