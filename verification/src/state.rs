//! Receiver state: the sentence types, the store interface shared by the
//! host and embedded stores, and feeding raw lines into a store.
use vstd::prelude::*;
use crate::command::{BaudRate, ConstellationMask, UpdateRate};
use crate::nmea::dhv::{DhvData, DhvModel};
use crate::nmea::gga::{GgaData, GgaModel};
use crate::nmea::gsa::{dop_of_gsa, GsaData, GsaModel};
use crate::nmea::gsv::{gsv_fields, GsvData, GsvModel};
use crate::nmea::rmc::{RmcData, RmcModel};
use crate::nmea::gst::{GstData, GstModel};
use crate::nmea::vtg::{VtgData, VtgModel};
use crate::nmea::zda::ZdaData;
use crate::nmea::{parse_sentence, sentence_of, ParsedSentence, SentenceModel};
use crate::types::{
    AntennaStatus, Coordinate, CoordinateModel, DopModel, DopValues, FixMode, FixQuality,
    FloatText, GnssSystem, NmeaDate, NmeaTime, SatInfo,
};

verus! {

/// Lightweight discriminant returned when only the sentence type is needed.
#[derive(Clone, Copy, Debug, PartialEq, Eq, Hash, Structural)]
pub enum SentenceType {
    Gga,
    Rmc,
    Gsa,
    Gsv,
    Vtg,
    Zda,
    Gst,
    Dhv,
    Txt,
}

impl SentenceType {
    pub open spec fn spec_label(self) -> Seq<char> {
        match self {
            SentenceType::Gga => "GGA"@,
            SentenceType::Rmc => "RMC"@,
            SentenceType::Gsa => "GSA"@,
            SentenceType::Gsv => "GSV"@,
            SentenceType::Vtg => "VTG"@,
            SentenceType::Zda => "ZDA"@,
            SentenceType::Gst => "GST"@,
            SentenceType::Dhv => "DHV"@,
            SentenceType::Txt => "TXT"@,
        }
    }

    /// The three-letter sentence name.
    pub fn to_string(self) -> (s: String)
        ensures
            s@ == self.spec_label(),
    {
        match self {
            Self::Gga => String::from_str("GGA"),
            Self::Rmc => String::from_str("RMC"),
            Self::Gsa => String::from_str("GSA"),
            Self::Gsv => String::from_str("GSV"),
            Self::Vtg => String::from_str("VTG"),
            Self::Zda => String::from_str("ZDA"),
            Self::Gst => String::from_str("GST"),
            Self::Dhv => String::from_str("DHV"),
            Self::Txt => String::from_str("TXT"),
        }
    }
}

// ── What a store holds ───────────────────────────────────────────────────────

/// The contents of a receiver store: the latest sentence of each kind, the
/// fix mode and DOP of the latest GSA, the antenna status, and the
/// satellites in view.
pub ghost struct StoreModel {
    pub gga: Option<GgaModel>,
    pub rmc: Option<RmcModel>,
    pub vtg: Option<VtgModel>,
    pub zda: Option<ZdaData>,
    pub gst: Option<GstModel>,
    pub dhv: Option<DhvModel>,
    pub fix_mode: FixMode,
    pub dop: DopModel,
    pub antenna: AntennaStatus,
    pub satellites: Seq<SatInfo>,
}

/// The svid list of a GSA sentence names this satellite.
pub open spec fn gsa_lists(g: GsaModel, s: SatInfo) -> bool {
    s.system == g.system && g.svids.contains(Some(s.svid))
}

/// The satellites after a GSA sentence: those of its constellation that it
/// lists are marked used; nothing else changes.
pub open spec fn mark_used(sats: Seq<SatInfo>, g: GsaModel) -> Seq<SatInfo> {
    Seq::new(
        sats.len(),
        |i: int|
            if gsa_lists(g, sats[i]) {
                SatInfo { used: true, ..sats[i] }
            } else {
                sats[i]
            },
    )
}

/// The satellites a GSV sentence lists, in order, skipping empty slots.
pub open spec fn listed_sats(s: Seq<Option<SatInfo>>) -> Seq<SatInfo>
    decreases s.len(),
{
    if s.len() == 0 {
        Seq::empty()
    } else {
        let rest = listed_sats(s.drop_last());
        match s.last() {
            Some(x) => rest.push(x),
            None => rest,
        }
    }
}

/// Satellites of another constellation than `system`.
pub open spec fn not_of(system: GnssSystem) -> spec_fn(SatInfo) -> bool {
    |s: SatInfo| s.system != system
}

/// Satellites of the constellation `system`.
pub open spec fn of_system(system: GnssSystem) -> spec_fn(SatInfo) -> bool {
    |s: SatInfo| s.system == system
}

/// The satellites of the constellation `system`, in order.
pub open spec fn own_system(sats: Seq<SatInfo>, system: GnssSystem) -> Seq<SatInfo> {
    sats.filter(of_system(system))
}

/// Satellites marked used.
pub open spec fn is_used() -> spec_fn(SatInfo) -> bool {
    |s: SatInfo| s.used
}

/// The satellites of other constellations than `system`, in order.
pub open spec fn other_systems(sats: Seq<SatInfo>, system: GnssSystem) -> Seq<SatInfo> {
    sats.filter(not_of(system))
}

/// The list a GSV sentence's satellites are appended to: the first message of
/// a group first drops the satellites of its constellation.
pub open spec fn gsv_base(sats: Seq<SatInfo>, d: GsvModel) -> Seq<SatInfo> {
    if d.msg_num == 1 {
        other_systems(sats, d.system)
    } else {
        sats
    }
}

/// The number of satellites marked used.
pub open spec fn used_in(sats: Seq<SatInfo>) -> nat {
    sats.filter(is_used()).len()
}

/// The satellites-used count: the latest GGA's when there is one, else the
/// number of satellites marked used (kept to 8 bits).
pub open spec fn used_count(m: StoreModel) -> u8 {
    match m.gga {
        Some(g) => g.sats_used,
        None => (used_in(m.satellites) % 256) as u8,
    }
}

/// Latitude and longitude of the latest GGA, when it reports a fix.
pub open spec fn position_of(m: StoreModel) -> Option<(CoordinateModel, CoordinateModel)> {
    match m.gga {
        Some(g) => if g.fix_quality != FixQuality::Invalid {
            Some((g.lat, g.lon))
        } else {
            None
        },
        None => None,
    }
}

/// Altitude above mean sea level of the latest GGA, when it reports a fix.
pub open spec fn altitude_of(m: StoreModel) -> Option<Seq<u8>> {
    match m.gga {
        Some(g) => if g.fix_quality != FixQuality::Invalid {
            Some(g.alt_msl)
        } else {
            None
        },
        None => None,
    }
}

/// UTC time: from GGA, else RMC, else ZDA.
pub open spec fn time_of(m: StoreModel) -> Option<NmeaTime> {
    match m.gga {
        Some(g) => Some(g.time),
        None => match m.rmc {
            Some(r) => Some(r.time),
            None => match m.zda {
                Some(z) => Some(z.time),
                None => None,
            },
        },
    }
}

/// UTC date: from RMC, else ZDA.
pub open spec fn date_of(m: StoreModel) -> Option<NmeaDate> {
    match m.rmc {
        Some(r) => Some(r.date),
        None => match m.zda {
            Some(z) => Some(z.date),
            None => None,
        },
    }
}

/// The store after one parsed sentence; `gsv` gives the satellite list after
/// a GSV sentence, which depends on the store.
pub open spec fn after_sentence(
    m: StoreModel,
    s: SentenceModel,
    gsv: spec_fn(Seq<SatInfo>, GsvModel) -> Seq<SatInfo>,
) -> StoreModel {
    match s {
        SentenceModel::Gga(d) => StoreModel { gga: Some(d), ..m },
        SentenceModel::Rmc(d) => StoreModel { rmc: Some(d), ..m },
        SentenceModel::Gsa(d) => StoreModel {
            fix_mode: d.fix_mode,
            dop: dop_of_gsa(d),
            satellites: mark_used(m.satellites, d),
            ..m
        },
        SentenceModel::Gsv(d) => StoreModel { satellites: gsv(m.satellites, d), ..m },
        SentenceModel::Vtg(d) => StoreModel { vtg: Some(d), ..m },
        SentenceModel::Zda(d) => StoreModel { zda: Some(d), ..m },
        SentenceModel::Gst(d) => StoreModel { gst: Some(d), ..m },
        SentenceModel::Dhv(d) => StoreModel { dhv: Some(d), ..m },
        SentenceModel::Txt(d) => StoreModel { antenna: d.antenna_status, ..m },
    }
}

// ── The store interface ──────────────────────────────────────────────────────

/// The port and module settings a store may track beside what it receives.
pub ghost struct StoreSettings {
    pub baud_rate: BaudRate,
    pub update_rate: UpdateRate,
    pub system_mask: ConstellationMask,
}

/// A receiver store, kept by the host (`Vec`-backed) and embedded
/// (fixed-capacity) states alike.
pub trait GnssStore: Sized {
    /// What the store holds.
    spec fn model(&self) -> StoreModel;

    /// The satellite list after a GSV sentence `d`, from the list `sats`.
    spec fn sats_after_gsv(sats: Seq<SatInfo>, d: GsvModel) -> Seq<SatInfo>;

    /// The satellites-in-view count the store reports.
    spec fn in_view_count(m: StoreModel) -> u8;

    /// The settings the store tracks, if it tracks any; no received
    /// sentence changes them.
    spec fn settings(&self) -> Option<StoreSettings>;

    fn update_gga(&mut self, d: GgaData)
        ensures
            final(self).settings() == old(self).settings(),
            final(self).model() == (StoreModel { gga: Some(d.deep_view()), ..old(self).model() }),
    ;

    fn update_rmc(&mut self, d: RmcData)
        ensures
            final(self).settings() == old(self).settings(),
            final(self).model() == (StoreModel { rmc: Some(d.deep_view()), ..old(self).model() }),
    ;

    fn update_gsa(&mut self, d: GsaData)
        ensures
            final(self).settings() == old(self).settings(),
            final(self).model() == (StoreModel {
                fix_mode: d.fix_mode,
                dop: dop_of_gsa(d.deep_view()),
                satellites: mark_used(old(self).model().satellites, d.deep_view()),
                ..old(self).model()
            }),
    ;

    fn update_gsv(&mut self, d: GsvData)
        ensures
            final(self).settings() == old(self).settings(),
            final(self).model() == (StoreModel {
                satellites: Self::sats_after_gsv(old(self).model().satellites, d.deep_view()),
                ..old(self).model()
            }),
    ;

    fn update_vtg(&mut self, d: VtgData)
        ensures
            final(self).settings() == old(self).settings(),
            final(self).model() == (StoreModel { vtg: Some(d.deep_view()), ..old(self).model() }),
    ;

    fn update_zda(&mut self, d: ZdaData)
        ensures
            final(self).settings() == old(self).settings(),
            final(self).model() == (StoreModel { zda: Some(d), ..old(self).model() }),
    ;

    fn update_gst(&mut self, d: GstData)
        ensures
            final(self).settings() == old(self).settings(),
            final(self).model() == (StoreModel { gst: Some(d.deep_view()), ..old(self).model() }),
    ;

    fn update_dhv(&mut self, d: DhvData)
        ensures
            final(self).settings() == old(self).settings(),
            final(self).model() == (StoreModel { dhv: Some(d.deep_view()), ..old(self).model() }),
    ;

    fn update_antenna(&mut self, status: AntennaStatus)
        ensures
            final(self).settings() == old(self).settings(),
            final(self).model() == (StoreModel { antenna: status, ..old(self).model() }),
    ;

    fn gga(&self) -> (r: Option<&GgaData>)
        ensures
            r.deep_view() == self.model().gga,
    ;

    fn rmc(&self) -> (r: Option<&RmcData>)
        ensures
            r.deep_view() == self.model().rmc,
    ;

    fn vtg(&self) -> (r: Option<&VtgData>)
        ensures
            r.deep_view() == self.model().vtg,
    ;

    fn zda(&self) -> (r: Option<&ZdaData>)
        ensures
            r.deep_view() == self.model().zda,
    ;

    fn gst(&self) -> (r: Option<&GstData>)
        ensures
            r.deep_view() == self.model().gst,
    ;

    fn dhv(&self) -> (r: Option<&DhvData>)
        ensures
            r.deep_view() == self.model().dhv,
    ;

    fn fix_mode(&self) -> (r: FixMode)
        ensures
            r == self.model().fix_mode,
    ;

    fn dop(&self) -> (r: DopValues)
        ensures
            r.deep_view() == self.model().dop,
    ;

    fn antenna(&self) -> (r: AntennaStatus)
        ensures
            r == self.model().antenna,
    ;

    fn satellites(&self) -> (r: &[SatInfo])
        ensures
            r@ == self.model().satellites,
    ;

    fn sats_used_count(&self) -> (r: u8)
        ensures
            r == used_count(self.model()),
    ;

    fn sats_in_view_count(&self) -> (r: u8)
        ensures
            r == Self::in_view_count(self.model()),
    ;

    // ── Convenience defaults ─────────────────────────────────────────────────

    /// Returns `true` when a 2D or 3D fix is available.
    fn has_fix(&self) -> (r: bool)
        ensures
            r == (self.model().fix_mode != FixMode::NoFix),
    {
        match self.fix_mode() {
            FixMode::NoFix => false,
            _ => true,
        }
    }

    /// Returns `(latitude, longitude)` from the latest valid GGA sentence.
    fn position(&self) -> (r: Option<(&Coordinate, &Coordinate)>)
        ensures
            r.deep_view() == position_of(self.model()),
    {
        match self.gga() {
            Some(g) => if g.is_valid() {
                Some((&g.lat, &g.lon))
            } else {
                None
            },
            None => None,
        }
    }

    /// Returns altitude above mean sea level from the latest valid GGA sentence.
    fn altitude_msl(&self) -> (r: Option<&FloatText>)
        ensures
            r.deep_view() == altitude_of(self.model()),
    {
        match self.gga() {
            Some(g) => if g.is_valid() {
                Some(&g.alt_msl)
            } else {
                None
            },
            None => None,
        }
    }

    /// Returns ground speed in km/h from the latest VTG sentence.
    fn speed_kmh(&self) -> (r: Option<&FloatText>)
        ensures
            r.deep_view() == (match self.model().vtg {
                Some(v) => Some(v.speed_kmh),
                None => None,
            }),
    {
        match self.vtg() {
            Some(v) => Some(&v.speed_kmh),
            None => None,
        }
    }

    /// Returns true course over ground in degrees from the latest VTG sentence.
    fn course_deg(&self) -> (r: Option<&FloatText>)
        ensures
            r.deep_view() == (match self.model().vtg {
                Some(v) => Some(v.course_true),
                None => None,
            }),
    {
        match self.vtg() {
            Some(v) => Some(&v.course_true),
            None => None,
        }
    }

    /// Returns the most recent UTC time, checking GGA → RMC → ZDA in priority order.
    fn utc_time(&self) -> (r: Option<NmeaTime>)
        ensures
            r == time_of(self.model()),
    {
        match self.gga() {
            Some(g) => Some(g.time),
            None => match self.rmc() {
                Some(r) => Some(r.time),
                None => match self.zda() {
                    Some(z) => Some(z.time),
                    None => None,
                },
            },
        }
    }

    /// Returns the most recent UTC date, checking RMC → ZDA in priority order.
    fn utc_date(&self) -> (r: Option<NmeaDate>)
        ensures
            r == date_of(self.model()),
    {
        match self.rmc() {
            Some(r) => Some(r.date),
            None => match self.zda() {
                Some(z) => Some(z.date),
                None => None,
            },
        }
    }

    /// Dispatch a pre-parsed sentence into this state.
    /// Equivalent to calling the individual `update_*` methods.
    fn update(&mut self, sentence: ParsedSentence)
        ensures
            final(self).settings() == old(self).settings(),
            final(self).model() == after_sentence(
                old(self).model(),
                sentence.deep_view(),
                |s: Seq<SatInfo>, d: GsvModel| Self::sats_after_gsv(s, d),
            ),
    {
        match sentence {
            ParsedSentence::Gga(d) => self.update_gga(d),
            ParsedSentence::Rmc(d) => self.update_rmc(d),
            ParsedSentence::Gsa(d) => self.update_gsa(d),
            ParsedSentence::Gsv(d) => self.update_gsv(d),
            ParsedSentence::Vtg(d) => self.update_vtg(d),
            ParsedSentence::Zda(d) => self.update_zda(d),
            ParsedSentence::Gst(d) => self.update_gst(d),
            ParsedSentence::Dhv(d) => self.update_dhv(d),
            ParsedSentence::Txt(d) => self.update_antenna(d.antenna_status),
        }
    }
}

/// Parse one raw NMEA line, update `state`, and return the full parsed sentence.
///
/// The state is updated with the sentence and the caller receives it too.
/// A line that does not parse leaves the state as it was.
pub fn feed_sentence<S: GnssStore>(state: &mut S, line: &[u8]) -> (r: Option<ParsedSentence>)
    ensures
        final(state).settings() == old(state).settings(),
        r.deep_view() == sentence_of(line@),
        match sentence_of(line@) {
            Some(s) => final(state).model() == after_sentence(
                old(state).model(),
                s,
                |q: Seq<SatInfo>, d: GsvModel| S::sats_after_gsv(q, d),
            ),
            None => final(state).model() == old(state).model(),
        },
{
    match parse_sentence(line) {
        Some(sentence) => {
            let copy = sentence.clone();
            state.update(copy);
            Some(sentence)
        },
        None => None,
    }
}

/// The position a 1PPS snapshot reports: the latest valid GGA's, falling
/// back to the latest RMC when it is valid (some modules output RMC but no
/// GGA).
pub open spec fn snapshot_position_of(m: StoreModel) -> Option<(CoordinateModel, CoordinateModel)> {
    match position_of(m) {
        Some(p) => Some(p),
        None => match m.rmc {
            Some(r) => if r.valid {
                Some((r.lat, r.lon))
            } else {
                None
            },
            None => None,
        },
    }
}

/// Latitude and longitude for a fix snapshot: from the latest valid GGA
/// sentence, else from the latest valid RMC sentence.
pub fn snapshot_position<S: GnssStore>(state: &S) -> (r: Option<(&Coordinate, &Coordinate)>)
    ensures
        r.deep_view() == snapshot_position_of(state.model()),
{
    match state.position() {
        Some(p) => Some(p),
        None => match state.rmc() {
            Some(r) => if r.is_valid() {
                Some((&r.lat, &r.lon))
            } else {
                None
            },
            None => None,
        },
    }
}

/// The time a 1PPS snapshot reports: the latest RMC's, else the store's
/// UTC time (GGA, then ZDA).
pub open spec fn snapshot_time_of(m: StoreModel) -> Option<NmeaTime> {
    match m.rmc {
        Some(r) => Some(r.time),
        None => time_of(m),
    }
}

/// The facts of a 1PPS snapshot besides its position.
pub struct SnapshotFacts {
    /// A 2D or 3D fix is held.
    pub has_fix: bool,
    pub utc_time: Option<NmeaTime>,
    pub utc_date: Option<NmeaDate>,
}

/// Whether the store holds a fix, its snapshot time and its UTC date.
pub fn snapshot_facts<S: GnssStore>(state: &S) -> (r: SnapshotFacts)
    ensures
        r.has_fix == (state.model().fix_mode != FixMode::NoFix),
        r.utc_time == snapshot_time_of(state.model()),
        r.utc_date == date_of(state.model()),
{
    let utc_time = match state.rmc() {
        Some(r) => Some(r.time),
        None => state.utc_time(),
    };
    SnapshotFacts { has_fix: state.has_fix(), utc_time, utc_date: state.utc_date() }
}

// ── Laws ─────────────────────────────────────────────────────────────────────

/// Each sentence updates exactly its own part of the store: a GGA, RMC,
/// VTG, ZDA, GST or DHV becomes the latest of its kind, a GSA sets the fix
/// mode and DOP, a GSV only touches the satellite list, a TXT only the
/// antenna status; the rest of the store is left as it was. What was
/// written reads back: the time from a GGA, the date from an RMC, the
/// position from a GGA with a fix.
pub proof fn lemma_update_then_read(
    m: StoreModel,
    s: SentenceModel,
    gsv: spec_fn(Seq<SatInfo>, GsvModel) -> Seq<SatInfo>,
)
    ensures
        ({
            let a = after_sentence(m, s, gsv);
            &&& s matches SentenceModel::Gga(d) ==> a.gga == Some(d) && time_of(a) == Some(d.time) && (
            d.fix_quality != FixQuality::Invalid ==> position_of(a) == Some((d.lat, d.lon)))
            &&& s matches SentenceModel::Rmc(d) ==> a.rmc == Some(d) && date_of(a) == Some(d.date)
            &&& s matches SentenceModel::Vtg(d) ==> a.vtg == Some(d)
            &&& s matches SentenceModel::Zda(d) ==> a.zda == Some(d)
            &&& s matches SentenceModel::Gst(d) ==> a.gst == Some(d)
            &&& s matches SentenceModel::Dhv(d) ==> a.dhv == Some(d)
            &&& s matches SentenceModel::Gsa(d) ==> a.fix_mode == d.fix_mode && a.dop == dop_of_gsa(d)
                && a.satellites.len() == m.satellites.len()
            &&& s matches SentenceModel::Txt(d) ==> a.antenna == d.antenna_status
            &&& !(s is Gga) ==> a.gga == m.gga
            &&& !(s is Rmc) ==> a.rmc == m.rmc
            &&& !(s is Vtg) ==> a.vtg == m.vtg
            &&& !(s is Zda) ==> a.zda == m.zda
            &&& !(s is Gst) ==> a.gst == m.gst
            &&& !(s is Dhv) ==> a.dhv == m.dhv
            &&& !(s is Gsa) ==> a.fix_mode == m.fix_mode && a.dop == m.dop
            &&& !(s is Txt) ==> a.antenna == m.antenna
            &&& !(s is Gsa || s is Gsv) ==> a.satellites == m.satellites
        }),
{
}

/// A GSA sentence only sets `used` flags, never clears one, and marks
/// exactly the satellites of its constellation that it lists.
pub proof fn lemma_gsa_marks_used(sats: Seq<SatInfo>, g: GsaModel)
    ensures
        mark_used(sats, g).len() == sats.len(),
        forall|i: int|
            0 <= i < sats.len() ==> {
                let t = #[trigger] mark_used(sats, g)[i];
                &&& t.svid == sats[i].svid
                &&& t.system == sats[i].system
                &&& t.elevation == sats[i].elevation
                &&& t.azimuth == sats[i].azimuth
                &&& t.snr == sats[i].snr
                &&& t.used == (sats[i].used || gsa_lists(g, sats[i]))
            },
{
}

/// No more satellites are counted as used than there are satellites.
pub proof fn lemma_used_at_most_listed(sats: Seq<SatInfo>)
    ensures
        used_in(sats) <= sats.len(),
{
    sats.lemma_filter_len(is_used());
}

/// The satellites a GSV sentence lists all belong to its constellation when
/// it was read from a line.
pub proof fn lemma_parsed_gsv_sats(system: GnssSystem, f: Seq<Seq<u8>>)
    ensures
        gsv_fields(system, f) matches Some(d) ==> forall|i: int|
            0 <= i < listed_sats(d.sats).len() ==> (#[trigger] listed_sats(d.sats)[i]).system == d.system,
{
    if let Some(d) = gsv_fields(system, f) {
        lemma_listed_sats_system(d.sats, d.system);
    }
}

/// The listed satellites of a sentence whose slots all carry `system`.
proof fn lemma_listed_sats_system(s: Seq<Option<SatInfo>>, system: GnssSystem)
    requires
        forall|i: int| 0 <= i < s.len() ==> (#[trigger] s[i] matches Some(x) ==> x.system == system),
    ensures
        forall|i: int| 0 <= i < listed_sats(s).len() ==> (#[trigger] listed_sats(s)[i]).system == system,
    decreases s.len(),
{
    if s.len() > 0 {
        lemma_listed_sats_system(s.drop_last(), system);
        let r = listed_sats(s.drop_last());
        assert(s.drop_last().len() == s.len() - 1);
        assert forall|i: int| 0 <= i < s.drop_last().len() implies (#[trigger] s.drop_last()[i] matches Some(x) ==> x.system == system) by {
            assert(s.drop_last()[i] == s[i]);
        }
        assert(s.last() == s[s.len() - 1]);
    }
}

/// Keeping the satellites of other constellations twice keeps the same ones.
pub proof fn lemma_other_systems_idempotent(sats: Seq<SatInfo>, system: GnssSystem)
    ensures
        other_systems(other_systems(sats, system), system) == other_systems(sats, system),
    decreases sats.len(),
{
    reveal(Seq::filter);
    if sats.len() > 0 {
        let d = sats.drop_last();
        lemma_other_systems_idempotent(d, system);
        let x = sats.last();
        assert(sats == d.push(x));
        d.lemma_filter_push(x, not_of(system));
        other_systems(d, system).lemma_filter_push(x, not_of(system));
    }
}

/// None of a list of satellites of `system` is of another constellation.
pub proof fn lemma_other_systems_of_own(sats: Seq<SatInfo>, system: GnssSystem)
    requires
        forall|i: int| 0 <= i < sats.len() ==> (#[trigger] sats[i]).system == system,
    ensures
        other_systems(sats, system) == Seq::<SatInfo>::empty(),
    decreases sats.len(),
{
    reveal(Seq::filter);
    if sats.len() > 0 {
        let d = sats.drop_last();
        assert forall|i: int| 0 <= i < d.len() implies (#[trigger] d[i]).system == system by {
            assert(d[i] == sats[i]);
        }
        lemma_other_systems_of_own(d, system);
    }
}

/// Of the satellites of other constellations, none is of `system`; all the
/// satellites of `system` are of it.
pub proof fn lemma_own_after_other(sats: Seq<SatInfo>, system: GnssSystem)
    ensures
        own_system(other_systems(sats, system), system) == Seq::<SatInfo>::empty(),
    decreases sats.len(),
{
    reveal(Seq::filter);
    if sats.len() > 0 {
        let d = sats.drop_last();
        let x = sats.last();
        assert(sats == d.push(x));
        lemma_own_after_other(d, system);
        d.lemma_filter_push(x, not_of(system));
        other_systems(d, system).lemma_filter_push(x, of_system(system));
    }
}

/// A list of satellites of `system` is its own `system` part.
pub proof fn lemma_own_of_own(sats: Seq<SatInfo>, system: GnssSystem)
    requires
        forall|i: int| 0 <= i < sats.len() ==> (#[trigger] sats[i]).system == system,
    ensures
        own_system(sats, system) == sats,
    decreases sats.len(),
{
    reveal(Seq::filter);
    if sats.len() > 0 {
        let d = sats.drop_last();
        assert forall|i: int| 0 <= i < d.len() implies (#[trigger] d[i]).system == system by {
            assert(d[i] == sats[i]);
        }
        lemma_own_of_own(d, system);
        let x = sats.last();
        assert(sats == d.push(x));
        d.lemma_filter_push(x, of_system(system));
    }
}

} // verus!
