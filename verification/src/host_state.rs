//! The host receiver state: a growable satellite list, plus the port and
//! module settings a host session tracks.
use vstd::prelude::*;
use crate::command::{BaudRate, ConstellationMask, UpdateRate};
use crate::nmea::dhv::DhvData;
use crate::nmea::gga::GgaData;
use crate::nmea::gsa::{dop_of_gsa, GsaData, GsaModel};
use crate::nmea::gsv::{GsvData, GsvModel};
use crate::nmea::gst::GstData;
use crate::nmea::rmc::RmcData;
use crate::nmea::vtg::VtgData;
use crate::nmea::zda::ZdaData;
use crate::state::{
    gsa_lists, gsv_base, is_used, lemma_other_systems_idempotent, lemma_other_systems_of_own,
    lemma_own_after_other, lemma_own_of_own, listed_sats, mark_used, not_of, of_system,
    other_systems, own_system, used_in, used_count, GnssStore, StoreModel, StoreSettings,
};
use crate::types::{zero_dop, AntennaStatus, DopValues, FixMode, GnssSystem, SatInfo};

verus! {

/// Receiver state kept by host sessions.
pub struct GnssState {
    pub gga: Option<GgaData>,
    pub rmc: Option<RmcData>,
    pub vtg: Option<VtgData>,
    pub zda: Option<ZdaData>,
    pub gst: Option<GstData>,
    pub dhv: Option<DhvData>,
    pub fix_mode: FixMode,
    pub dop: DopValues,
    pub antenna: AntennaStatus,
    pub satellites: Vec<SatInfo>,
    /// Baud rate of the connected port.
    pub baud_rate: BaudRate,
    /// Positioning output rate.
    pub update_rate: UpdateRate,
    /// Active constellation selection.
    pub system_mask: ConstellationMask,
}

/// The empty store: no sentence seen yet.
pub open spec fn empty_store() -> StoreModel {
    StoreModel {
        gga: None,
        rmc: None,
        vtg: None,
        zda: None,
        gst: None,
        dhv: None,
        fix_mode: FixMode::NoFix,
        dop: zero_dop(),
        antenna: AntennaStatus::Unknown,
        satellites: Seq::empty(),
    }
}

impl Default for GnssState {
    fn default() -> (r: Self)
        ensures
            r.model() == empty_store(),
            r.baud_rate == BaudRate::B115200,
            r.update_rate == UpdateRate::Hz1,
            r.system_mask == ConstellationMask(0x7F),
    {
        GnssState {
            gga: None,
            rmc: None,
            vtg: None,
            zda: None,
            gst: None,
            dhv: None,
            fix_mode: FixMode::NoFix,
            dop: DopValues::default(),
            antenna: AntennaStatus::Unknown,
            satellites: Vec::new(),
            baud_rate: BaudRate::default(),
            update_rate: UpdateRate::default(),
            system_mask: ConstellationMask::default(),
        }
    }
}

/// The GSA svid list holds `svid`.
pub fn svid_listed(svids: &[Option<u16>; 12], svid: u16) -> (r: bool)
    ensures
        r == svids@.contains(Some(svid)),
{
    let mut k: usize = 0;
    while k < 12
        invariant
            k <= 12,
            forall|j: int| 0 <= j < k ==> svids@[j] != Some(svid),
        decreases 12 - k,
    {
        match svids[k] {
            Some(v) => if v == svid {
                assert(svids@[k as int] == Some(svid));
                return true;
            },
            None => {},
        }
        k += 1;
    }
    false
}

/// Whether a GSA sentence lists this satellite.
pub fn lists_sat(d: &GsaData, s: &SatInfo) -> (r: bool)
    ensures
        r == gsa_lists(d.deep_view(), *s),
{
    s.system == d.system && svid_listed(&d.svids, s.svid)
}

/// The satellites of other constellations than `system`, in order.
pub fn drop_system(sats: &Vec<SatInfo>, system: GnssSystem) -> (r: Vec<SatInfo>)
    ensures
        r@ == other_systems(sats@, system),
{
    let mut kept: Vec<SatInfo> = Vec::new();
    let mut i: usize = 0;
    assert(sats@.take(0) =~= Seq::<SatInfo>::empty());
    proof {
        reveal(Seq::filter);
    }
    while i < sats.len()
        invariant
            i <= sats@.len(),
            kept@ == other_systems(sats@.take(i as int), system),
        decreases sats@.len() - i,
    {
        let s = sats[i];
        proof {
            assert(sats@.take(i + 1) =~= sats@.take(i as int).push(s));
            sats@.take(i as int).lemma_filter_push(s, not_of(system));
        }
        if s.system != system {
            kept.push(s);
        }
        i += 1;
    }
    assert(sats@.take(sats@.len() as int) =~= sats@);
    kept
}

/// The number of satellites marked used.
pub fn count_used(sats: &[SatInfo]) -> (r: usize)
    ensures
        r == used_in(sats@),
{
    let mut n: usize = 0;
    let mut i: usize = 0;
    assert(sats@.take(0) =~= Seq::<SatInfo>::empty());
    proof {
        reveal(Seq::filter);
    }
    while i < sats.len()
        invariant
            i <= sats@.len(),
            n == used_in(sats@.take(i as int)),
            n <= i,
        decreases sats@.len() - i,
    {
        let s = sats[i];
        proof {
            assert(sats@.take(i + 1) =~= sats@.take(i as int).push(s));
            sats@.take(i as int).lemma_filter_push(s, is_used());
        }
        if s.used {
            n += 1;
        }
        i += 1;
    }
    assert(sats@.take(sats@.len() as int) =~= sats@);
    n
}

/// Mark used the satellites a GSA sentence lists.
pub fn mark_listed(sats: &mut Vec<SatInfo>, d: &GsaData)
    ensures
        final(sats)@ == mark_used(old(sats)@, d.deep_view()),
{
    let ghost g = d.deep_view();
    let ghost before = sats@;
    let n = sats.len();
    let mut i: usize = 0;
    while i < n
        invariant
            n == before.len(),
            i <= n,
            sats@.len() == n,
            g == d.deep_view(),
            forall|j: int| 0 <= j < i ==> sats@[j] == mark_used(before, g)[j],
            forall|j: int| i <= j < n ==> sats@[j] == before[j],
        decreases n - i,
    {
        let s = sats[i];
        if lists_sat(d, &s) {
            let mut t = s;
            t.used = true;
            sats.set(i, t);
        }
        i += 1;
    }
    assert(sats@ =~= mark_used(before, g));
}

/// Append the satellites a GSV sentence lists, in order.
pub fn append_listed(sats: &mut Vec<SatInfo>, d: &GsvData)
    ensures
        final(sats)@ == old(sats)@ + listed_sats(d.deep_view().sats),
{
    let ghost base = sats@;
    let mut k: usize = 0;
    assert(d.sats@.take(0) =~= Seq::<Option<SatInfo>>::empty());
    assert(base + Seq::<SatInfo>::empty() =~= base);
    while k < 4
        invariant
            k <= 4,
            sats@ == base + listed_sats(d.sats@.take(k as int)),
        decreases 4 - k,
    {
        assert(d.sats@.take(k + 1).drop_last() =~= d.sats@.take(k as int));
        match d.sats[k] {
            Some(sat) => {
                sats.push(sat);
            },
            None => {},
        }
        assert(sats@ =~= base + listed_sats(d.sats@.take(k + 1)));
        k += 1;
    }
    assert(d.sats@.take(4) =~= d.sats@);
}

impl GnssState {
    /// What the store holds.
    pub open spec fn store(&self) -> StoreModel {
        StoreModel {
            gga: self.gga.deep_view(),
            rmc: self.rmc.deep_view(),
            vtg: self.vtg.deep_view(),
            zda: self.zda.deep_view(),
            gst: self.gst.deep_view(),
            dhv: self.dhv.deep_view(),
            fix_mode: self.fix_mode,
            dop: self.dop.deep_view(),
            antenna: self.antenna,
            satellites: self.satellites@,
        }
    }
}

/// The host list after a GSV sentence: an empty report (no satellites in
/// view) changes nothing; otherwise its satellites are appended to the base.
pub open spec fn host_after_gsv(sats: Seq<SatInfo>, d: GsvModel) -> Seq<SatInfo> {
    if d.total_in_view == 0 {
        sats
    } else {
        gsv_base(sats, d) + listed_sats(d.sats)
    }
}

impl GnssStore for GnssState {
    open spec fn model(&self) -> StoreModel {
        self.store()
    }

    open spec fn sats_after_gsv(sats: Seq<SatInfo>, d: GsvModel) -> Seq<SatInfo> {
        host_after_gsv(sats, d)
    }

    /// The port's baud rate, the output rate and the constellation mask.
    open spec fn settings(&self) -> Option<StoreSettings> {
        Some(StoreSettings { baud_rate: self.baud_rate, update_rate: self.update_rate, system_mask: self.system_mask })
    }

    /// The length of the satellite list, kept to 8 bits.
    open spec fn in_view_count(m: StoreModel) -> u8 {
        (m.satellites.len() % 256) as u8
    }

    fn update_gga(&mut self, d: GgaData) {
        self.gga = Some(d);
    }

    fn update_rmc(&mut self, d: RmcData) {
        self.rmc = Some(d);
    }

    fn update_vtg(&mut self, d: VtgData) {
        self.vtg = Some(d);
    }

    fn update_zda(&mut self, d: ZdaData) {
        self.zda = Some(d);
    }

    fn update_gst(&mut self, d: GstData) {
        self.gst = Some(d);
    }

    fn update_dhv(&mut self, d: DhvData) {
        self.dhv = Some(d);
    }

    fn update_antenna(&mut self, status: AntennaStatus) {
        self.antenna = status;
    }

    fn update_gsa(&mut self, d: GsaData) {
        self.fix_mode = d.fix_mode;
        mark_listed(&mut self.satellites, &d);
        self.dop = DopValues::from_gsa(d);
    }

    fn update_gsv(&mut self, d: GsvData) {
        // An empty GSV (no satellites in view) reports no satellites for one
        // signal band; it must not clear the other bands of its constellation.
        if d.total_in_view == 0 {
            return;
        }
        if d.msg_num == 1 {
            let kept = drop_system(&self.satellites, d.system);
            self.satellites = kept;
        }
        append_listed(&mut self.satellites, &d);
    }

    fn gga(&self) -> Option<&GgaData> {
        self.gga.as_ref()
    }

    fn rmc(&self) -> Option<&RmcData> {
        self.rmc.as_ref()
    }

    fn vtg(&self) -> Option<&VtgData> {
        self.vtg.as_ref()
    }

    fn zda(&self) -> Option<&ZdaData> {
        self.zda.as_ref()
    }

    fn gst(&self) -> Option<&GstData> {
        self.gst.as_ref()
    }

    fn dhv(&self) -> Option<&DhvData> {
        self.dhv.as_ref()
    }

    fn fix_mode(&self) -> FixMode {
        self.fix_mode
    }

    fn dop(&self) -> DopValues {
        self.dop.clone()
    }

    fn antenna(&self) -> AntennaStatus {
        self.antenna
    }

    fn satellites(&self) -> &[SatInfo] {
        self.satellites.as_slice()
    }

    fn sats_used_count(&self) -> u8 {
        // GGA's satellites-used count is authoritative: it comes from one
        // sentence and does not race the GSV/GSA update cycle.
        match &self.gga {
            Some(g) => g.sats_used,
            None => (count_used(self.satellites.as_slice()) % 256) as u8,
        }
    }

    fn sats_in_view_count(&self) -> u8 {
        (self.satellites.len() % 256) as u8
    }
}

// ── Laws ─────────────────────────────────────────────────────────────────────

/// An empty GSV report (no satellites in view) leaves the list as it was.
pub proof fn lemma_empty_gsv_keeps_list(sats: Seq<SatInfo>, d: GsvModel)
    requires
        d.total_in_view == 0,
    ensures
        host_after_gsv(sats, d) == sats,
{
}

/// A GSV sentence whose satellites are of its own constellation (as those
/// of a read sentence are) leaves the satellites of the other
/// constellations as they were, in order.
pub proof fn lemma_gsv_keeps_other_systems(sats: Seq<SatInfo>, d: GsvModel)
    requires
        forall|i: int| 0 <= i < listed_sats(d.sats).len() ==> (#[trigger] listed_sats(d.sats)[i]).system == d.system,
    ensures
        other_systems(host_after_gsv(sats, d), d.system) == other_systems(sats, d.system),
{
    if d.total_in_view != 0 {
        let base = gsv_base(sats, d);
        let listed = listed_sats(d.sats);
        Seq::filter_distributes_over_add(base, listed, not_of(d.system));
        lemma_other_systems_of_own(listed, d.system);
        assert(other_systems(base, d.system) + Seq::<SatInfo>::empty() =~= other_systems(base, d.system));
        if d.msg_num == 1 {
            lemma_other_systems_idempotent(sats, d.system);
        }
    }
}

/// The first message of a GSV group replaces its constellation's satellites
/// with the ones it lists.
pub proof fn lemma_first_gsv_replaces_system(sats: Seq<SatInfo>, d: GsvModel)
    requires
        d.total_in_view != 0,
        d.msg_num == 1,
        forall|i: int| 0 <= i < listed_sats(d.sats).len() ==> (#[trigger] listed_sats(d.sats)[i]).system == d.system,
    ensures
        own_system(host_after_gsv(sats, d), d.system) == listed_sats(d.sats),
{
    let base = other_systems(sats, d.system);
    let listed = listed_sats(d.sats);
    Seq::filter_distributes_over_add(base, listed, of_system(d.system));
    lemma_own_after_other(sats, d.system);
    lemma_own_of_own(listed, d.system);
    assert(Seq::<SatInfo>::empty() + listed =~= listed);
}

} // verus!
