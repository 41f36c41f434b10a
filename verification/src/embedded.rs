//! The fixed-capacity receiver state for targets without a heap, and the
//! embedded session that pairs it with a byte-sink closure.
use vstd::prelude::*;
use crate::command::CommandSink;
use crate::nmea::dhv::DhvData;
use crate::nmea::gga::GgaData;
use crate::nmea::gsa::{GsaData, GsaModel};
use crate::nmea::gsv::{GsvData, GsvModel};
use crate::nmea::gst::GstData;
use crate::nmea::rmc::RmcData;
use crate::nmea::vtg::VtgData;
use crate::nmea::zda::ZdaData;
use crate::nmea::{sentence_of, ParsedSentence};
use crate::state::{
    after_sentence, feed_sentence, gsa_lists, gsv_base, lemma_other_systems_idempotent,
    lemma_other_systems_of_own, listed_sats, mark_used, not_of, other_systems, GnssStore,
    StoreModel, StoreSettings,
};
use crate::host_state::{empty_store, lists_sat};
use crate::types::{AntennaStatus, DopValues, FixMode, GnssSystem, SatInfo};

verus! {

/// The satellite-table size: 64 covers all five constellations.
pub const MAX_SATS: usize = 64;

// ── The fixed-capacity satellite list ────────────────────────────────────────

#[verifier::external_type_specification]
#[verifier::external_body]
#[verifier::reject_recursive_types(T)]
pub struct ExHeaplessVec<T, const N: usize>(heapless::Vec<T, N>);

/// The satellites a fixed-capacity list holds, in order.
pub uninterp spec fn sat_slots(v: heapless::Vec<SatInfo, 64>) -> Seq<SatInfo>;

/// `heapless::Vec::new`: an empty list.
#[verifier::external_body]
fn slots_new() -> (v: heapless::Vec<SatInfo, 64>)
    ensures
        sat_slots(v) == Seq::<SatInfo>::empty(),
{
    heapless::Vec::new()
}

/// `heapless::Vec::push`: appends when fewer than 64 items are held, and
/// otherwise hands the item back and leaves the list as it was.
#[verifier::external_body]
fn slots_push(v: &mut heapless::Vec<SatInfo, 64>, s: SatInfo) -> (r: Result<(), SatInfo>)
    ensures
        r is Ok <==> sat_slots(*old(v)).len() < 64,
        r is Ok ==> sat_slots(*final(v)) == sat_slots(*old(v)).push(s),
        r is Err ==> sat_slots(*final(v)) == sat_slots(*old(v)),
        r matches Err(x) ==> x == s,
{
    v.push(s)
}

/// `heapless::Vec::retain`: keeps, in their order, the items of another
/// constellation than `system`.
#[verifier::external_body]
fn slots_drop_system(v: &mut heapless::Vec<SatInfo, 64>, system: GnssSystem)
    ensures
        sat_slots(*final(v)) == other_systems(sat_slots(*old(v)), system),
{
    v.retain(|s| keeps_sat(s, system))
}

/// `heapless::Vec::as_slice`: the items, in order.
#[verifier::external_body]
fn slots_as_slice(v: &heapless::Vec<SatInfo, 64>) -> (r: &[SatInfo])
    ensures
        r@ == sat_slots(*v),
{
    v.as_slice()
}

/// `heapless::Vec::as_mut_slice`, written through at index `i`.
#[verifier::external_body]
fn slots_set(v: &mut heapless::Vec<SatInfo, 64>, i: usize, s: SatInfo)
    requires
        i < sat_slots(*old(v)).len(),
    ensures
        sat_slots(*final(v)) == sat_slots(*old(v)).update(i as int, s),
{
    v.as_mut_slice()[i] = s;
}

/// The satellite belongs to another constellation than `system`.
pub fn keeps_sat(s: &SatInfo, system: GnssSystem) -> (r: bool)
    ensures
        r == (s.system != system),
{
    s.system != system
}

/// `new` appended one by one to `base`, each dropped once `cap` items are held.
pub open spec fn append_bounded(base: Seq<SatInfo>, new: Seq<SatInfo>, cap: nat) -> Seq<SatInfo>
    decreases new.len(),
{
    if new.len() == 0 {
        base
    } else {
        let r = append_bounded(base, new.drop_last(), cap);
        if r.len() < cap {
            r.push(new.last())
        } else {
            r
        }
    }
}

/// The embedded list after a GSV sentence: as on the host, except that
/// satellites beyond the 64th are dropped.
pub open spec fn embedded_after_gsv(sats: Seq<SatInfo>, d: GsvModel) -> Seq<SatInfo> {
    if d.total_in_view == 0 {
        sats
    } else {
        append_bounded(gsv_base(sats, d), listed_sats(d.sats), 64)
    }
}

// ── GnssState ────────────────────────────────────────────────────────────────

/// Fixed-size GPS state store for no_std / no-heap targets; the satellite
/// list holds at most [`MAX_SATS`] entries.
pub struct GnssState {
    gga: Option<GgaData>,
    rmc: Option<RmcData>,
    vtg: Option<VtgData>,
    zda: Option<ZdaData>,
    gst: Option<GstData>,
    dhv: Option<DhvData>,
    fix_mode: FixMode,
    dop: DopValues,
    antenna: AntennaStatus,
    satellites: heapless::Vec<SatInfo, 64>,
}

impl Default for GnssState {
    fn default() -> (r: Self)
        ensures
            r.model() == empty_store(),
    {
        Self::new()
    }
}

impl GnssState {
    /// The empty store.
    pub fn new() -> (r: Self)
        ensures
            r.model() == empty_store(),
    {
        GnssState {
            gga: None,
            rmc: None,
            vtg: None,
            zda: None,
            gst: None,
            dhv: None,
            fix_mode: FixMode::NoFix,
            dop: DopValues::default(),
            antenna: AntennaStatus::Unknown,
            satellites: slots_new(),
        }
    }
}

impl GnssStore for GnssState {
    closed spec fn model(&self) -> StoreModel {
        StoreModel {
            gga: self.gga.deep_view(),
            rmc: self.rmc.deep_view(),
            vtg: self.vtg.deep_view(),
            zda: self.zda.deep_view(),
            gst: self.gst.deep_view(),
            dhv: self.dhv.deep_view(),
            fix_mode: self.fix_mode,
            dop: self.dop.deep_view(),
            antenna: self.antenna,
            satellites: sat_slots(self.satellites),
        }
    }

    open spec fn sats_after_gsv(sats: Seq<SatInfo>, d: GsvModel) -> Seq<SatInfo> {
        embedded_after_gsv(sats, d)
    }

    /// The embedded store tracks no settings.
    open spec fn settings(&self) -> Option<StoreSettings> {
        None
    }

    /// The length of the satellite list, kept to 8 bits.
    open spec fn in_view_count(m: StoreModel) -> u8 {
        (m.satellites.len() % 256) as u8
    }

    fn update_gga(&mut self, d: GgaData) {
        self.gga = Some(d);
    }

    fn update_rmc(&mut self, d: RmcData) {
        self.rmc = Some(d);
    }

    fn update_vtg(&mut self, d: VtgData) {
        self.vtg = Some(d);
    }

    fn update_zda(&mut self, d: ZdaData) {
        self.zda = Some(d);
    }

    fn update_gst(&mut self, d: GstData) {
        self.gst = Some(d);
    }

    fn update_dhv(&mut self, d: DhvData) {
        self.dhv = Some(d);
    }

    fn update_antenna(&mut self, status: AntennaStatus) {
        self.antenna = status;
    }

    fn update_gsa(&mut self, d: GsaData) {
        self.fix_mode = d.fix_mode;
        mark_listed_slots(&mut self.satellites, &d);
        self.dop = DopValues::from_gsa(d);
    }

    fn update_gsv(&mut self, d: GsvData) {
        if d.total_in_view == 0 {
            return;
        }
        if d.msg_num == 1 {
            slots_drop_system(&mut self.satellites, d.system);
        }
        append_listed_slots(&mut self.satellites, &d);
    }

    fn gga(&self) -> Option<&GgaData> {
        self.gga.as_ref()
    }

    fn rmc(&self) -> Option<&RmcData> {
        self.rmc.as_ref()
    }

    fn vtg(&self) -> Option<&VtgData> {
        self.vtg.as_ref()
    }

    fn zda(&self) -> Option<&ZdaData> {
        self.zda.as_ref()
    }

    fn gst(&self) -> Option<&GstData> {
        self.gst.as_ref()
    }

    fn dhv(&self) -> Option<&DhvData> {
        self.dhv.as_ref()
    }

    fn fix_mode(&self) -> FixMode {
        self.fix_mode
    }

    fn dop(&self) -> DopValues {
        self.dop.clone()
    }

    fn antenna(&self) -> AntennaStatus {
        self.antenna
    }

    fn satellites(&self) -> &[SatInfo] {
        slots_as_slice(&self.satellites)
    }

    fn sats_used_count(&self) -> u8 {
        match &self.gga {
            Some(g) => g.sats_used,
            None => (crate::host_state::count_used(slots_as_slice(&self.satellites)) % 256) as u8,
        }
    }

    fn sats_in_view_count(&self) -> u8 {
        (slots_as_slice(&self.satellites).len() % 256) as u8
    }
}

/// Mark used the satellites a GSA sentence lists.
fn mark_listed_slots(sats: &mut heapless::Vec<SatInfo, 64>, d: &GsaData)
    ensures
        sat_slots(*final(sats)) == mark_used(sat_slots(*old(sats)), d.deep_view()),
{
    let ghost g = d.deep_view();
    let ghost before = sat_slots(*sats);
    let n = slots_as_slice(sats).len();
    let mut i: usize = 0;
    while i < n
        invariant
            n == before.len(),
            i <= n,
            sat_slots(*sats).len() == n,
            g == d.deep_view(),
            forall|j: int| 0 <= j < i ==> sat_slots(*sats)[j] == mark_used(before, g)[j],
            forall|j: int| i <= j < n ==> sat_slots(*sats)[j] == before[j],
        decreases n - i,
    {
        let s = slots_as_slice(sats)[i];
        if lists_sat(d, &s) {
            let mut t = s;
            t.used = true;
            slots_set(sats, i, t);
        }
        i += 1;
    }
    assert(sat_slots(*sats) =~= mark_used(before, g));
}

/// Append the satellites a GSV sentence lists, in order, while there is room.
fn append_listed_slots(sats: &mut heapless::Vec<SatInfo, 64>, d: &GsvData)
    ensures
        sat_slots(*final(sats)) == append_bounded(
            sat_slots(*old(sats)),
            listed_sats(d.deep_view().sats),
            64,
        ),
{
    let ghost base = sat_slots(*sats);
    let mut k: usize = 0;
    assert(d.sats@.take(0) =~= Seq::<Option<SatInfo>>::empty());
    while k < 4
        invariant
            k <= 4,
            sat_slots(*sats) == append_bounded(base, listed_sats(d.sats@.take(k as int)), 64),
        decreases 4 - k,
    {
        assert(d.sats@.take(k + 1).drop_last() =~= d.sats@.take(k as int));
        match d.sats[k] {
            Some(sat) => {
                let ghost listed = listed_sats(d.sats@.take(k as int));
                assert(listed_sats(d.sats@.take(k + 1)) == listed.push(sat));
                assert(listed.push(sat).drop_last() =~= listed);
                let _ = slots_push(sats, sat);
            },
            None => {},
        }
        k += 1;
    }
    assert(d.sats@.take(4) =~= d.sats@);
}

// ── EmbeddedSession ──────────────────────────────────────────────────────────

/// Combines a [`GnssState`] with a byte-sink writer into a single driver
/// object. Implements [`CommandSink`] so all `$PCAS` command helpers are
/// available.
///
/// `W` is any `FnMut(&[u8])`, typically a closure that writes to a UART.
pub struct EmbeddedSession<W: FnMut(&[u8])> {
    state: GnssState,
    writer: W,
    sent: Ghost<Seq<Seq<u8>>>,
}

/// The writer accepts every byte string.
pub open spec fn accepts_all<W: FnMut(&[u8])>(w: W) -> bool {
    forall|x: &[u8]| call_requires(w, (x,))
}

impl<W: FnMut(&[u8])> EmbeddedSession<W> {
    /// The writer accepts every byte string.
    pub closed spec fn writer_ready(&self) -> bool {
        accepts_all(self.writer)
    }

    /// The session's store.
    pub closed spec fn store(&self) -> GnssState {
        self.state
    }

    pub fn new(writer: W) -> (r: Self)
        requires
            accepts_all(writer),
        ensures
            r.store().model() == empty_store(),
            r.sent() == Seq::<Seq<u8>>::empty(),
            r.ready(),
    {
        EmbeddedSession { state: GnssState::new(), writer, sent: Ghost(Seq::empty()) }
    }

    /// Parse one raw NMEA line, update state, and return the full parsed sentence.
    pub fn feed(&mut self, line: &[u8]) -> (r: Option<ParsedSentence>)
        ensures
            r.deep_view() == sentence_of(line@),
            match sentence_of(line@) {
                Some(s) => final(self).store().model() == after_sentence(
                    old(self).store().model(),
                    s,
                    |q: Seq<SatInfo>, d: GsvModel| embedded_after_gsv(q, d),
                ),
                None => final(self).store().model() == old(self).store().model(),
            },
            final(self).sent() == old(self).sent(),
            final(self).ready() == old(self).ready(),
    {
        feed_sentence(&mut self.state, line)
    }

    /// Read-only access to the current GPS state.
    pub fn state(&self) -> (r: &GnssState)
        ensures
            *r == self.store(),
    {
        &self.state
    }

    /// Mutable access to the current GPS state (rarely needed directly).
    pub fn state_mut(&mut self) -> (r: &mut GnssState)
        ensures
            *r == old(self).store(),
            final(self).store() == *final(r),
            final(self).sent() == old(self).sent(),
            final(self).ready() == old(self).ready(),
    {
        &mut self.state
    }
}

/// `send_raw` calls the writer closure; all command helpers come from the
/// trait's default methods.
impl<W: FnMut(&[u8])> CommandSink for EmbeddedSession<W> {
    type Error = ();

    closed spec fn sent(&self) -> Seq<Seq<u8>> {
        self.sent@
    }

    open spec fn ready(&self) -> bool {
        self.writer_ready()
    }

    /// The writer returns nothing, so no write can fail.
    open spec fn infallible(&self) -> bool {
        true
    }

    fn send_raw(&mut self, bytes: &[u8]) -> (r: Result<(), ()>)
        ensures
            r is Ok,
    {
        (self.writer)(bytes);
        proof {
            self.sent@ = self.sent@.push(bytes@);
        }
        Ok(())
    }
}

// ── Laws ─────────────────────────────────────────────────────────────────────

/// How many of `new` fit after `base` in a list of `cap`.
pub open spec fn room(base_len: nat, new_len: nat, cap: nat) -> nat {
    if base_len >= cap {
        0
    } else if new_len <= cap - base_len {
        new_len
    } else {
        (cap - base_len) as nat
    }
}

/// Appending while there is room keeps a prefix of the new items.
pub proof fn lemma_append_bounded_prefix(base: Seq<SatInfo>, new: Seq<SatInfo>, cap: nat)
    ensures
        append_bounded(base, new, cap) == base + new.take(room(base.len(), new.len(), cap) as int),
    decreases new.len(),
{
    if new.len() == 0 {
        assert(base + new.take(0) =~= base);
    } else {
        let d = new.drop_last();
        lemma_append_bounded_prefix(base, d, cap);
        let k = room(base.len(), d.len(), cap);
        let r = append_bounded(base, d, cap);
        assert(d.take(k as int) =~= new.take(k as int));
        if r.len() < cap {
            assert(new.take(k as int + 1) =~= new.take(k as int).push(new.last()));
            assert(base + new.take(k as int + 1) =~= (base + new.take(k as int)).push(new.last()));
        }
    }
}

/// The embedded list never holds more than 64 satellites: a GSA keeps its
/// length and a GSV adds only while there is room.
pub proof fn lemma_embedded_list_capped(sats: Seq<SatInfo>, d: GsvModel, g: GsaModel)
    requires
        sats.len() <= MAX_SATS,
    ensures
        embedded_after_gsv(sats, d).len() <= MAX_SATS,
        mark_used(sats, g).len() == sats.len(),
{
    if d.total_in_view != 0 {
        let base = gsv_base(sats, d);
        sats.lemma_filter_len(not_of(d.system));
        lemma_append_bounded_prefix(base, listed_sats(d.sats), 64);
    }
}

/// As on the host, an empty GSV report leaves the embedded list as it was,
/// and a GSV sentence whose satellites are of its own constellation leaves
/// the other constellations' satellites as they were.
pub proof fn lemma_embedded_gsv_keeps_other_systems(sats: Seq<SatInfo>, d: GsvModel)
    requires
        forall|i: int| 0 <= i < listed_sats(d.sats).len() ==> (#[trigger] listed_sats(d.sats)[i]).system == d.system,
    ensures
        d.total_in_view == 0 ==> embedded_after_gsv(sats, d) == sats,
        other_systems(embedded_after_gsv(sats, d), d.system) == other_systems(sats, d.system),
{
    if d.total_in_view != 0 {
        let base = gsv_base(sats, d);
        let listed = listed_sats(d.sats);
        let kept = listed.take(room(base.len(), listed.len(), 64) as int);
        lemma_append_bounded_prefix(base, listed, 64);
        assert forall|i: int| 0 <= i < kept.len() implies (#[trigger] kept[i]).system == d.system by {
            assert(kept[i] == listed[i]);
        }
        Seq::filter_distributes_over_add(base, kept, not_of(d.system));
        lemma_other_systems_of_own(kept, d.system);
        assert(other_systems(base, d.system) + Seq::<SatInfo>::empty() =~= other_systems(base, d.system));
        if d.msg_num == 1 {
            lemma_other_systems_idempotent(sats, d.system);
        }
    }
}

// ── Power ────────────────────────────────────────────────────────────────────

/// Desired power state of the module's ON/OFF (W) pad. The pad has an
/// onboard pull-up that keeps the module on when undriven; shutdown pulls it
/// low against the pull-up.
#[derive(Clone, Copy, Debug, PartialEq, Eq, Structural)]
pub enum Power {
    On,
    Off,
}

impl Power {
    /// The pad is driven high for on and low for off.
    pub fn drives_high(self) -> (r: bool)
        ensures
            r == (self == Power::On),
    {
        match self {
            Power::On => true,
            Power::Off => false,
        }
    }
}

// ── Line assembly ────────────────────────────────────────────────────────────

/// One received byte applied to a partial line of at most `cap` bytes: a
/// `\n` completes the line (which may be empty) and starts a new one, a `\r`
/// is dropped, any other byte is appended while there is room, and a byte
/// that does not fit discards the partial line.
pub open spec fn assemble(line: Seq<u8>, cap: nat, b: u8) -> (Seq<u8>, Option<Seq<u8>>) {
    if b == 10 {
        (Seq::empty(), Some(line))
    } else if b == 13 {
        (line, None)
    } else if line.len() < cap {
        (line.push(b), None)
    } else {
        (Seq::empty(), None)
    }
}

/// Gathers received bytes into NMEA lines of at most `cap` bytes, without
/// their `\r\n`.
pub struct LineAssembler {
    line: Vec<u8>,
    cap: usize,
}

impl LineAssembler {
    /// The partial line so far.
    pub closed spec fn partial(&self) -> Seq<u8> {
        self.line@
    }

    /// The most bytes a line may hold.
    pub closed spec fn capacity(&self) -> nat {
        self.cap as nat
    }

    /// The partial line fits and holds no line break.
    pub closed spec fn wf(&self) -> bool {
        &&& self.line@.len() <= self.cap
        &&& forall|i: int| 0 <= i < self.line@.len() ==> self.line@[i] != 10 && self.line@[i] != 13
    }

    pub fn new(cap: usize) -> (r: Self)
        ensures
            r.partial() == Seq::<u8>::empty(),
            r.capacity() == cap,
            r.wf(),
    {
        LineAssembler { line: Vec::new(), cap }
    }

    /// Apply one received byte; returns the line it completes, if any.
    pub fn push(&mut self, b: u8) -> (r: Option<Vec<u8>>)
        requires
            old(self).wf(),
        ensures
            final(self).wf(),
            final(self).capacity() == old(self).capacity(),
            (final(self).partial(), r.deep_view()) == assemble(old(self).partial(), old(self).capacity(), b),
            r matches Some(l) ==> l@.len() <= old(self).capacity()
                && forall|i: int| 0 <= i < l@.len() ==> l@[i] != 10 && l@[i] != 13,
    {
        if b == 10 {
            let mut done: Vec<u8> = Vec::new();
            std::mem::swap(&mut done, &mut self.line);
            assert(done.deep_view() =~= done@);
            Some(done)
        } else if b == 13 {
            None
        } else if self.line.len() < self.cap {
            self.line.push(b);
            None
        } else {
            self.line = Vec::new();
            None
        }
    }
}

} // verus!
