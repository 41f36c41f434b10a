//! NMEA 0183 sentences: checksum check, field splitting, and the readers of
//! each sentence type the module outputs.
pub mod dhv;
pub mod gga;
pub mod gsa;
pub mod gst;
pub mod gsv;
pub mod rmc;
pub mod txt;
pub mod vtg;
pub mod zda;

use vstd::prelude::*;
use vstd::string::StringSliceAdditionalSpecFns;
use vstd::utf8::valid_utf8;
use crate::checksum::{verify, verify_body, verify_ok};
use crate::state::SentenceType;
use crate::text::{at_boundary, bytes_eq, first_index_of, is_valid_utf8, on_boundary, parse_u8_spec, to_vec};
use crate::types::{system_of_talker, GnssSystem};
use dhv::{dhv_fields, DhvData, DhvModel};
use gga::{gga_aborts, gga_fields, GgaData, GgaModel};
use gsa::{gsa_fields, GsaData, GsaModel};
use gst::{gst_fields, GstData, GstModel};
use gsv::{gsv_fields, GsvData, GsvModel};
use rmc::{rmc_aborts, rmc_fields, RmcData, RmcModel};
use txt::{txt_fields, TxtData};
use vtg::{vtg_fields, VtgData, VtgModel};
use zda::{zda_aborts, zda_fields, ZdaData};

verus! {

/// The texts of a list of fields.
pub open spec fn fields_of(f: Seq<Vec<u8>>) -> Seq<Seq<u8>> {
    Seq::new(f.len(), |i: int| f[i]@)
}

/// A `u8` field, 0 when it does not read.
pub open spec fn u8_or_zero(s: Seq<u8>) -> u8 {
    match parse_u8_spec(s) {
        Some(v) => v,
        None => 0,
    }
}

/// The field is exactly the one byte `b`.
pub fn field_is(f: &[u8], b: u8) -> (r: bool)
    ensures
        r == (f@ == seq![b]),
{
    if f.len() == 1 {
        assert(f@ =~= seq![f@[0]]);
        f[0] == b
    } else {
        assert(f@.len() != seq![b].len());
        false
    }
}

// ── Field splitting ──────────────────────────────────────────────────────────

/// The pieces of `s` between commas.
#[verifier::opaque]
pub open spec fn split_commas(s: Seq<u8>) -> Seq<Seq<u8>>
    decreases s.len(),
{
    match first_index_of(s, 44) {
        Some(i) => if 0 <= i < s.len() {
            seq![s.subrange(0, i)] + split_commas(s.subrange(i + 1, s.len() as int))
        } else {
            seq![s]
        },
        None => seq![s],
    }
}

/// The fields of a sentence body: the first 24 comma-separated pieces.
pub open spec fn sentence_fields(body: Seq<u8>) -> Seq<Seq<u8>> {
    let p = split_commas(body);
    if p.len() > 24 {
        p.take(24)
    } else {
        p
    }
}

proof fn lemma_split_at_comma(s: Seq<u8>, i: int)
    requires
        0 <= i < s.len(),
        s[i] == 44,
        forall|k: int| 0 <= k < i ==> s[k] != 44,
    ensures
        split_commas(s) == seq![s.subrange(0, i)] + split_commas(s.subrange(i + 1, s.len() as int)),
{
    reveal(split_commas);
    let w = choose|k: int| 0 <= k < s.len() && s[k] == 44 && forall|j: int| 0 <= j < k ==> s[j] != 44;
    assert(0 <= i < s.len() && s[i] == 44);
    assert(w == i) by {
        if w < i {
            assert(s[w] != 44);
        } else if w > i {
            assert(s[i] != 44);
        }
    }
}

/// One step of the split: a comma at `i` ends the piece that began at `start`.
proof fn lemma_split_step(body: Seq<u8>, start: int, i: int)
    requires
        0 <= start <= i < body.len(),
        body[i] == 44,
        forall|k: int| start <= k < i ==> body[k] != 44,
    ensures
        split_commas(body.subrange(start, body.len() as int)) == seq![body.subrange(start, i)]
            + split_commas(body.subrange(i + 1, body.len() as int)),
{
    let t = body.subrange(start, body.len() as int);
    assert forall|k: int| 0 <= k < i - start implies t[k] != 44 by {
        assert(t[k] == body[start + k]);
    }
    lemma_split_at_comma(t, i - start);
    assert(t.subrange(0, i - start) =~= body.subrange(start, i));
    assert(t.subrange(i - start + 1, t.len() as int) =~= body.subrange(i + 1, body.len() as int));
}

/// The last piece: no comma after `start`.
proof fn lemma_split_tail(body: Seq<u8>, start: int)
    requires
        0 <= start <= body.len(),
        forall|k: int| start <= k < body.len() ==> body[k] != 44,
    ensures
        split_commas(body.subrange(start, body.len() as int)) == seq![body.subrange(start, body.len() as int)],
{
    reveal(split_commas);
    let t = body.subrange(start, body.len() as int);
    assert forall|k: int| 0 <= k < t.len() implies t[k] != 44 by {
        assert(t[k] == body[start + k]);
    }
}

/// The pieces `ts`, each after a comma.
pub open spec fn comma_join(ts: Seq<Seq<u8>>) -> Seq<u8>
    decreases ts.len(),
{
    if ts.len() == 0 {
        Seq::empty()
    } else {
        seq![44u8] + ts[0] + comma_join(ts.drop_first())
    }
}

pub open spec fn comma_free(s: Seq<u8>) -> bool {
    forall|i: int| 0 <= i < s.len() ==> #[trigger] s[i] != 44
}

/// Joining comma-free pieces with commas and splitting at the commas gives
/// the pieces back.
pub proof fn lemma_split_comma_join(p: Seq<u8>, ts: Seq<Seq<u8>>)
    requires
        comma_free(p),
        forall|j: int| 0 <= j < ts.len() ==> comma_free(#[trigger] ts[j]),
    ensures
        split_commas(p + comma_join(ts)) == seq![p] + ts,
    decreases ts.len(),
{
    let s = p + comma_join(ts);
    if ts.len() == 0 {
        assert(s =~= p);
        lemma_split_tail(p, 0);
        assert(p.subrange(0, p.len() as int) =~= p);
        assert(seq![p] + ts =~= seq![p]);
    } else {
        let rest = ts.drop_first();
        assert forall|j: int| 0 <= j < rest.len() implies comma_free(#[trigger] rest[j]) by {
            assert(rest[j] == ts[j + 1]);
        }
        assert(comma_free(ts[0]));
        lemma_split_comma_join(ts[0], rest);
        let n = p.len() as int;
        assert(s[n] == 44);
        assert forall|k: int| 0 <= k < n implies s[k] != 44 by {
            assert(s[k] == p[k]);
        }
        lemma_split_at_comma(s, n);
        assert(s.subrange(0, n) =~= p);
        assert(s.subrange(n + 1, s.len() as int) =~= ts[0] + comma_join(rest));
        assert(seq![p] + (seq![ts[0]] + rest) =~= seq![p] + ts);
    }
}

proof fn lemma_split_nonempty(s: Seq<u8>)
    ensures
        split_commas(s).len() >= 1,
{
    reveal(split_commas);
}

proof fn lemma_fields_push(f: Seq<Vec<u8>>, v: Vec<u8>)
    ensures
        fields_of(f.push(v)) == fields_of(f).push(v@),
{
    assert(fields_of(f.push(v)) =~= fields_of(f).push(v@));
}

/// Split a sentence body at commas, keeping at most 24 fields.
#[verifier::rlimit(30)]
pub fn split_fields(body: &[u8]) -> (out: Vec<Vec<u8>>)
    ensures
        fields_of(out@) == sentence_fields(body@),
        1 <= out@.len() <= 24,
{
    let n = body.len();
    let mut out: Vec<Vec<u8>> = Vec::new();
    let mut start: usize = 0;
    let mut i: usize = 0;
    assert(body@.subrange(0, n as int) =~= body@);
    assert(fields_of(out@) =~= Seq::<Seq<u8>>::empty());
    while i < n
        invariant
            n == body@.len(),
            start <= i <= n,
            out@.len() < 24,
            forall|k: int| start <= k < i ==> body@[k] != 44,
            fields_of(out@) + split_commas(body@.subrange(start as int, n as int)) == split_commas(body@),
        decreases n - i,
    {
        if body[i] == 44 {
            let piece = to_vec(&body[start..i]);
            let ghost before = out@;
            let ghost rest = split_commas(body@.subrange(i + 1, n as int));
            proof {
                lemma_split_step(body@, start as int, i as int);
                lemma_fields_push(before, piece);
                assert(fields_of(before) + (seq![piece@] + rest) =~= fields_of(before).push(piece@) + rest);
            }
            out.push(piece);
            start = i + 1;
            if out.len() == 24 {
                proof {
                    lemma_split_nonempty(body@.subrange(start as int, n as int));
                    let all = split_commas(body@);
                    assert(all.take(24) =~= fields_of(out@));
                }
                return out;
            }
        }
        i += 1;
    }
    let last = to_vec(&body[start..n]);
    let ghost before = out@;
    proof {
        lemma_split_tail(body@, start as int);
        lemma_fields_push(before, last);
    }
    out.push(last);
    out
}

// ── Parse error ──────────────────────────────────────────────────────────────

/// Returned when a raw line cannot be parsed into a [`ParsedSentence`].
///
/// Causes: checksum mismatch, malformed fields, or unknown sentence type.
#[derive(Clone, Copy, Debug, PartialEq, Eq, Structural)]
pub struct ParseError;

impl ParseError {
    pub open spec fn spec_message() -> Seq<char> {
        "NMEA parse error (checksum, malformed fields, or unknown type)"@
    }

    /// Human-readable description.
    pub fn to_string(&self) -> (s: String)
        ensures
            s@ == Self::spec_message(),
    {
        String::from_str("NMEA parse error (checksum, malformed fields, or unknown type)")
    }
}

// ── Parsed sentence ──────────────────────────────────────────────────────────

/// A fully parsed NMEA sentence with its payload.
#[derive(Debug, PartialEq, Eq)]
pub enum ParsedSentence {
    Gga(GgaData),
    Rmc(RmcData),
    Gsa(GsaData),
    Gsv(GsvData),
    Vtg(VtgData),
    Zda(ZdaData),
    Gst(GstData),
    Dhv(DhvData),
    Txt(TxtData),
}

pub ghost enum SentenceModel {
    Gga(GgaModel),
    Rmc(RmcModel),
    Gsa(GsaModel),
    Gsv(GsvModel),
    Vtg(VtgModel),
    Zda(ZdaData),
    Gst(GstModel),
    Dhv(DhvModel),
    Txt(TxtData),
}

impl DeepView for ParsedSentence {
    type V = SentenceModel;

    open spec fn deep_view(&self) -> SentenceModel {
        match self {
            ParsedSentence::Gga(d) => SentenceModel::Gga(d.deep_view()),
            ParsedSentence::Rmc(d) => SentenceModel::Rmc(d.deep_view()),
            ParsedSentence::Gsa(d) => SentenceModel::Gsa(d.deep_view()),
            ParsedSentence::Gsv(d) => SentenceModel::Gsv(d.deep_view()),
            ParsedSentence::Vtg(d) => SentenceModel::Vtg(d.deep_view()),
            ParsedSentence::Zda(d) => SentenceModel::Zda(*d),
            ParsedSentence::Gst(d) => SentenceModel::Gst(d.deep_view()),
            ParsedSentence::Dhv(d) => SentenceModel::Dhv(d.deep_view()),
            ParsedSentence::Txt(d) => SentenceModel::Txt(*d),
        }
    }
}

impl ParsedSentence {
    /// Every decimal text of the payload reads as a number.
    pub open spec fn wf(&self) -> bool {
        match self {
            ParsedSentence::Gga(d) => d.wf(),
            ParsedSentence::Rmc(d) => d.wf(),
            ParsedSentence::Gsa(d) => d.wf(),
            ParsedSentence::Vtg(d) => d.wf(),
            ParsedSentence::Gst(d) => d.wf(),
            ParsedSentence::Dhv(d) => d.wf(),
            _ => true,
        }
    }
}

impl Clone for ParsedSentence {
    fn clone(&self) -> (r: Self)
        ensures
            r.deep_view() == self.deep_view(),
            r.wf() == self.wf(),
    {
        match self {
            ParsedSentence::Gga(d) => ParsedSentence::Gga(d.clone()),
            ParsedSentence::Rmc(d) => ParsedSentence::Rmc(d.clone()),
            ParsedSentence::Gsa(d) => ParsedSentence::Gsa(d.clone()),
            ParsedSentence::Gsv(d) => ParsedSentence::Gsv(*d),
            ParsedSentence::Vtg(d) => ParsedSentence::Vtg(d.clone()),
            ParsedSentence::Zda(d) => ParsedSentence::Zda(*d),
            ParsedSentence::Gst(d) => ParsedSentence::Gst(d.clone()),
            ParsedSentence::Dhv(d) => ParsedSentence::Dhv(d.clone()),
            ParsedSentence::Txt(d) => ParsedSentence::Txt(*d),
        }
    }
}

/// The sentence type of a model.
pub open spec fn model_kind(m: SentenceModel) -> SentenceType {
    match m {
        SentenceModel::Gga(_) => SentenceType::Gga,
        SentenceModel::Rmc(_) => SentenceType::Rmc,
        SentenceModel::Gsa(_) => SentenceType::Gsa,
        SentenceModel::Gsv(_) => SentenceType::Gsv,
        SentenceModel::Vtg(_) => SentenceType::Vtg,
        SentenceModel::Zda(_) => SentenceType::Zda,
        SentenceModel::Gst(_) => SentenceType::Gst,
        SentenceModel::Dhv(_) => SentenceType::Dhv,
        SentenceModel::Txt(_) => SentenceType::Txt,
    }
}

impl ParsedSentence {
    /// Return the lightweight discriminant without the payload.
    pub fn kind(&self) -> (k: SentenceType)
        ensures
            k == model_kind(self.deep_view()),
    {
        match self {
            Self::Gga(_) => SentenceType::Gga,
            Self::Rmc(_) => SentenceType::Rmc,
            Self::Gsa(_) => SentenceType::Gsa,
            Self::Gsv(_) => SentenceType::Gsv,
            Self::Vtg(_) => SentenceType::Vtg,
            Self::Zda(_) => SentenceType::Zda,
            Self::Gst(_) => SentenceType::Gst,
            Self::Dhv(_) => SentenceType::Dhv,
            Self::Txt(_) => SentenceType::Txt,
        }
    }

    /// Returns `true` for sentences that carry a position fix (GGA, RMC).
    pub fn has_position(&self) -> (r: bool)
        ensures
            r == (self is Gga || self is Rmc),
    {
        match self {
            Self::Gga(_) | Self::Rmc(_) => true,
            _ => false,
        }
    }

    pub fn as_gga(&self) -> (r: Option<&GgaData>)
        ensures
            match self {
                ParsedSentence::Gga(d) => r == Some(d),
                _ => r.is_none(),
            },
    {
        if let Self::Gga(d) = self { Some(d) } else { None }
    }

    pub fn as_rmc(&self) -> (r: Option<&RmcData>)
        ensures
            match self {
                ParsedSentence::Rmc(d) => r == Some(d),
                _ => r.is_none(),
            },
    {
        if let Self::Rmc(d) = self { Some(d) } else { None }
    }

    pub fn as_gsa(&self) -> (r: Option<&GsaData>)
        ensures
            match self {
                ParsedSentence::Gsa(d) => r == Some(d),
                _ => r.is_none(),
            },
    {
        if let Self::Gsa(d) = self { Some(d) } else { None }
    }

    pub fn as_gsv(&self) -> (r: Option<&GsvData>)
        ensures
            match self {
                ParsedSentence::Gsv(d) => r == Some(d),
                _ => r.is_none(),
            },
    {
        if let Self::Gsv(d) = self { Some(d) } else { None }
    }

    pub fn as_vtg(&self) -> (r: Option<&VtgData>)
        ensures
            match self {
                ParsedSentence::Vtg(d) => r == Some(d),
                _ => r.is_none(),
            },
    {
        if let Self::Vtg(d) = self { Some(d) } else { None }
    }

    pub fn as_zda(&self) -> (r: Option<&ZdaData>)
        ensures
            match self {
                ParsedSentence::Zda(d) => r == Some(d),
                _ => r.is_none(),
            },
    {
        if let Self::Zda(d) = self { Some(d) } else { None }
    }

    pub fn as_gst(&self) -> (r: Option<&GstData>)
        ensures
            match self {
                ParsedSentence::Gst(d) => r == Some(d),
                _ => r.is_none(),
            },
    {
        if let Self::Gst(d) = self { Some(d) } else { None }
    }

    pub fn as_dhv(&self) -> (r: Option<&DhvData>)
        ensures
            match self {
                ParsedSentence::Dhv(d) => r == Some(d),
                _ => r.is_none(),
            },
    {
        if let Self::Dhv(d) = self { Some(d) } else { None }
    }
}

// ── Reading a line ───────────────────────────────────────────────────────────

/// `"GGA"`, `"RMC"`, … as bytes.
pub open spec fn sentence_name(t: SentenceType) -> Seq<u8> {
    match t {
        SentenceType::Gga => seq![71u8, 71, 65],
        SentenceType::Rmc => seq![82u8, 77, 67],
        SentenceType::Gsa => seq![71u8, 83, 65],
        SentenceType::Gsv => seq![71u8, 83, 86],
        SentenceType::Vtg => seq![86u8, 84, 71],
        SentenceType::Zda => seq![90u8, 68, 65],
        SentenceType::Gst => seq![71u8, 83, 84],
        SentenceType::Dhv => seq![68u8, 72, 86],
        SentenceType::Txt => seq![84u8, 88, 84],
    }
}

/// The payload a sentence type's fields read as.
pub open spec fn payload_of(system: GnssSystem, stype: Seq<u8>, f: Seq<Seq<u8>>) -> Option<SentenceModel> {
    if stype == sentence_name(SentenceType::Gga) {
        match gga_fields(f) { Some(d) => Some(SentenceModel::Gga(d)), None => None }
    } else if stype == sentence_name(SentenceType::Rmc) {
        match rmc_fields(f) { Some(d) => Some(SentenceModel::Rmc(d)), None => None }
    } else if stype == sentence_name(SentenceType::Gsa) {
        match gsa_fields(system, f) { Some(d) => Some(SentenceModel::Gsa(d)), None => None }
    } else if stype == sentence_name(SentenceType::Gsv) {
        match gsv_fields(system, f) { Some(d) => Some(SentenceModel::Gsv(d)), None => None }
    } else if stype == sentence_name(SentenceType::Vtg) {
        match vtg_fields(f) { Some(d) => Some(SentenceModel::Vtg(d)), None => None }
    } else if stype == sentence_name(SentenceType::Zda) {
        match zda_fields(f) { Some(d) => Some(SentenceModel::Zda(d)), None => None }
    } else if stype == sentence_name(SentenceType::Gst) {
        match gst_fields(f) { Some(d) => Some(SentenceModel::Gst(d)), None => None }
    } else if stype == sentence_name(SentenceType::Dhv) {
        match dhv_fields(f) { Some(d) => Some(SentenceModel::Dhv(d)), None => None }
    } else if stype == sentence_name(SentenceType::Txt) {
        match txt_fields(f) { Some(d) => Some(SentenceModel::Txt(d)), None => None }
    } else {
        None
    }
}

pub open spec fn payload_aborts(stype: Seq<u8>, f: Seq<Seq<u8>>) -> bool {
    ||| (stype == sentence_name(SentenceType::Gga) && gga_aborts(f))
    ||| (stype == sentence_name(SentenceType::Rmc) && rmc_aborts(f))
    ||| (stype == sentence_name(SentenceType::Zda) && zda_aborts(f))
}

/// The sentence the fields of a body make: the id (first field) is either
/// proprietary (`P…`, no talker) or a two-letter talker followed by the type.
pub open spec fn fields_sentence(fields: Seq<Seq<u8>>) -> Option<SentenceModel> {
    let id = fields[0];
    if id.len() < 3 {
        None
    } else if id[0] == 80 {
        payload_of(GnssSystem::Multi, id, fields.drop_first())
    } else if id.len() >= 5 {
        payload_of(
            system_of_talker(id.subrange(0, 2)),
            id.subrange(2, id.len() as int),
            fields.drop_first(),
        )
    } else {
        None
    }
}

pub open spec fn fields_abort(fields: Seq<Seq<u8>>) -> bool {
    let id = fields[0];
    id.len() >= 3 && if id[0] == 80 {
        payload_aborts(id, fields.drop_first())
    } else {
        id.len() >= 5 && (!on_boundary(id, 2) || payload_aborts(
            id.subrange(2, id.len() as int),
            fields.drop_first(),
        ))
    }
}

/// The sentence a raw line holds: the checksum verifies, the body is UTF-8,
/// no field that is taken apart would be cut inside a UTF-8 character (the
/// talker of the id, a time, date or coordinate field), and the fields read
/// as one of the known sentence types.
pub open spec fn sentence_of(line: Seq<u8>) -> Option<SentenceModel> {
    if verify_ok(line) && valid_utf8(verify_body(line)) && !fields_abort(sentence_fields(verify_body(line))) {
        fields_sentence(sentence_fields(verify_body(line)))
    } else {
        None
    }
}

fn name_is(s: &[u8], t: SentenceType) -> (r: bool)
    ensures
        r == (s@ == sentence_name(t)),
{
    let name = match t {
        SentenceType::Gga => [71u8, 71, 65],
        SentenceType::Rmc => [82u8, 77, 67],
        SentenceType::Gsa => [71u8, 83, 65],
        SentenceType::Gsv => [71u8, 83, 86],
        SentenceType::Vtg => [86u8, 84, 71],
        SentenceType::Zda => [90u8, 68, 65],
        SentenceType::Gst => [71u8, 83, 84],
        SentenceType::Dhv => [68u8, 72, 86],
        SentenceType::Txt => [84u8, 88, 84],
    };
    assert(name@ =~= sentence_name(t));
    bytes_eq(s, name.as_slice())
}

fn dispatch(system: GnssSystem, stype: &[u8], f: &[Vec<u8>]) -> (r: Option<ParsedSentence>)
    requires
        !payload_aborts(stype@, fields_of(f@)),
    ensures
        r.deep_view() == payload_of(system, stype@, fields_of(f@)),
        r matches Some(s) ==> s.wf(),
{
    if name_is(stype, SentenceType::Gga) {
        match gga::parse(system, f) { Some(d) => Some(ParsedSentence::Gga(d)), None => None }
    } else if name_is(stype, SentenceType::Rmc) {
        match rmc::parse(system, f) { Some(d) => Some(ParsedSentence::Rmc(d)), None => None }
    } else if name_is(stype, SentenceType::Gsa) {
        match gsa::parse(system, f) { Some(d) => Some(ParsedSentence::Gsa(d)), None => None }
    } else if name_is(stype, SentenceType::Gsv) {
        match gsv::parse(system, f) { Some(d) => Some(ParsedSentence::Gsv(d)), None => None }
    } else if name_is(stype, SentenceType::Vtg) {
        match vtg::parse(f) { Some(d) => Some(ParsedSentence::Vtg(d)), None => None }
    } else if name_is(stype, SentenceType::Zda) {
        match zda::parse(f) { Some(d) => Some(ParsedSentence::Zda(d)), None => None }
    } else if name_is(stype, SentenceType::Gst) {
        match gst::parse(f) { Some(d) => Some(ParsedSentence::Gst(d)), None => None }
    } else if name_is(stype, SentenceType::Dhv) {
        match dhv::parse(f) { Some(d) => Some(ParsedSentence::Dhv(d)), None => None }
    } else if name_is(stype, SentenceType::Txt) {
        match txt::parse(f) { Some(d) => Some(ParsedSentence::Txt(d)), None => None }
    } else {
        None
    }
}

fn payload_would_abort(stype: &[u8], f: &[Vec<u8>]) -> (r: bool)
    ensures
        r == payload_aborts(stype@, fields_of(f@)),
{
    if name_is(stype, SentenceType::Gga) {
        gga::would_abort(f)
    } else if name_is(stype, SentenceType::Rmc) {
        rmc::would_abort(f)
    } else if name_is(stype, SentenceType::Zda) {
        zda::would_abort(f)
    } else {
        false
    }
}

/// Parse a raw NMEA line. Prefer [`ParsedSentence::try_from_bytes`] for a `Result`-based API.
pub fn parse_sentence(line: &[u8]) -> (r: Option<ParsedSentence>)
    ensures
        r.deep_view() == sentence_of(line@),
        r matches Some(s) ==> s.wf(),
{
    let body = match verify(line) {
        Some(b) => b,
        None => return None,
    };
    if !is_valid_utf8(body) {
        return None;
    }
    let fields = split_fields(body);
    let ghost fs = fields_of(fields@);
    let nf = fields.len();
    let id = fields[0].as_slice();
    assert(id@ == fs[0]);
    if id.len() < 3 {
        return None;
    }
    let all = fields.as_slice();
    let f = &all[1..nf];
    assert(fields_of(f@) =~= fs.drop_first());
    if id[0] == 80 {
        if payload_would_abort(id, f) {
            return None;
        }
        let system = GnssSystem::from_talker(&id[0..0]);
        assert(id@.subrange(0, 0) =~= Seq::<u8>::empty());
        assert(system_of_talker(Seq::<u8>::empty()) == GnssSystem::Multi);
        dispatch(system, id, f)
    } else if id.len() >= 5 {
        if !at_boundary(id, 2) {
            return None;
        }
        let stype = &id[2..id.len()];
        if payload_would_abort(stype, f) {
            return None;
        }
        let system = GnssSystem::from_talker(&id[0..2]);
        dispatch(system, stype, f)
    } else {
        None
    }
}

impl ParsedSentence {
    /// Parse one raw line; `Err(ParseError)` for checksum failures, malformed
    /// fields, or unknown sentence types.
    pub fn try_from_bytes(line: &[u8]) -> (r: Result<ParsedSentence, ParseError>)
        ensures
            r.is_ok() == sentence_of(line@).is_some(),
            r matches Ok(s) ==> Some(s.deep_view()) == sentence_of(line@) && s.wf(),
    {
        match parse_sentence(line) {
            Some(s) => Ok(s),
            None => Err(ParseError),
        }
    }

    /// Parse one line of text; see [`ParsedSentence::try_from_bytes`].
    pub fn try_from_str(line: &str) -> (r: Result<ParsedSentence, ParseError>)
        ensures
            r.is_ok() == sentence_of(line.spec_bytes()).is_some(),
            r matches Ok(s) ==> Some(s.deep_view()) == sentence_of(line.spec_bytes()) && s.wf(),
    {
        Self::try_from_bytes(line.as_bytes())
    }
}

// ── Laws ─────────────────────────────────────────────────────────────────────

/// The payload read from a type name is of the type that name names.
proof fn lemma_payload_kind(system: GnssSystem, stype: Seq<u8>, f: Seq<Seq<u8>>)
    ensures
        payload_of(system, stype, f) matches Some(m) ==> stype == sentence_name(model_kind(m)),
{
}

/// A line reads as a sentence only when its checksum verifies and its body
/// is UTF-8; its id is then a two-letter talker followed by the three-letter
/// name of the sentence's type (a proprietary `P…` id never reads), and a GSV
/// sentence belongs to the constellation its talker names.
pub proof fn lemma_parsed_lines_verify(line: Seq<u8>)
    ensures
        sentence_of(line) matches Some(m) ==> {
            let id = sentence_fields(verify_body(line))[0];
            &&& verify_ok(line)
            &&& valid_utf8(verify_body(line))
            &&& id.len() == 5
            &&& id[0] != 80
            &&& id.subrange(2, 5) == sentence_name(model_kind(m))
            &&& (m matches SentenceModel::Gsv(g) ==> g.system == system_of_talker(id.subrange(0, 2)))
        },
{
    if verify_ok(line) && valid_utf8(verify_body(line)) {
        let fields = sentence_fields(verify_body(line));
        let id = fields[0];
        if id.len() >= 3 {
            if id[0] == 80 {
                lemma_payload_kind(GnssSystem::Multi, id, fields.drop_first());
                if payload_of(GnssSystem::Multi, id, fields.drop_first()) is Some {
                    assert(id[0] == sentence_name(model_kind(
                        payload_of(GnssSystem::Multi, id, fields.drop_first()).unwrap()))[0]);
                }
            } else if id.len() >= 5 {
                let stype = id.subrange(2, id.len() as int);
                lemma_payload_kind(system_of_talker(id.subrange(0, 2)), stype, fields.drop_first());
                if payload_of(system_of_talker(id.subrange(0, 2)), stype, fields.drop_first()) is Some {
                    assert(stype.len() == 3);
                    assert(id.subrange(2, 5) =~= stype);
                }
            }
        }
    }
}


/// The name a sentence type is read by is its three-letter label, byte for
/// character.
pub proof fn lemma_sentence_names_match_labels(t: SentenceType)
    ensures
        sentence_name(t).len() == 3,
        t.spec_label().len() == 3,
        forall|i: int| 0 <= i < 3 ==> sentence_name(t)[i] as char == #[trigger] t.spec_label()[i],
{
    reveal_strlit("GGA");
    reveal_strlit("RMC");
    reveal_strlit("GSA");
    reveal_strlit("GSV");
    reveal_strlit("VTG");
    reveal_strlit("ZDA");
    reveal_strlit("GST");
    reveal_strlit("DHV");
    reveal_strlit("TXT");
}

} // verus!
