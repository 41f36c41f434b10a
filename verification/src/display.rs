//! What the monitor's panels show, decided apart from drawing them: the sky
//! plot markers, the satellite table's order and signal bars, the log line
//! tints, and the completion popup's scroll position.
use vstd::prelude::*;
use crate::console::{chars_of, find_chars, contains_chars, CompletionRow};
use crate::state::{GnssStore, StoreModel};
use crate::types::{GnssSystem, NmeaDate, NmeaTime, SatInfo};

verus! {

// ── Sky plot ─────────────────────────────────────────────────────────────────

pub open spec fn spec_sys_char(sys: GnssSystem) -> char {
    match sys {
        GnssSystem::Gps => 'G',
        GnssSystem::Beidou => 'B',
        GnssSystem::Glonass => 'R',
        GnssSystem::Galileo => 'E',
        GnssSystem::Qzss => 'Q',
        GnssSystem::Multi => '?',
    }
}

/// The one-letter constellation marker of the sky plot.
pub fn sys_char(sys: GnssSystem) -> (c: char)
    ensures
        c == spec_sys_char(sys),
{
    match sys {
        GnssSystem::Gps => 'G',
        GnssSystem::Beidou => 'B',
        GnssSystem::Glonass => 'R',
        GnssSystem::Galileo => 'E',
        GnssSystem::Qzss => 'Q',
        GnssSystem::Multi => '?',
    }
}

/// ASCII lower case of one character.
pub open spec fn lower_char(c: char) -> char {
    if 'A' <= c <= 'Z' {
        ((c as u32) + 32) as char
    } else {
        c
    }
}

/// The sky-plot marker of a satellite: its constellation letter, upper case
/// when used in the fix and lower case when only visible.
pub fn sky_char(sat: &SatInfo) -> (c: char)
    ensures
        c == if sat.used {
            spec_sys_char(sat.system)
        } else {
            lower_char(spec_sys_char(sat.system))
        },
{
    let c = sys_char(sat.system);
    if sat.used {
        c
    } else {
        match c {
            'G' => 'g',
            'B' => 'b',
            'R' => 'r',
            'E' => 'e',
            'Q' => 'q',
            _ => c,
        }
    }
}

// ── Satellite table ──────────────────────────────────────────────────────────

/// How strong a signal is.
#[derive(Clone, Copy, Debug, PartialEq, Eq, Structural)]
pub enum SignalLevel {
    /// 30 dB-Hz and above.
    Strong,
    /// 20 to 29 dB-Hz.
    Fair,
    /// Below 20 dB-Hz.
    Weak,
}

pub fn signal_level(snr: u8) -> (r: SignalLevel)
    ensures
        r == if snr >= 30 {
            SignalLevel::Strong
        } else if snr >= 20 {
            SignalLevel::Fair
        } else {
            SignalLevel::Weak
        },
{
    if snr >= 30 {
        SignalLevel::Strong
    } else if snr >= 20 {
        SignalLevel::Fair
    } else {
        SignalLevel::Weak
    }
}

/// The filled cells of a signal bar `width` cells wide: 50 dB-Hz fills it.
pub fn snr_fill(snr: u8, width: usize) -> (r: usize)
    requires
        snr * width <= usize::MAX,
    ensures
        r == if (snr * width) / 50 <= width {
            (snr * width) / 50
        } else {
            width as int
        },
{
    let filled = (snr as usize * width) / 50;
    if filled <= width {
        filled
    } else {
        width
    }
}

/// The signal-bar width for a table `inner_width` cells wide: what is left
/// after the 36 cells of text columns, kept between 10 and 28.
pub fn bar_width(inner_width: usize) -> (r: usize)
    ensures
        r == if inner_width < 46 {
            10
        } else if inner_width > 64 {
            28
        } else {
            inner_width - 36
        },
{
    let rest = if inner_width >= 36 {
        inner_width - 36
    } else {
        0
    };
    if rest < 10 {
        10
    } else if rest > 28 {
        28
    } else {
        rest
    }
}

/// The table order of a satellite: used ones first, then stronger signals
/// (a missing SNR counts as 0).
pub open spec fn rank(s: SatInfo) -> int {
    (if s.used {
        256int
    } else {
        0int
    }) + match s.snr {
        Some(v) => v as int,
        None => 0int,
    }
}

/// `x` placed after the entries of `sorted` that rank at least as high.
pub open spec fn insert_by_rank(sorted: Seq<SatInfo>, x: SatInfo) -> Seq<SatInfo>
    decreases sorted.len(),
{
    if sorted.len() == 0 {
        seq![x]
    } else if rank(sorted.last()) >= rank(x) {
        sorted.push(x)
    } else {
        insert_by_rank(sorted.drop_last(), x).push(sorted.last())
    }
}

/// The satellites in table order, ties kept in the order they came.
pub open spec fn table_sorted(s: Seq<SatInfo>) -> Seq<SatInfo>
    decreases s.len(),
{
    if s.len() == 0 {
        s
    } else {
        insert_by_rank(table_sorted(s.drop_last()), s.last())
    }
}

fn rank_exec(s: &SatInfo) -> (r: u16)
    ensures
        r == rank(*s),
{
    let base: u16 = if s.used {
        256
    } else {
        0
    };
    match s.snr {
        Some(v) => base + v as u16,
        None => base,
    }
}

/// Inserting at `p`, found by walking back over lower-ranked entries.
proof fn lemma_insert_at(sorted: Seq<SatInfo>, x: SatInfo, p: int)
    requires
        0 <= p <= sorted.len(),
        forall|k: int| p <= k < sorted.len() ==> rank(#[trigger] sorted[k]) < rank(x),
        p > 0 ==> rank(sorted[p - 1]) >= rank(x),
    ensures
        insert_by_rank(sorted, x) == sorted.take(p).push(x) + sorted.skip(p),
    decreases sorted.len(),
{
    if sorted.len() == 0 {
        assert(sorted.take(p).push(x) + sorted.skip(p) =~= seq![x]);
    } else if p == sorted.len() {
        assert(sorted.take(p) =~= sorted);
        assert(sorted.take(p).push(x) + sorted.skip(p) =~= sorted.push(x));
    } else {
        let d = sorted.drop_last();
        lemma_insert_at(d, x, p);
        assert(sorted.take(p).push(x) + sorted.skip(p) =~= (d.take(p).push(x) + d.skip(p)).push(
            sorted.last(),
        ));
    }
}

/// The satellites in table order: used first, then by signal strength,
/// strongest first; ties keep their order.
pub fn table_order(sats: &[SatInfo]) -> (r: Vec<SatInfo>)
    ensures
        r@ == table_sorted(sats@),
{
    let mut out: Vec<SatInfo> = Vec::new();
    let mut i: usize = 0;
    assert(sats@.take(0) =~= Seq::<SatInfo>::empty());
    while i < sats.len()
        invariant
            i <= sats@.len(),
            out@ == table_sorted(sats@.take(i as int)),
        decreases sats@.len() - i,
    {
        let x = sats[i];
        let rx = rank_exec(&x);
        let mut p = out.len();
        while p > 0 && rank_exec(&out[p - 1]) < rx
            invariant
                p <= out@.len(),
                rx == rank(x),
                forall|k: int| p <= k < out@.len() ==> rank(#[trigger] out@[k]) < rank(x),
            decreases p,
        {
            p -= 1;
        }
        proof {
            lemma_insert_at(out@, x, p as int);
            assert(sats@.take(i + 1).drop_last() =~= sats@.take(i as int));
        }
        let ghost before = out@;
        out.insert(p, x);
        assert(out@ =~= before.take(p as int).push(x) + before.skip(p as int));
        i += 1;
    }
    assert(sats@.take(sats@.len() as int) =~= sats@);
    out
}

/// Non-increasing rank: the table order.
pub open spec fn ranked(s: Seq<SatInfo>) -> bool {
    forall|i: int, j: int| 0 <= i < j < s.len() ==> rank(#[trigger] s[i]) >= rank(#[trigger] s[j])
}

proof fn lemma_insert_by_rank(sorted: Seq<SatInfo>, x: SatInfo)
    ensures
        insert_by_rank(sorted, x).len() == sorted.len() + 1,
        insert_by_rank(sorted, x).to_multiset() == sorted.to_multiset().insert(x),
        ranked(sorted) ==> ranked(insert_by_rank(sorted, x)),
    decreases sorted.len(),
{
    broadcast use vstd::seq_lib::group_to_multiset_ensures;
    broadcast use vstd::multiset::group_multiset_axioms;

    if sorted.len() == 0 {
        assert(insert_by_rank(sorted, x) == Seq::<SatInfo>::empty().push(x));
    } else if rank(sorted.last()) >= rank(x) {
    } else {
        let d = sorted.drop_last();
        let last = sorted.last();
        lemma_insert_by_rank(d, x);
        let r = insert_by_rank(d, x);
        assert(sorted == d.push(last));
        assert(r.push(last).to_multiset() =~= sorted.to_multiset().insert(x));
        if ranked(sorted) {
            assert(ranked(d)) by {
                assert forall|i: int, j: int| 0 <= i < j < d.len() implies rank(#[trigger] d[i]) >= rank(#[trigger] d[j]) by {
                    assert(d[i] == sorted[i] && d[j] == sorted[j]);
                }
            }
            assert forall|k: int| 0 <= k < r.len() implies rank(#[trigger] r[k]) >= rank(last) by {
                assert(r.to_multiset().count(r[k]) > 0);
                if r[k] != x {
                    assert(d.to_multiset().count(r[k]) > 0);
                    assert(d.contains(r[k]));
                    let w = choose|w: int| 0 <= w < d.len() && d[w] == r[k];
                    assert(sorted[w] == d[w]);
                    assert(rank(sorted[w]) >= rank(sorted[sorted.len() - 1]));
                }
            }
            let out = r.push(last);
            assert forall|i: int, j: int| 0 <= i < j < out.len() implies rank(#[trigger] out[i]) >= rank(#[trigger] out[j]) by {
                if j < r.len() {
                    assert(out[i] == r[i] && out[j] == r[j]);
                } else {
                    assert(out[i] == r[i]);
                }
            }
        }
    }
}

/// The table order puts every satellite in the table once and never lists
/// a weaker-ranked one (unused, or a lower SNR) above a stronger one.
pub proof fn lemma_table_order(s: Seq<SatInfo>)
    ensures
        table_sorted(s).len() == s.len(),
        table_sorted(s).to_multiset() == s.to_multiset(),
        ranked(table_sorted(s)),
    decreases s.len(),
{
    broadcast use vstd::seq_lib::group_to_multiset_ensures;

    if s.len() > 0 {
        let d = s.drop_last();
        lemma_table_order(d);
        lemma_insert_by_rank(table_sorted(d), s.last());
        assert(s == d.push(s.last()));
    }
}

// ── Log ──────────────────────────────────────────────────────────────────────

/// The colour group of a logged sentence, by the first sentence name its
/// text contains.
#[derive(Clone, Copy, Debug, PartialEq, Eq, Structural)]
pub enum SentenceTint {
    Gga,
    Rmc,
    Gsa,
    Gsv,
    Txt,
    Other,
}

pub open spec fn tint_of(raw: Seq<char>) -> SentenceTint {
    if contains_chars(raw, "GGA"@) {
        SentenceTint::Gga
    } else if contains_chars(raw, "RMC"@) {
        SentenceTint::Rmc
    } else if contains_chars(raw, "GSA"@) {
        SentenceTint::Gsa
    } else if contains_chars(raw, "GSV"@) {
        SentenceTint::Gsv
    } else if contains_chars(raw, "TXT"@) {
        SentenceTint::Txt
    } else {
        SentenceTint::Other
    }
}

pub fn sentence_tint(raw: &str) -> (r: SentenceTint)
    ensures
        r == tint_of(raw@),
{
    let text = chars_of(raw);
    let t = text.as_slice();
    if find_chars(t, chars_of("GGA").as_slice()) {
        SentenceTint::Gga
    } else if find_chars(t, chars_of("RMC").as_slice()) {
        SentenceTint::Rmc
    } else if find_chars(t, chars_of("GSA").as_slice()) {
        SentenceTint::Gsa
    } else if find_chars(t, chars_of("GSV").as_slice()) {
        SentenceTint::Gsv
    } else if find_chars(t, chars_of("TXT").as_slice()) {
        SentenceTint::Txt
    } else {
        SentenceTint::Other
    }
}

// ── Header clock ─────────────────────────────────────────────────────────────

/// The header's clock: time and date of the latest RMC, else the time of
/// the latest GGA with no date, else dashes.
pub open spec fn clock_of(m: StoreModel) -> (Seq<char>, Seq<char>) {
    match m.rmc {
        Some(r) => (r.time.spec_text(), r.date.spec_text()),
        None => match m.gga {
            Some(g) => (g.time.spec_text(), Seq::empty()),
            None => ("--:--:--"@, Seq::empty()),
        },
    }
}

pub fn clock_text<S: GnssStore>(state: &S) -> (r: (String, String))
    ensures
        (r.0@, r.1@) == clock_of(state.model()),
{
    match state.rmc() {
        Some(r) => (r.time.to_string(), r.date.to_string()),
        None => match state.gga() {
            Some(g) => (g.time.to_string(), String::new()),
            None => (String::from_str("--:--:--"), String::new()),
        },
    }
}

// ── Overlays ─────────────────────────────────────────────────────────────────

/// An overlay of `want_w` × `want_h` cells centred in an area of `w` × `h`
/// cells at (`x`, `y`): its width, and its height too when `fit_h` is set,
/// shrink to leave two cells of margin on each side. Its position and size.
pub open spec fn centred(x: int, y: int, w: int, h: int, want_w: int, want_h: int, fit_h: bool) -> (int, int, int, int) {
    let pw = if w >= 4 && want_w <= w - 4 {
        want_w
    } else if w >= 4 {
        w - 4
    } else {
        0
    };
    let ph = if !fit_h || (h >= 4 && want_h <= h - 4) {
        want_h
    } else if h >= 4 {
        h - 4
    } else {
        0
    };
    (x + (if w >= pw { w - pw } else { 0 }) / 2, y + (if h >= ph { h - ph } else { 0 }) / 2, pw, ph)
}

pub fn centred_popup(x: u16, y: u16, w: u16, h: u16, want_w: u16, want_h: u16, fit_h: bool) -> (r: (u16, u16, u16, u16))
    requires
        x + w <= u16::MAX,
        y + h <= u16::MAX,
    ensures
        (r.0 as int, r.1 as int, r.2 as int, r.3 as int) == centred(
            x as int,
            y as int,
            w as int,
            h as int,
            want_w as int,
            want_h as int,
            fit_h,
        ),
{
    let room_w = if w >= 4 {
        w - 4
    } else {
        0
    };
    let room_h = if h >= 4 {
        h - 4
    } else {
        0
    };
    let pw = if want_w <= room_w {
        want_w
    } else {
        room_w
    };
    let ph = if !fit_h || want_h <= room_h {
        want_h
    } else {
        room_h
    };
    let dx = if w >= pw {
        w - pw
    } else {
        0
    };
    let dy = if h >= ph {
        h - ph
    } else {
        0
    };
    (x + dx / 2, y + dy / 2, pw, ph)
}

// ── Completion popup ─────────────────────────────────────────────────────────

/// The row showing entry `sel`, if any.
pub open spec fn row_of(rows: Seq<CompletionRow>, sel: usize) -> Option<int>
    decreases rows.len(),
{
    if rows.len() == 0 {
        None
    } else if rows[0] matches CompletionRow::Variant { idx } && idx == sel {
        Some(0)
    } else {
        match row_of(rows.drop_first(), sel) {
            Some(r) => Some(r + 1),
            None => None,
        }
    }
}

/// The first row to show, `max_visible` rows at a time, so that the selected
/// entry's row (the first row when nothing is selected) stays in view.
pub open spec fn scroll_for(rows: Seq<CompletionRow>, selected: Option<usize>, max_visible: int) -> int {
    let row = match selected {
        Some(sel) => match row_of(rows, sel) {
            Some(r) => r,
            None => 0,
        },
        None => 0,
    };
    if row >= max_visible {
        row - max_visible + 1
    } else {
        0
    }
}

fn row_index(rows: &[CompletionRow], sel: usize) -> (r: usize)
    ensures
        match row_of(rows@, sel) {
            Some(p) => r == p,
            None => r == 0,
        },
        r == 0 || r < rows@.len(),
        r < usize::MAX,
{
    let mut i: usize = 0;
    assert(rows@.skip(0) =~= rows@);
    while i < rows.len()
        invariant
            i <= rows@.len(),
            row_of(rows@, sel) == match row_of(rows@.skip(i as int), sel) {
                Some(r) => Some(r + i),
                None => None::<int>,
            },
        decreases rows@.len() - i,
    {
        assert(rows@.skip(i as int).drop_first() =~= rows@.skip(i + 1));
        assert(rows@.skip(i as int)[0] == rows@[i as int]);
        match rows[i] {
            CompletionRow::Variant { idx } => if idx == sel {
                return i;
            },
            _ => {},
        }
        i += 1;
    }
    0
}

pub fn popup_scroll(rows: &[CompletionRow], selected: Option<usize>, max_visible: usize) -> (r: usize)
    ensures
        r == scroll_for(rows@, selected, max_visible as int),
{
    let row = match selected {
        Some(sel) => row_index(rows, sel),
        None => 0,
    };
    if row >= max_visible {
        row - max_visible + 1
    } else {
        0
    }
}

/// Height of the completion list: up to `max_visible` rows and its border.
pub fn list_popup_height(rows: usize, max_visible: usize) -> (r: usize)
    requires
        max_visible + 2 <= usize::MAX,
    ensures
        r == (if rows <= max_visible { rows } else { max_visible }) + 2,
{
    (if rows <= max_visible { rows } else { max_visible }) + 2
}

/// Height of a command's detail panel: its detail lines and five more,
/// `cap` at most.
pub fn detail_popup_height(lines: usize, cap: usize) -> (r: usize)
    requires
        lines + 5 <= usize::MAX,
    ensures
        r == (if lines + 5 <= cap { lines + 5 } else { cap as int }),
{
    if lines + 5 <= cap { lines + 5 } else { cap }
}

/// A popup of height `h` standing just above an input box at (`x`, `y`) of
/// width `w`: one cell in from the box's left edge and two cells narrower.
/// There is none when the rows above the box cannot hold it.
pub open spec fn above(x: int, y: int, w: int, h: int) -> Option<(int, int, int, int)> {
    if y < h + 1 {
        None
    } else {
        Some((x + 1, y - h, if w >= 2 { w - 2 } else { 0 }, h))
    }
}

pub fn popup_above(x: u16, y: u16, w: u16, h: u16) -> (r: Option<(u16, u16, u16, u16)>)
    requires
        x < u16::MAX,
    ensures
        match (r, above(x as int, y as int, w as int, h as int)) {
            (Some(p), Some(q)) => (p.0 as int, p.1 as int, p.2 as int, p.3 as int) == q,
            (None, None) => true,
            _ => false,
        },
{
    if (y as u32) < (h as u32) + 1 {
        None
    } else {
        let pw = if w >= 2 { w - 2 } else { 0 };
        Some((x + 1, y - h, pw, h))
    }
}

} // verus!
