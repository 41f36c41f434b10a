//! The monitor's interactive console: the NMEA log, the `$PCAS` command line
//! with completion and history, and the key bindings. Drawing, the clock and
//! the session the commands go to are the caller's.
pub mod table;

use std::collections::VecDeque;
use vstd::prelude::*;
use crate::command::RestartMode;
use crate::sentence_reader::SentenceLine;
use table::{catalogue, command_table, CommandVariant, COMMAND_COUNT};

verus! {

// ── Text ─────────────────────────────────────────────────────────────────────

/// ASCII upper case of one character; other characters are kept.
pub open spec fn upper_char(c: char) -> char {
    if 'a' <= c <= 'z' {
        ((c as u32) - 32) as char
    } else {
        c
    }
}

/// ASCII upper case of a text.
pub open spec fn upper(s: Seq<char>) -> Seq<char> {
    Seq::new(s.len(), |i: int| upper_char(s[i]))
}

/// `needle` occurs in `hay`.
pub open spec fn contains_chars(hay: Seq<char>, needle: Seq<char>) -> bool {
    exists|i: int| 0 <= i && i + needle.len() <= hay.len() && #[trigger] hay.subrange(i, i + needle.len()) == needle
}

pub fn upper_char_exec(c: char) -> (r: char)
    ensures
        r == upper_char(c),
{
    if 'a' <= c && c <= 'z' {
        let b = (c as u32) - 32;
        char_of(b)
    } else {
        c
    }
}

fn char_of(b: u32) -> (r: char)
    requires
        b < 128,
    ensures
        r == b as char,
{
    (b as u8) as char
}

/// The characters of a text.
pub fn chars_of(s: &str) -> (r: Vec<char>)
    ensures
        r@ == s@,
{
    broadcast use vstd::string::axiom_spec_iter;
    let mut v: Vec<char> = Vec::new();
    for c in it: s.chars()
        invariant
            v@ == it.seq().take(it.index() as int),
    {
        v.push(c);
    }
    v
}

/// ASCII upper case of a text.
pub fn upper_chars(s: &[char]) -> (r: Vec<char>)
    ensures
        r@ == upper(s@),
{
    let mut v: Vec<char> = Vec::new();
    let mut i: usize = 0;
    while i < s.len()
        invariant
            i <= s@.len(),
            v@ == upper(s@.take(i as int)),
        decreases s@.len() - i,
    {
        let u = upper_char_exec(s[i]);
        v.push(u);
        i += 1;
        assert(v@ =~= upper(s@.take(i as int)));
    }
    assert(s@.take(s@.len() as int) =~= s@);
    v
}

/// Whether `needle` occurs in `hay`.
pub fn find_chars(hay: &[char], needle: &[char]) -> (r: bool)
    ensures
        r == contains_chars(hay@, needle@),
{
    let hn = hay.len();
    let nn = needle.len();
    if nn > hn {
        assert forall|i: int| 0 <= i && i + nn <= hn implies !(#[trigger] hay@.subrange(i, i + nn) == needle@) by {}
        return false;
    }
    let mut i: usize = 0;
    while i <= hn - nn
        invariant
            nn <= hn,
            hn == hay@.len(),
            nn == needle@.len(),
            i <= hn - nn + 1,
            forall|k: int| 0 <= k < i ==> #[trigger] hay@.subrange(k, k + nn) != needle@,
        decreases hn - i,
    {
        let mut j: usize = 0;
        let mut same = true;
        while j < nn
            invariant
                nn <= hn,
                i + nn <= hn,
                hn == hay@.len(),
                nn == needle@.len(),
                j <= nn,
                same == forall|t: int| 0 <= t < j ==> hay@[i + t] == needle@[t],
            decreases nn - j,
        {
            if hay[i + j] != needle[j] {
                same = false;
            }
            j += 1;
        }
        if same {
            assert(hay@.subrange(i as int, i + nn) =~= needle@);
            return true;
        }
        assert(hay@.subrange(i as int, i + nn) != needle@) by {
            let w = choose|t: int| 0 <= t < nn && hay@[i + t] != needle@[t];
            assert(hay@.subrange(i as int, i + nn)[w] != needle@[w]);
        }
        i += 1;
    }
    false
}

// ── Matching commands ────────────────────────────────────────────────────────

/// One text of an entry, upper-cased, holds the upper-cased query.
pub open spec fn field_matches(field: Seq<char>, search: Seq<char>) -> bool {
    contains_chars(upper(field), upper(search))
}

/// An entry matches the typed text when the text is empty or, ignoring ASCII
/// case, occurs in its command, category, description or category label.
pub open spec fn variant_matches(c: CommandVariant, search: Seq<char>) -> bool {
    ||| search.len() == 0
    ||| field_matches(c.full_command@, search)
    ||| field_matches(c.category@, search)
    ||| field_matches(c.description@, search)
    ||| field_matches(c.category_label@, search)
}

/// The indices of the matching entries, in order.
pub open spec fn matching(cmds: Seq<CommandVariant>, search: Seq<char>) -> Seq<usize>
    decreases cmds.len(),
{
    if cmds.len() == 0 {
        Seq::empty()
    } else {
        let r = matching(cmds.drop_last(), search);
        if variant_matches(cmds.last(), search) {
            r.push((cmds.len() - 1) as usize)
        } else {
            r
        }
    }
}

/// Every matching index lies in the catalogue, and they increase.
pub proof fn lemma_matching_bounds(cmds: Seq<CommandVariant>, search: Seq<char>)
    requires
        cmds.len() <= usize::MAX,
    ensures
        forall|j: int| 0 <= j < matching(cmds, search).len() ==> (#[trigger] matching(cmds, search)[j] as int)
            < cmds.len(),
        forall|i: int, j: int|
            0 <= i < j < matching(cmds, search).len() ==> matching(cmds, search)[i]
                < matching(cmds, search)[j],
    decreases cmds.len(),
{
    if cmds.len() > 0 {
        let prev = cmds.drop_last();
        lemma_matching_bounds(prev, search);
        let r = matching(prev, search);
        let m = matching(cmds, search);
        assert(forall|j: int| 0 <= j < r.len() ==> (#[trigger] r[j] as int) < prev.len());
        if variant_matches(cmds.last(), search) {
            assert(m == r.push((cmds.len() - 1) as usize));
            assert forall|j: int| 0 <= j < m.len() implies (#[trigger] m[j] as int) < cmds.len() by {
                if j < r.len() {
                    assert(m[j] == r[j]);
                }
            }
            assert forall|i: int, j: int| 0 <= i < j < m.len() implies m[i] < m[j] by {
                assert(m[i] == r[i]);
                if j < r.len() {
                    assert(m[j] == r[j]);
                }
            }
        } else {
            assert(m == r);
        }
    }
}

fn variant_matches_exec(c: &CommandVariant, q: &[char]) -> (r: bool)
    requires
        exists|s: Seq<char>| q@ == upper(s) && (q@.len() == 0 <==> s.len() == 0),
    ensures
        forall|s: Seq<char>| q@ == upper(s) ==> r == variant_matches(*c, s),
{
    if q.len() == 0 {
        return true;
    }
    let full = upper_chars(chars_of(c.full_command).as_slice());
    let cat = upper_chars(chars_of(c.category).as_slice());
    let desc = upper_chars(chars_of(c.description).as_slice());
    let label = upper_chars(chars_of(c.category_label).as_slice());
    find_chars(full.as_slice(), q) || find_chars(cat.as_slice(), q) || find_chars(desc.as_slice(), q)
        || find_chars(label.as_slice(), q)
}

/// The entries of `cmds` matching the typed text `search`.
pub fn matching_in(cmds: &[CommandVariant], search: &[char]) -> (r: Vec<usize>)
    ensures
        r@ == matching(cmds@, search@),
{
    let q = upper_chars(search);
    let mut r: Vec<usize> = Vec::new();
    let mut i: usize = 0;
    assert(cmds@.take(0) =~= Seq::<CommandVariant>::empty());
    while i < cmds.len()
        invariant
            i <= cmds@.len(),
            q@ == upper(search@),
            r@ == matching(cmds@.take(i as int), search@),
        decreases cmds@.len() - i,
    {
        assert(cmds@.take(i + 1).drop_last() =~= cmds@.take(i as int));
        if variant_matches_exec(&cmds[i], q.as_slice()) {
            r.push(i);
        }
        i += 1;
    }
    assert(cmds@.take(cmds@.len() as int) =~= cmds@);
    r
}

// ── Completion rows ──────────────────────────────────────────────────────────

/// A row of the completion popup: a category header, or an entry.
#[derive(Clone, Copy, Debug)]
pub enum CompletionRow {
    Header { category: &'static str, label: &'static str },
    Variant { idx: usize },
}

/// The popup rows for the entries `idx`: each entry, preceded by a header
/// whenever its category differs from the previous entry's (`last`).
pub open spec fn rows_from(cmds: Seq<CommandVariant>, idx: Seq<usize>, last: Seq<char>) -> Seq<CompletionRow>
    decreases idx.len(),
{
    if idx.len() == 0 {
        Seq::empty()
    } else {
        let c = cmds[idx[0] as int];
        let head = if c.category@ != last {
            seq![
                CompletionRow::Header { category: c.category, label: c.category_label },
                CompletionRow::Variant { idx: idx[0] },
            ]
        } else {
            seq![CompletionRow::Variant { idx: idx[0] }]
        };
        head + rows_from(cmds, idx.drop_first(), c.category@)
    }
}

/// Whether two texts are equal.
pub fn chars_eq(a: &[char], b: &[char]) -> (r: bool)
    ensures
        r == (a@ == b@),
{
    if a.len() != b.len() {
        return false;
    }
    let mut i: usize = 0;
    while i < a.len()
        invariant
            a@.len() == b@.len(),
            i <= a@.len(),
            forall|k: int| 0 <= k < i ==> a@[k] == b@[k],
        decreases a@.len() - i,
    {
        if a[i] != b[i] {
            return false;
        }
        i += 1;
    }
    assert(a@ =~= b@);
    true
}

/// A copy of a text.
pub fn copy_chars(a: &[char]) -> (r: Vec<char>)
    ensures
        r@ == a@,
{
    let mut v: Vec<char> = Vec::new();
    let mut i: usize = 0;
    while i < a.len()
        invariant
            i <= a@.len(),
            v@ == a@.take(i as int),
        decreases a@.len() - i,
    {
        v.push(a[i]);
        i += 1;
        assert(v@ =~= a@.take(i as int));
    }
    assert(a@.take(a@.len() as int) =~= a@);
    v
}

// ── The console ──────────────────────────────────────────────────────────────

/// Lines kept in the NMEA log.
pub const MAX_LOG: usize = 500;
/// Commands kept in the history.
pub const MAX_HISTORY: usize = 100;
/// `$PCAS` reply lines kept.
pub const MAX_RESPONSES: usize = 8;
/// How long, in milliseconds, replies to a `$PCAS06` query are captured.
pub const RESPONSE_WINDOW_MS: u64 = 2000;

/// One entry in the NMEA log: the raw text and whether it parsed successfully.
pub struct LogEntry {
    pub raw: String,
    pub valid: bool,
}

/// What the console holds.
pub ghost struct AppModel {
    /// The log: each line's text and whether it parsed.
    pub log: Seq<(Seq<char>, bool)>,
    pub log_paused: bool,
    /// The command line as shown.
    pub input: Seq<char>,
    /// The text the user actually typed; fixed while completions cycle.
    pub search: Seq<char>,
    /// Sent commands, newest first.
    pub history: Seq<Seq<char>>,
    pub history_pos: Option<usize>,
    pub completion: Option<usize>,
    /// Captured `$PCAS` replies.
    pub responses: Seq<Seq<char>>,
    /// Until when (milliseconds) replies are captured.
    pub deadline: Option<u64>,
    pub sat_scroll: usize,
    pub show_help: bool,
    pub confirm_restart: Option<RestartMode>,
    pub status: Option<Seq<char>>,
}

/// The monitor console's state.
pub struct App {
    pub port_name: String,
    pub log: VecDeque<LogEntry>,
    pub log_paused: bool,
    pub cmd_input: Vec<char>,
    /// The text the user actually typed — fixed while Tab cycles completions.
    cmd_search: Vec<char>,
    pub cmd_history: VecDeque<Vec<char>>,
    pub cmd_history_pos: Option<usize>,
    pub completion_idx: Option<usize>,
    /// Most recent $PCAS response lines captured from the module.
    pub response_lines: VecDeque<String>,
    /// Set when a $PCAS06 query is sent; cleared once past.
    response_deadline: Option<u64>,
    pub sat_scroll: usize,
    pub show_help: bool,
    pub confirm_restart: Option<RestartMode>,
    pub status_msg: Option<String>,
    commands: Vec<CommandVariant>,
}

pub open spec fn log_view(e: LogEntry) -> (Seq<char>, bool) {
    (e.raw@, e.valid)
}

pub open spec fn text_view(v: Vec<char>) -> Seq<char> {
    v@
}

pub open spec fn string_view(s: String) -> Seq<char> {
    s@
}

/// The console with nothing typed, logged or captured.
pub open spec fn fresh_console() -> AppModel {
    AppModel {
        log: Seq::empty(),
        log_paused: false,
        input: Seq::empty(),
        search: Seq::empty(),
        history: Seq::empty(),
        history_pos: None,
        completion: None,
        responses: Seq::empty(),
        deadline: None,
        sat_scroll: 0,
        show_help: false,
        confirm_restart: None,
        status: None,
    }
}

impl App {
    pub closed spec fn model(&self) -> AppModel {
        AppModel {
            log: self.log@.map_values(|e: LogEntry| log_view(e)),
            log_paused: self.log_paused,
            input: self.cmd_input@,
            search: self.cmd_search@,
            history: self.cmd_history@.map_values(|v: Vec<char>| text_view(v)),
            history_pos: self.cmd_history_pos,
            completion: self.completion_idx,
            responses: self.response_lines@.map_values(|s: String| string_view(s)),
            deadline: self.response_deadline,
            sat_scroll: self.sat_scroll,
            show_help: self.show_help,
            confirm_restart: self.confirm_restart,
            status: match self.status_msg {
                Some(m) => Some(m@),
                None => None,
            },
        }
    }

    /// The port or file the console is attached to.
    pub closed spec fn port(&self) -> Seq<char> {
        self.port_name@
    }

    /// The command catalogue offered for completion.
    pub closed spec fn catalogue(&self) -> Seq<CommandVariant> {
        self.commands@
    }

    pub fn new(port_name: String) -> (r: Self)
        ensures
            r.model() == fresh_console(),
            r.port() == port_name@,
            r.catalogue() == catalogue(),
            r.catalogue().len() == COMMAND_COUNT,
    {
        let r = App {
            port_name,
            log: VecDeque::new(),
            log_paused: false,
            cmd_input: Vec::new(),
            cmd_search: Vec::new(),
            cmd_history: VecDeque::new(),
            cmd_history_pos: None,
            completion_idx: None,
            response_lines: VecDeque::new(),
            response_deadline: None,
            sat_scroll: 0,
            show_help: false,
            confirm_restart: None,
            status_msg: None,
            commands: command_table(),
        };
        assert(r.model().log =~= Seq::<(Seq<char>, bool)>::empty());
        assert(r.model().history =~= Seq::<Seq<char>>::empty());
        assert(r.model().responses =~= Seq::<Seq<char>>::empty());
        r
    }

    /// The command catalogue offered for completion.
    pub fn commands(&self) -> (r: &[CommandVariant])
        ensures
            r@ == self.catalogue(),
    {
        self.commands.as_slice()
    }

    /// True when the user has typed something and the popup should be shown.
    pub fn should_show_completions(&self) -> (r: bool)
        ensures
            r == (self.model().search.len() > 0),
    {
        self.cmd_search.len() > 0
    }

    /// The catalogue entries matching what the user typed.
    pub fn matching_indices(&self) -> (r: Vec<usize>)
        ensures
            r@ == matching(self.catalogue(), self.model().search),
    {
        matching_in(self.commands.as_slice(), self.cmd_search.as_slice())
    }

    /// The completion popup's rows.
    pub fn completion_rows(&self) -> (r: Vec<CompletionRow>)
        ensures
            r@ == rows_from(self.catalogue(), matching(self.catalogue(), self.model().search), Seq::empty()),
    {
        let indices = self.matching_indices();
        let ghost all = indices@;
        // Reading the length bounds the catalogue by `usize::MAX`.
        let _count = self.commands.len();
        proof {
            lemma_matching_bounds(self.catalogue(), self.model().search);
        }
        let mut rows: Vec<CompletionRow> = Vec::new();
        let mut last: Vec<char> = Vec::new();
        let mut k: usize = 0;
        assert(all.skip(0) =~= all);
        assert(rows@ + rows_from(self.catalogue(), all.skip(0), last@) =~= rows_from(self.catalogue(), all, Seq::empty()));
        while k < indices.len()
            invariant
                all == indices@,
                all == matching(self.catalogue(), self.model().search),
                k <= all.len(),
                forall|j: int| 0 <= j < all.len() ==> (all[j] as int) < self.catalogue().len(),
                rows@ + rows_from(self.catalogue(), all.skip(k as int), last@) == rows_from(
                    self.catalogue(),
                    all,
                    Seq::empty(),
                ),
            decreases all.len() - k,
        {
            let idx = indices[k];
            let cmd = &self.commands[idx];
            let cat = chars_of(cmd.category);
            let ghost before = rows@;
            let ghost prev_last = last@;
            proof {
                assert(all.skip(k as int).drop_first() =~= all.skip(k + 1));
                assert(all.skip(k as int)[0] == idx);
            }
            if !chars_eq(cat.as_slice(), last.as_slice()) {
                rows.push(CompletionRow::Header { category: cmd.category, label: cmd.category_label });
                last = cat;
            }
            rows.push(CompletionRow::Variant { idx });
            proof {
                let c = self.catalogue()[idx as int];
                let head = if c.category@ != prev_last {
                    seq![
                        CompletionRow::Header { category: c.category, label: c.category_label },
                        CompletionRow::Variant { idx },
                    ]
                } else {
                    seq![CompletionRow::Variant { idx }]
                };
                assert(rows@ =~= before + head);
                assert(last@ == c.category@);
                assert(rows_from(self.catalogue(), all.skip(k as int), prev_last) == head + rows_from(
                    self.catalogue(),
                    all.skip(k + 1),
                    c.category@,
                ));
                assert(before + (head + rows_from(self.catalogue(), all.skip(k + 1), c.category@)) =~= (
                before + head) + rows_from(self.catalogue(), all.skip(k + 1), c.category@));
            }
            k += 1;
        }
        rows
    }
}

// ── Editing the command line ─────────────────────────────────────────────────

/// The input cleared: nothing typed, no completion selected.
pub open spec fn cleared(m: AppModel) -> AppModel {
    AppModel { input: Seq::empty(), search: Seq::empty(), completion: None, ..m }
}

/// The first position of `x` in `idx`.
pub open spec fn position_of(idx: Seq<usize>, x: usize) -> Option<int>
    decreases idx.len(),
{
    if idx.len() == 0 {
        None
    } else if idx[0] == x {
        Some(0)
    } else {
        match position_of(idx.drop_first(), x) {
            Some(p) => Some(p + 1),
            None => None,
        }
    }
}

/// The console after stepping `delta` through the matching entries: from no
/// selection, forward starts at the first and backward at the last; from a
/// selection, the step wraps around. The selected command fills the input.
pub open spec fn cycled(m: AppModel, cmds: Seq<CommandVariant>, delta: int) -> AppModel {
    let idx = matching(cmds, m.search);
    if idx.len() == 0 {
        m
    } else {
        let new_pos = match m.completion {
            None => if delta > 0 {
                0
            } else {
                idx.len() - 1
            },
            Some(cur) => {
                let pos = match position_of(idx, cur) {
                    Some(p) => p,
                    None => 0,
                };
                (pos + delta) % (idx.len() as int)
            },
        };
        let sel = idx[new_pos];
        AppModel { completion: Some(sel), input: cmds[sel as int].full_command@, ..m }
    }
}

/// The console after moving `delta` through the history (newest first):
/// up from the input starts at the oldest, moving past either end leaves the
/// history; the recalled command (or nothing) becomes the input.
pub open spec fn navigated(m: AppModel, delta: int) -> AppModel {
    if m.history.len() == 0 {
        m
    } else {
        let new_pos: Option<usize> = match m.history_pos {
            None => if delta < 0 {
                Some((m.history.len() - 1) as usize)
            } else {
                None
            },
            Some(p) => {
                let next = p + delta;
                if next < 0 || next >= m.history.len() {
                    None
                } else {
                    Some(next as usize)
                }
            },
        };
        let text = match new_pos {
            Some(p) => m.history[p as int],
            None => Seq::empty(),
        };
        AppModel { history_pos: new_pos, input: text, search: text, completion: None, ..m }
    }
}

fn position_in(idx: &[usize], x: usize) -> (r: usize)
    ensures
        match position_of(idx@, x) {
            Some(p) => r == p,
            None => r == 0,
        },
{
    let mut i: usize = 0;
    assert(idx@.skip(0) =~= idx@);
    while i < idx.len()
        invariant
            i <= idx@.len(),
            forall|k: int| 0 <= k < i ==> idx@[k] != x,
            position_of(idx@, x) == match position_of(idx@.skip(i as int), x) {
                Some(p) => Some(p + i),
                None => None::<int>,
            },
        decreases idx@.len() - i,
    {
        assert(idx@.skip(i as int).drop_first() =~= idx@.skip(i + 1));
        if idx[i] == x {
            return i;
        }
        i += 1;
    }
    0
}

impl App {
    fn clear_input(&mut self)
        ensures
            final(self).model() == cleared(old(self).model()),
            final(self).catalogue() == old(self).catalogue(),
            final(self).port() == old(self).port(),
    {
        self.cmd_input.clear();
        self.cmd_search.clear();
        self.completion_idx = None;
    }

    fn cycle_completion(&mut self, delta: i32)
        requires
            delta == 1 || delta == -1,
        ensures
            final(self).model() == cycled(old(self).model(), old(self).catalogue(), delta as int),
            final(self).catalogue() == old(self).catalogue(),
            final(self).port() == old(self).port(),
    {
        let indices = self.matching_indices();
        // Reading the length bounds the catalogue by `usize::MAX`.
        let _count = self.commands.len();
        proof {
            lemma_matching_bounds(self.catalogue(), self.model().search);
        }
        let n = indices.len();
        if n == 0 {
            return;
        }
        let new_pos: usize = match self.completion_idx {
            None => if delta > 0 {
                0
            } else {
                n - 1
            },
            Some(cur) => {
                let pos = position_in(indices.as_slice(), cur);
                proof {
                    lemma_position_bound(indices@, cur);
                    if delta == -1 && pos == 0 {
                        vstd::arithmetic::div_mod::lemma_fundamental_div_mod_converse(-1, n as int, -1, n - 1);
                    }
                    if delta == 1 && pos + 1 == n {
                        vstd::arithmetic::div_mod::lemma_fundamental_div_mod_converse(n as int, n as int, 1, 0);
                    }
                    if delta == 1 && pos + 1 < n {
                        vstd::arithmetic::div_mod::lemma_small_mod((pos + 1) as nat, n as nat);
                    }
                    if delta == -1 && pos > 0 {
                        vstd::arithmetic::div_mod::lemma_small_mod((pos - 1) as nat, n as nat);
                    }
                }
                if delta > 0 {
                    if pos + 1 < n {
                        pos + 1
                    } else {
                        0
                    }
                } else {
                    if pos == 0 {
                        n - 1
                    } else {
                        pos - 1
                    }
                }
            },
        };
        let selected = indices[new_pos];
        self.completion_idx = Some(selected);
        self.cmd_input = chars_of(self.commands[selected].full_command);
    }

    fn history_navigate(&mut self, delta: i32)
        ensures
            final(self).model() == navigated(old(self).model(), delta as int),
            final(self).catalogue() == old(self).catalogue(),
            final(self).port() == old(self).port(),
    {
        let len = self.cmd_history.len();
        if len == 0 {
            return;
        }
        let new_pos: Option<usize> = match self.cmd_history_pos {
            None => if delta < 0 {
                Some(len - 1)
            } else {
                None
            },
            Some(p) => {
                let next = p as i128 + delta as i128;
                if next < 0 || next >= len as i128 {
                    None
                } else {
                    Some(next as usize)
                }
            },
        };
        self.cmd_history_pos = new_pos;
        let text = match new_pos {
            Some(p) => copy_chars(self.cmd_history[p].as_slice()),
            None => Vec::new(),
        };
        self.cmd_input = copy_chars(text.as_slice());
        self.cmd_search = text;
        self.completion_idx = None;
    }
}

/// The position found lies in the list.
proof fn lemma_position_bound(idx: Seq<usize>, x: usize)
    ensures
        position_of(idx, x) matches Some(p) ==> 0 <= p < idx.len() && idx[p] == x,
    decreases idx.len(),
{
    if idx.len() > 0 && idx[0] != x {
        lemma_position_bound(idx.drop_first(), x);
    }
}

// ── Submitting a command ─────────────────────────────────────────────────────

/// Characters with the Unicode `White_Space` property, which `str::trim` removes.
pub open spec fn is_white_space(c: char) -> bool {
    ||| '\u{9}' <= c <= '\u{d}'
    ||| c == ' '
    ||| c == '\u{85}'
    ||| c == '\u{a0}'
    ||| c == '\u{1680}'
    ||| '\u{2000}' <= c <= '\u{200a}'
    ||| c == '\u{2028}'
    ||| c == '\u{2029}'
    ||| c == '\u{202f}'
    ||| c == '\u{205f}'
    ||| c == '\u{3000}'
}

pub open spec fn trim_start(s: Seq<char>) -> Seq<char>
    decreases s.len(),
{
    if s.len() > 0 && is_white_space(s[0]) {
        trim_start(s.drop_first())
    } else {
        s
    }
}

pub open spec fn trim_end(s: Seq<char>) -> Seq<char>
    decreases s.len(),
{
    if s.len() > 0 && is_white_space(s.last()) {
        trim_end(s.drop_last())
    } else {
        s
    }
}

/// The text without leading and trailing white space.
pub open spec fn trimmed(s: Seq<char>) -> Seq<char> {
    trim_end(trim_start(s))
}

pub open spec fn starts_with_chars(s: Seq<char>, p: Seq<char>) -> bool {
    p.len() <= s.len() && s.take(p.len() as int) == p
}

/// The line sent for a command: the command with `\r\n` appended unless it
/// already ends with `\n`.
pub open spec fn with_crlf(raw: Seq<char>) -> Seq<char> {
    if raw.len() > 0 && raw.last() == '\n' {
        raw
    } else {
        raw + seq!['\r', '\n']
    }
}

/// The history after sending `raw`: it goes to the front unless it is
/// already there; the oldest entry goes once the history is full.
pub open spec fn remembered(history: Seq<Seq<char>>, raw: Seq<char>) -> Seq<Seq<char>> {
    if history.len() > 0 && history[0] == raw {
        history
    } else {
        seq![raw] + if history.len() >= MAX_HISTORY {
            history.drop_last()
        } else {
            history
        }
    }
}

/// The console after Enter at time `now`, with the line to send: nothing
/// for a blank input; otherwise the trimmed command, remembered in the
/// history, with a `$PCAS06` query opening a fresh reply window.
pub open spec fn submitted(m: AppModel, now: u64) -> (AppModel, Option<Seq<char>>) {
    let raw = trimmed(m.input);
    if raw.len() == 0 {
        (m, None)
    } else {
        let m2 = AppModel { history: remembered(m.history, raw), history_pos: None, ..cleared(m) };
        let m3 = if starts_with_chars(upper(raw), "$PCAS06"@) {
            AppModel { responses: Seq::empty(), deadline: Some((now + RESPONSE_WINDOW_MS) as u64), ..m2 }
        } else {
            m2
        };
        (m3, Some(with_crlf(raw)))
    }
}

pub fn is_white_space_exec(c: char) -> (r: bool)
    ensures
        r == is_white_space(c),
{
    ('\u{9}' <= c && c <= '\u{d}') || c == ' ' || c == '\u{85}' || c == '\u{a0}' || c == '\u{1680}'
        || ('\u{2000}' <= c && c <= '\u{200a}') || c == '\u{2028}' || c == '\u{2029}' || c == '\u{202f}'
        || c == '\u{205f}' || c == '\u{3000}'
}

/// The text without leading and trailing white space.
pub fn trim_chars(s: &[char]) -> (r: Vec<char>)
    ensures
        r@ == trimmed(s@),
{
    let n = s.len();
    let mut a: usize = 0;
    assert(s@.skip(0) =~= s@);
    while a < n && is_white_space_exec(s[a])
        invariant
            n == s@.len(),
            a <= n,
            trim_start(s@) == trim_start(s@.skip(a as int)),
        decreases n - a,
    {
        assert(s@.skip(a as int).drop_first() =~= s@.skip(a + 1));
        a += 1;
    }
    let ghost t = s@.skip(a as int);
    assert(trim_start(t) == t);
    let mut b: usize = n;
    assert(t.take((b - a) as int) =~= t);
    while b > a && is_white_space_exec(s[b - 1])
        invariant
            n == s@.len(),
            a <= b <= n,
            t == s@.skip(a as int),
            trim_end(t) == trim_end(t.take((b - a) as int)),
        decreases b,
    {
        assert(t.take((b - a) as int).drop_last() =~= t.take(b - 1 - a));
        b -= 1;
    }
    let ghost u = t.take((b - a) as int);
    assert(trim_end(u) == u);
    let r = copy_chars(&s[a..b]);
    assert(r@ =~= u);
    r
}

fn starts_with_exec(s: &[char], p: &[char]) -> (r: bool)
    ensures
        r == starts_with_chars(s@, p@),
{
    if p.len() > s.len() {
        return false;
    }
    let head = copy_chars(&s[0..p.len()]);
    assert(head@ =~= s@.take(p@.len() as int));
    chars_eq(head.as_slice(), p)
}

impl App {
    fn submit_command(&mut self, now: u64) -> (r: Option<Vec<char>>)
        requires
            sends_query(old(self).model()) ==> now <= u64::MAX - RESPONSE_WINDOW_MS,
        ensures
            (final(self).model(), r.deep_view()) == submitted(old(self).model(), now),
            final(self).catalogue() == old(self).catalogue(),
            final(self).port() == old(self).port(),
    {
        let raw = trim_chars(self.cmd_input.as_slice());
        if raw.len() == 0 {
            return None;
        }
        let ghost m0 = self.model();
        let len = self.cmd_history.len();
        let fresh = if len == 0 {
            true
        } else {
            !chars_eq(self.cmd_history[0].as_slice(), raw.as_slice())
        };
        if fresh {
            if len >= MAX_HISTORY {
                self.cmd_history.pop_back();
            }
            self.cmd_history.push_front(copy_chars(raw.as_slice()));
        }
        proof {
            let h = m0.history;
            let hv = self.cmd_history@.map_values(|v: Vec<char>| text_view(v));
            assert(hv =~= remembered(h, raw@));
        }
        self.cmd_history_pos = None;
        self.clear_input();
        let upper_raw = upper_chars(raw.as_slice());
        let tag = chars_of("$PCAS06");
        if starts_with_exec(upper_raw.as_slice(), tag.as_slice()) {
            self.response_lines.clear();
            self.response_deadline = Some(now + RESPONSE_WINDOW_MS);
            assert(self.model().responses =~= Seq::<Seq<char>>::empty());
        }
        let mut bytes = raw;
        let n = bytes.len();
        if bytes[n - 1] != '\n' {
            bytes.push('\r');
            bytes.push('\n');
        }
        proof {
            assert(bytes.deep_view() =~= bytes@);
        }
        Some(bytes)
    }
}

// ── Receiving lines ──────────────────────────────────────────────────────────

/// `q` with `x` appended, dropping the oldest entry once `cap` are held.
pub open spec fn bounded_push<T>(q: Seq<T>, x: T, cap: nat) -> Seq<T> {
    if q.len() >= cap {
        q.drop_first().push(x)
    } else {
        q.push(x)
    }
}

/// A line that answers a query: it starts with `$PCAS` or `$GPTXT`.
pub open spec fn is_reply(raw: Seq<char>) -> bool {
    starts_with_chars(raw, "$PCAS"@) || starts_with_chars(raw, "$GPTXT"@)
}

/// The console after one received line: a reply is captured while the reply
/// window is open, and the line is logged unless the log is paused.
pub open spec fn with_line(m: AppModel, raw: Seq<char>, valid: bool) -> AppModel {
    let m1 = if m.deadline is Some && is_reply(raw) {
        AppModel { responses: bounded_push(m.responses, raw, MAX_RESPONSES as nat), ..m }
    } else {
        m
    };
    if !m1.log_paused {
        AppModel { log: bounded_push(m1.log, (raw, valid), MAX_LOG as nat), ..m1 }
    } else {
        m1
    }
}

/// The console after the received lines, in order.
pub open spec fn with_lines(m: AppModel, lines: Seq<(Seq<char>, bool)>) -> AppModel
    decreases lines.len(),
{
    if lines.len() == 0 {
        m
    } else {
        with_line(with_lines(m, lines.drop_last()), lines.last().0, lines.last().1)
    }
}

/// The reply window closes once `now` is past its deadline.
pub open spec fn expired(m: AppModel, now: u64) -> AppModel {
    match m.deadline {
        Some(d) => if now > d {
            AppModel { deadline: None, ..m }
        } else {
            m
        },
        None => m,
    }
}

pub open spec fn line_view(l: SentenceLine) -> (Seq<char>, bool) {
    (l.raw@, l.parsed is Ok)
}

impl App {
    /// Take in the lines received since the last tick, at time `now`.
    pub fn tick(&mut self, now: u64, lines: &[SentenceLine])
        ensures
            final(self).model() == with_lines(
                expired(old(self).model(), now),
                lines@.map_values(|l: SentenceLine| line_view(l)),
            ),
            final(self).catalogue() == old(self).catalogue(),
            final(self).port() == old(self).port(),
    {
        match self.response_deadline {
            Some(d) => if now > d {
                self.response_deadline = None;
            },
            None => {},
        }
        let ghost start = self.model();
        let ghost views = lines@.map_values(|l: SentenceLine| line_view(l));
        let pcas = chars_of("$PCAS");
        let gptxt = chars_of("$GPTXT");
        let mut i: usize = 0;
        assert(views.take(0) =~= Seq::<(Seq<char>, bool)>::empty());
        while i < lines.len()
            invariant
                i <= lines@.len(),
                views == lines@.map_values(|l: SentenceLine| line_view(l)),
                pcas@ == "$PCAS"@,
                gptxt@ == "$GPTXT"@,
                self.model() == with_lines(start, views.take(i as int)),
                self.catalogue() == old(self).catalogue(),
                self.port() == old(self).port(),
            decreases lines@.len() - i,
        {
            let line = &lines[i];
            let ghost m = self.model();
            proof {
                assert(views.take(i + 1).drop_last() =~= views.take(i as int));
                assert(views.take(i + 1).last() == line_view(*line));
            }
            let text = chars_of(line.raw.as_str());
            if self.response_deadline.is_some() && (starts_with_exec(text.as_slice(), pcas.as_slice())
                || starts_with_exec(text.as_slice(), gptxt.as_slice())) {
                if self.response_lines.len() >= MAX_RESPONSES {
                    self.response_lines.pop_front();
                }
                self.response_lines.push_back(line.raw.clone());
                proof {
                    assert(self.model().responses =~= bounded_push(m.responses, line.raw@, MAX_RESPONSES as nat));
                }
            }
            let ghost m1 = self.model();
            if !self.log_paused {
                if self.log.len() >= MAX_LOG {
                    self.log.pop_front();
                }
                self.log.push_back(LogEntry { raw: line.raw.clone(), valid: line.is_valid() });
                proof {
                    assert(self.model().log =~= bounded_push(m1.log, (line.raw@, line.parsed is Ok), MAX_LOG as nat));
                }
            }
            proof {
                assert(self.model() == with_line(m, line.raw@, line.parsed is Ok));
            }
            i += 1;
        }
        assert(views.take(lines@.len() as int) =~= views);
    }
}

// ── Keys ─────────────────────────────────────────────────────────────────────

/// The keys the console tells apart.
#[derive(Clone, Copy, Debug, PartialEq, Eq, Structural)]
pub enum KeyCode {
    Char(char),
    F(u8),
    Enter,
    Tab,
    BackTab,
    Backspace,
    Esc,
    Up,
    Down,
    PageUp,
    PageDown,
    Other,
}

/// A key press; `control` is set when Control, and no other modifier, is held.
#[derive(Clone, Copy, Debug, PartialEq, Eq, Structural)]
pub struct KeyEvent {
    pub code: KeyCode,
    pub control: bool,
}

/// What the caller does after a key: quit, send a command to the module, or
/// nothing.
#[derive(Debug)]
pub enum KeyAction {
    Continue,
    Quit,
    SaveConfig,
    Restart(RestartMode),
    /// Send this line as typed (the caller encodes it as UTF-8).
    Send(Vec<char>),
}

pub ghost enum Outcome {
    Continue,
    Quit,
    SaveConfig,
    Restart(RestartMode),
    Send(Seq<char>),
}

impl KeyAction {
    pub open spec fn outcome(&self) -> Outcome {
        match self {
            KeyAction::Continue => Outcome::Continue,
            KeyAction::Quit => Outcome::Quit,
            KeyAction::SaveConfig => Outcome::SaveConfig,
            KeyAction::Restart(m) => Outcome::Restart(*m),
            KeyAction::Send(v) => Outcome::Send(v@),
        }
    }
}

/// Keys that reach the command line (no overlay open, a writable session).
pub open spec fn edit_step(m: AppModel, cmds: Seq<CommandVariant>, code: KeyCode, now: u64) -> (AppModel, Outcome) {
    match code {
        KeyCode::Enter => {
            let (m2, line) = submitted(m, now);
            match line {
                Some(l) => (m2, Outcome::Send(l)),
                None => (m2, Outcome::Continue),
            }
        },
        KeyCode::Tab => (cycled(m, cmds, 1), Outcome::Continue),
        KeyCode::BackTab => (cycled(m, cmds, -1), Outcome::Continue),
        KeyCode::Char(c) => (
            AppModel { input: m.input.push(c), search: m.search.push(c), completion: None, ..m },
            Outcome::Continue,
        ),
        KeyCode::Backspace => {
            let input = if m.input.len() > 0 {
                m.input.drop_last()
            } else {
                m.input
            };
            (AppModel { input, search: input, completion: None, ..m }, Outcome::Continue)
        },
        KeyCode::Up => (navigated(m, -1), Outcome::Continue),
        KeyCode::Down => (navigated(m, 1), Outcome::Continue),
        _ => (m, Outcome::Continue),
    }
}

/// A key pressed while the restart confirmation is open: `y`/`Y` confirms,
/// any other key cancels.
pub open spec fn confirm_step(m: AppModel, mode: RestartMode, code: KeyCode) -> (AppModel, Outcome) {
    if code == KeyCode::Char('y') || code == KeyCode::Char('Y') {
        (AppModel { confirm_restart: None, status: Some("Restart command sent"@), ..m }, Outcome::Restart(mode))
    } else {
        (AppModel { confirm_restart: None, ..m }, Outcome::Continue)
    }
}

/// Whether submitting the command line opens the reply window (a `$PCAS06`
/// query, in any letter case).
pub open spec fn sends_query(m: AppModel) -> bool {
    let raw = trimmed(m.input);
    raw.len() > 0 && starts_with_chars(upper(raw), "$PCAS06"@)
}

/// The console after a key press, with what the caller does next. Control+C
/// quits; while the restart confirmation is open it takes every other key;
/// then come the function keys, Esc and paging; the rest edits the command
/// line unless the session is read-only.
pub open spec fn key_step(
    m: AppModel,
    cmds: Seq<CommandVariant>,
    key: KeyEvent,
    readonly: bool,
    now: u64,
) -> (AppModel, Outcome) {
    if key.code == KeyCode::Char('c') && key.control {
        (m, Outcome::Quit)
    } else if let Some(mode) = m.confirm_restart {
        confirm_step(m, mode, key.code)
    } else {
        match key.code {
            KeyCode::F(1) => (AppModel { show_help: !m.show_help, ..m }, Outcome::Continue),
            KeyCode::F(2) | KeyCode::F(5) => (AppModel { log_paused: !m.log_paused, ..m }, Outcome::Continue),
            KeyCode::F(3) if !readonly => (m, Outcome::SaveConfig),
            KeyCode::F(4) if !readonly => (
                AppModel { confirm_restart: Some(RestartMode::Cold), ..m },
                Outcome::Continue,
            ),
            KeyCode::F(6) => (AppModel { log: Seq::empty(), ..m }, Outcome::Continue),
            KeyCode::Esc => {
                let m2 = if m.show_help {
                    AppModel { show_help: false, ..m }
                } else {
                    cleared(m)
                };
                (m2, Outcome::Continue)
            },
            KeyCode::PageUp => (
                AppModel { sat_scroll: if m.sat_scroll >= 5 { (m.sat_scroll - 5) as usize } else { 0 }, ..m },
                Outcome::Continue,
            ),
            KeyCode::PageDown => (AppModel { sat_scroll: (m.sat_scroll + 5) as usize, ..m }, Outcome::Continue),
            _ => if readonly {
                (m, Outcome::Continue)
            } else {
                edit_step(m, cmds, key.code, now)
            },
        }
    }
}

impl App {
    /// Whether submitting the command line now would open the reply window.
    pub fn opens_reply_window(&self) -> (r: bool)
        ensures
            r == sends_query(self.model()),
    {
        let raw = trim_chars(self.cmd_input.as_slice());
        if raw.len() == 0 {
            return false;
        }
        let upper_raw = upper_chars(raw.as_slice());
        let tag = chars_of("$PCAS06");
        starts_with_exec(upper_raw.as_slice(), tag.as_slice())
    }
}

impl App {
    /// Handle one key press at time `now`; `readonly` tells whether the
    /// session takes commands.
    pub fn handle_key(&mut self, key: KeyEvent, readonly: bool, now: u64) -> (r: KeyAction)
        requires
            key.code == KeyCode::PageDown && old(self).model().confirm_restart is None
                ==> old(self).model().sat_scroll + 5 <= usize::MAX,
            key.code == KeyCode::Enter && old(self).model().confirm_restart is None && !readonly && sends_query(
                old(self).model(),
            ) ==> now <= u64::MAX - RESPONSE_WINDOW_MS,
        ensures
            (final(self).model(), r.outcome()) == key_step(old(self).model(), old(self).catalogue(), key, readonly, now),
            final(self).catalogue() == old(self).catalogue(),
            final(self).port() == old(self).port(),
    {
        if key.code == KeyCode::Char('c') && key.control {
            return KeyAction::Quit;
        }
        if let Some(mode) = self.confirm_restart {
            self.confirm_restart = None;
            if key.code == KeyCode::Char('y') || key.code == KeyCode::Char('Y') {
                self.status_msg = Some(String::from_str("Restart command sent"));
                return KeyAction::Restart(mode);
            }
            return KeyAction::Continue;
        }
        match key.code {
            KeyCode::F(1) => {
                self.show_help = !self.show_help;
                return KeyAction::Continue;
            },
            KeyCode::F(2) | KeyCode::F(5) => {
                self.log_paused = !self.log_paused;
                return KeyAction::Continue;
            },
            KeyCode::F(3) if !readonly => {
                return KeyAction::SaveConfig;
            },
            KeyCode::F(4) if !readonly => {
                self.confirm_restart = Some(RestartMode::Cold);
                return KeyAction::Continue;
            },
            KeyCode::F(6) => {
                self.log.clear();
                assert(self.model().log =~= Seq::<(Seq<char>, bool)>::empty());
                return KeyAction::Continue;
            },
            KeyCode::Esc => {
                if self.show_help {
                    self.show_help = false;
                } else {
                    self.clear_input();
                }
                return KeyAction::Continue;
            },
            KeyCode::PageUp => {
                self.sat_scroll = if self.sat_scroll >= 5 {
                    self.sat_scroll - 5
                } else {
                    0
                };
                return KeyAction::Continue;
            },
            KeyCode::PageDown => {
                self.sat_scroll = self.sat_scroll + 5;
                return KeyAction::Continue;
            },
            _ => {},
        }
        if readonly {
            return KeyAction::Continue;
        }
        match key.code {
            KeyCode::Enter => match self.submit_command(now) {
                Some(line) => {
                    assert(line.deep_view() =~= line@);
                    KeyAction::Send(line)
                },
                None => KeyAction::Continue,
            },
            KeyCode::Tab => {
                self.cycle_completion(1);
                KeyAction::Continue
            },
            KeyCode::BackTab => {
                self.cycle_completion(-1);
                KeyAction::Continue
            },
            KeyCode::Char(c) => {
                self.cmd_input.push(c);
                self.cmd_search.push(c);
                self.completion_idx = None;
                KeyAction::Continue
            },
            KeyCode::Backspace => {
                let ghost before = self.cmd_input@;
                self.cmd_input.pop();
                assert(before.len() > 0 ==> self.cmd_input@ =~= before.drop_last());
                self.cmd_search = copy_chars(self.cmd_input.as_slice());
                self.completion_idx = None;
                KeyAction::Continue
            },
            KeyCode::Up => {
                self.history_navigate(-1);
                KeyAction::Continue
            },
            KeyCode::Down => {
                self.history_navigate(1);
                KeyAction::Continue
            },
            _ => KeyAction::Continue,
        }
    }
}

// ── The hint under the command line ──────────────────────────────────────────

/// What the line under the command input shows.
#[derive(Clone, Copy, Debug, PartialEq, Eq, Structural)]
pub enum InputHint {
    /// The status message.
    Status,
    /// The typing prompt, for an empty input.
    Prompt,
    /// The category label of entry `idx`, the only match.
    Category(usize),
    /// The description of the selected entry `idx`.
    Selected(usize),
    /// How many entries match.
    Matches(usize),
}

/// The hint: the status message if any, the prompt for an empty input, the
/// category of a single match, the description of the selected entry, or
/// the number of matches.
pub open spec fn hint_of(m: AppModel, cmds: Seq<CommandVariant>) -> InputHint {
    let idx = matching(cmds, m.search);
    if m.status is Some {
        InputHint::Status
    } else if m.input.len() == 0 {
        InputHint::Prompt
    } else if idx.len() == 1 {
        InputHint::Category(idx[0])
    } else if m.completion matches Some(i) && cmds[i as int].description@.len() > 0 {
        InputHint::Selected(m.completion->0)
    } else {
        InputHint::Matches(idx.len() as usize)
    }
}

impl App {
    pub fn input_hint(&self) -> (r: InputHint)
        requires
            self.model().completion matches Some(i) ==> (i as int) < self.catalogue().len(),
        ensures
            r == hint_of(self.model(), self.catalogue()),
    {
        if self.status_msg.is_some() {
            return InputHint::Status;
        }
        if self.cmd_input.len() == 0 {
            return InputHint::Prompt;
        }
        let indices = self.matching_indices();
        if indices.len() == 1 {
            return InputHint::Category(indices[0]);
        }
        match self.completion_idx {
            Some(i) => {
                let desc = chars_of(self.commands[i].description);
                if desc.len() > 0 {
                    return InputHint::Selected(i);
                }
            },
            None => {},
        }
        InputHint::Matches(indices.len())
    }
}

// ── Laws ─────────────────────────────────────────────────────────────────────

/// The log keeps at most 500 lines and the reply capture at most 8; when the
/// log is running, the newest line received is the newest logged.
pub proof fn lemma_log_capped(m: AppModel, lines: Seq<(Seq<char>, bool)>)
    requires
        m.log.len() <= MAX_LOG,
        m.responses.len() <= MAX_RESPONSES,
    ensures
        with_lines(m, lines).log.len() <= MAX_LOG,
        with_lines(m, lines).responses.len() <= MAX_RESPONSES,
        with_lines(m, lines).log_paused == m.log_paused,
        lines.len() > 0 && !m.log_paused ==> with_lines(m, lines).log.last() == lines.last(),
    decreases lines.len(),
{
    if lines.len() > 0 {
        lemma_log_capped(m, lines.drop_last());
    }
}

/// The last `cap` items of `s` (all of them when there are fewer).
pub open spec fn newest<T>(s: Seq<T>, cap: nat) -> Seq<T> {
    if s.len() > cap {
        s.skip(s.len() - cap)
    } else {
        s
    }
}

/// While the log runs, it holds the newest 500 of the lines it held and the
/// lines received, in order; while it is paused, it is left as it was.
pub proof fn lemma_log_keeps_newest(m: AppModel, lines: Seq<(Seq<char>, bool)>)
    requires
        m.log.len() <= MAX_LOG,
    ensures
        !m.log_paused ==> with_lines(m, lines).log == newest(m.log + lines, MAX_LOG as nat),
        m.log_paused ==> with_lines(m, lines).log == m.log,
        with_lines(m, lines).log_paused == m.log_paused,
    decreases lines.len(),
{
    if lines.len() > 0 {
        let init = lines.drop_last();
        let x = lines.last();
        lemma_log_keeps_newest(m, init);
        let all = m.log + init;
        let all2 = m.log + lines;
        assert(all2 =~= all.push(x));
        if !m.log_paused {
            let prev = with_lines(m, init).log;
            if all.len() > MAX_LOG {
                assert(prev.len() == MAX_LOG);
                assert(prev.drop_first().push(x) =~= all2.skip(all2.len() - MAX_LOG));
            } else if all.len() == MAX_LOG {
                assert(prev =~= all);
                assert(prev.drop_first().push(x) =~= all2.skip(all2.len() - MAX_LOG));
            } else {
                assert(prev =~= all);
            }
        }
    } else {
        assert(m.log + lines =~= m.log);
    }
}

/// The history keeps at most 100 commands. A non-blank command goes to the
/// front of the history, trimmed, the input is cleared, and the line sent
/// is the command followed by `\r\n`.
pub proof fn lemma_submit(m: AppModel, now: u64)
    requires
        m.history.len() <= MAX_HISTORY,
    ensures
        submitted(m, now).0.history.len() <= MAX_HISTORY,
        trimmed(m.input).len() == 0 <==> submitted(m, now).1 is None,
        trimmed(m.input).len() > 0 ==> {
            let (m2, line) = submitted(m, now);
            &&& m2.history[0] == trimmed(m.input)
            &&& m2.input.len() == 0
            &&& m2.history_pos is None
            &&& line == Some(trimmed(m.input) + seq!['\r', '\n'])
        },
{
    let raw = trimmed(m.input);
    if raw.len() > 0 {
        lemma_trimmed_ends(m.input);
    }
}

/// A trimmed text does not end in white space.
pub proof fn lemma_trimmed_ends(s: Seq<char>)
    ensures
        trimmed(s).len() > 0 ==> !is_white_space(trimmed(s).last()),
{
    lemma_trim_end_last(trim_start(s));
}

proof fn lemma_trim_end_last(s: Seq<char>)
    ensures
        trim_end(s).len() > 0 ==> !is_white_space(trim_end(s).last()),
    decreases s.len(),
{
    if s.len() > 0 && is_white_space(s.last()) {
        lemma_trim_end_last(s.drop_last());
    }
}

/// Tab and Shift+Tab only ever select a matching entry, whose command then
/// fills the input; with no match nothing changes.
pub proof fn lemma_cycle_selects_match(m: AppModel, cmds: Seq<CommandVariant>, delta: int)
    requires
        delta == 1 || delta == -1,
        cmds.len() <= usize::MAX,
    ensures
        matching(cmds, m.search).len() == 0 ==> cycled(m, cmds, delta) == m,
        matching(cmds, m.search).len() > 0 ==> {
            let c = cycled(m, cmds, delta);
            &&& c.completion matches Some(sel) && matching(cmds, m.search).contains(sel) && (sel as int)
                < cmds.len() && variant_matches(cmds[sel as int], m.search) && c.input == cmds[sel as int].full_command@
            &&& c.search == m.search
        },
{
    let idx = matching(cmds, m.search);
    lemma_matching_bounds(cmds, m.search);
    lemma_matching_sound(cmds, m.search);
    if idx.len() > 0 {
        let c = cycled(m, cmds, delta);
        let new_pos = match m.completion {
            None => if delta > 0 {
                0
            } else {
                idx.len() - 1
            },
            Some(cur) => {
                let pos = match position_of(idx, cur) {
                    Some(p) => p,
                    None => 0,
                };
                (pos + delta) % (idx.len() as int)
            },
        };
        assert(0 <= new_pos < idx.len());
        assert(idx.contains(idx[new_pos]));
    }
}

/// Every index `matching` returns is of a matching entry.
pub proof fn lemma_matching_sound(cmds: Seq<CommandVariant>, search: Seq<char>)
    requires
        cmds.len() <= usize::MAX,
    ensures
        forall|j: int| 0 <= j < matching(cmds, search).len() ==> variant_matches(
            cmds[#[trigger] matching(cmds, search)[j] as int],
            search,
        ),
    decreases cmds.len(),
{
    if cmds.len() > 0 {
        let prev = cmds.drop_last();
        lemma_matching_sound(prev, search);
        lemma_matching_bounds(prev, search);
        let r = matching(prev, search);
        assert forall|j: int| 0 <= j < matching(cmds, search).len() implies variant_matches(
            cmds[#[trigger] matching(cmds, search)[j] as int],
            search,
        ) by {
            if j < r.len() {
                assert(matching(cmds, search)[j] == r[j]);
                assert(cmds[r[j] as int] == prev[r[j] as int]);
                assert(variant_matches(prev[r[j] as int], search));
            } else {
                assert(variant_matches(cmds.last(), search));
                assert(matching(cmds, search)[j] == (cmds.len() - 1) as usize);
            }
        }
    }
}

} // verus!
