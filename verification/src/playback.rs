//! Replaying a captured NMEA log: the position in the log, seeking, and the
//! lines read after a seek.
use vstd::prelude::*;

verus! {

/// Lines skipped per coarse seek step: roughly 5 seconds at 1 Hz (~12 lines/s).
pub const SEEK_LINES: i64 = 60;

/// Lines skipped per fine step: roughly one NMEA measurement cycle (~1 second).
pub const CYCLE_LINES: i64 = 12;

/// The seek distance, in lines, of `steps` coarse steps.
pub fn seek_lines(steps: i64) -> (r: i64)
    requires
        i64::MIN <= steps * SEEK_LINES <= i64::MAX,
    ensures
        r == steps * SEEK_LINES,
{
    steps * SEEK_LINES
}

/// The seek distance, in lines, of `cycles` fine steps.
pub fn step_lines(cycles: i64) -> (r: i64)
    requires
        i64::MIN <= cycles * CYCLE_LINES <= i64::MAX,
    ensures
        r == cycles * CYCLE_LINES,
{
    cycles * CYCLE_LINES
}

/// The position after seeking `delta` lines from `pos` in a log of `total`
/// lines: clamped at the start, and wrapping past the end.
pub open spec fn seek_target(pos: int, delta: int, total: int) -> int {
    let p = pos + delta;
    (if p < 0 { 0 } else { p }) % total
}

/// The replay position in a non-empty log of `total` lines.
pub struct Playback {
    pos: usize,
    total: usize,
}

impl Playback {
    pub closed spec fn position(&self) -> int {
        self.pos as int
    }

    pub closed spec fn length(&self) -> int {
        self.total as int
    }

    /// The position lies in the log.
    pub closed spec fn wf(&self) -> bool {
        0 <= self.pos < self.total <= i64::MAX
    }

    /// The start of a log of `total` lines; none for an empty log.
    pub fn new(total: usize) -> (r: Option<Playback>)
        requires
            total <= i64::MAX,
        ensures
            r is None <==> total == 0,
            r matches Some(p) ==> p.wf() && p.position() == 0 && p.length() == total,
    {
        if total == 0 {
            None
        } else {
            Some(Playback { pos: 0, total })
        }
    }

    /// The current line.
    pub fn current(&self) -> (r: usize)
        ensures
            r == self.position(),
    {
        self.pos
    }

    /// Seek by `delta` lines; returns the lines to read at once so the
    /// state reflects the destination: one measurement cycle from there.
    pub fn seek(&mut self, delta: i64) -> (r: Vec<usize>)
        requires
            old(self).wf(),
            old(self).position() + delta <= i64::MAX,
        ensures
            final(self).wf(),
            final(self).length() == old(self).length(),
            final(self).position() == seek_target(old(self).position(), delta as int, old(self).length()),
            r@.len() == CYCLE_LINES,
            forall|i: int| 0 <= i < r@.len() ==> r@[i] == (final(self).position() + i) % final(self).length(),
    {
        let p = self.pos as i64 + delta;
        let clamped: i64 = if p < 0 { 0 } else { p };
        self.pos = (clamped % (self.total as i64)) as usize;
        let mut lines: Vec<usize> = Vec::new();
        let mut i: usize = 0;
        while i < 12
            invariant
                self.wf(),
                i <= 12,
                lines@.len() == i,
                forall|j: int| 0 <= j < i ==> lines@[j] == (self.pos + j) % (self.total as int),
            decreases 12 - i,
        {
            let k = ((self.pos as u128 + i as u128) % (self.total as u128)) as usize;
            lines.push(k);
            i += 1;
        }
        lines
    }

    /// The line to emit now; moves on to the next, wrapping at the end.
    pub fn advance(&mut self) -> (r: usize)
        requires
            old(self).wf(),
        ensures
            final(self).wf(),
            final(self).length() == old(self).length(),
            r == old(self).position(),
            final(self).position() == (old(self).position() + 1) % old(self).length(),
    {
        let r = self.pos;
        self.pos = (self.pos + 1) % self.total;
        r
    }
}

} // verus!
