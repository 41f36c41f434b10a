//! Typed `$PCAS` command parameters and the builders that write complete,
//! checksummed command lines into a caller's buffer.
pub mod builder;
pub mod sink;
pub mod systems;

use vstd::prelude::*;
use core::ops::{BitAnd, BitAndAssign, BitOr, BitOrAssign, Not};
use vstd::std_specs::convert::TryFromSpecImpl;
use vstd::std_specs::ops::{BitAndSpecImpl, BitOrSpecImpl, NotSpecImpl};
pub use builder::{
    cmd_query_info, cmd_restart, cmd_save_config, cmd_set_baud, cmd_set_nmea_output,
    cmd_set_nmea_version, cmd_set_systems, cmd_set_update_rate,
};
pub use sink::CommandSink;

verus! {

// ── Baud rate ────────────────────────────────────────────────────────────────

#[derive(Clone, Copy, Debug, PartialEq, Eq, Structural)]
pub enum BaudRate {
    B4800,
    B9600,
    B19200,
    B38400,
    B57600,
    B115200,
}

impl Default for BaudRate {
    fn default() -> (r: Self)
        ensures
            r == BaudRate::B115200,
    {
        BaudRate::B115200
    }
}

/// All supported rates, slowest first.
pub open spec fn baud_rates() -> Seq<BaudRate> {
    seq![
        BaudRate::B4800,
        BaudRate::B9600,
        BaudRate::B19200,
        BaudRate::B38400,
        BaudRate::B57600,
        BaudRate::B115200,
    ]
}

impl BaudRate {
    pub open spec fn spec_param(self) -> u8 {
        match self {
            BaudRate::B4800 => 0,
            BaudRate::B9600 => 1,
            BaudRate::B19200 => 2,
            BaudRate::B38400 => 3,
            BaudRate::B57600 => 4,
            BaudRate::B115200 => 5,
        }
    }

    pub open spec fn spec_bps(self) -> u32 {
        match self {
            BaudRate::B4800 => 4800,
            BaudRate::B9600 => 9600,
            BaudRate::B19200 => 19200,
            BaudRate::B38400 => 38400,
            BaudRate::B57600 => 57600,
            BaudRate::B115200 => 115200,
        }
    }

    pub open spec fn spec_from_bps(bps: u32) -> Option<BaudRate> {
        if bps == 4800 {
            Some(BaudRate::B4800)
        } else if bps == 9600 {
            Some(BaudRate::B9600)
        } else if bps == 19200 {
            Some(BaudRate::B19200)
        } else if bps == 38400 {
            Some(BaudRate::B38400)
        } else if bps == 57600 {
            Some(BaudRate::B57600)
        } else if bps == 115200 {
            Some(BaudRate::B115200)
        } else {
            None
        }
    }

    /// The `$PCAS01` parameter for this rate.
    #[verifier::when_used_as_spec(spec_param)]
    pub fn param(self) -> (r: u8)
        ensures
            r == self.spec_param(),
    {
        match self {
            Self::B4800 => 0,
            Self::B9600 => 1,
            Self::B19200 => 2,
            Self::B38400 => 3,
            Self::B57600 => 4,
            Self::B115200 => 5,
        }
    }

    #[verifier::when_used_as_spec(spec_bps)]
    pub fn bps(self) -> (r: u32)
        ensures
            r == self.spec_bps(),
    {
        match self {
            Self::B4800 => 4800,
            Self::B9600 => 9600,
            Self::B19200 => 19200,
            Self::B38400 => 38400,
            Self::B57600 => 57600,
            Self::B115200 => 115200,
        }
    }

    pub fn from_bps(bps: u32) -> (r: Option<Self>)
        ensures
            r == Self::spec_from_bps(bps),
    {
        match bps {
            4800 => Some(Self::B4800),
            9600 => Some(Self::B9600),
            19200 => Some(Self::B19200),
            38400 => Some(Self::B38400),
            57600 => Some(Self::B57600),
            115200 => Some(Self::B115200),
            _ => None,
        }
    }

    /// Round `bps` to the nearest supported baud rate (the slower one on a tie).
    pub fn nearest(bps: u32) -> (r: Self)
        ensures
            forall|k: int|
                0 <= k < baud_rates().len() ==> abs_diff(r.spec_bps(), bps) <= abs_diff(
                    #[trigger] baud_rates()[k].spec_bps(),
                    bps,
                ),
            forall|k: int|
                0 <= k < baud_rates().len() && abs_diff(baud_rates()[k].spec_bps(), bps)
                    == abs_diff(r.spec_bps(), bps) ==> r.spec_bps() <= #[trigger] baud_rates()[k].spec_bps(),
    {
        let rates = [Self::B4800, Self::B9600, Self::B19200, Self::B38400, Self::B57600, Self::B115200];
        assert(rates@ == baud_rates());
        let mut best = Self::B4800;
        let mut best_d = abs_diff_u32(Self::B4800.bps(), bps);
        let mut i: usize = 1;
        while i < 6
            invariant
                1 <= i <= 6,
                rates@ == baud_rates(),
                best_d == abs_diff(best.spec_bps(), bps),
                forall|k: int| 0 <= k < i ==> best_d <= abs_diff(#[trigger] baud_rates()[k].spec_bps(), bps),
                forall|k: int|
                    0 <= k < i && abs_diff(baud_rates()[k].spec_bps(), bps) == best_d ==> best.spec_bps()
                        <= #[trigger] baud_rates()[k].spec_bps(),
                exists|k: int| 0 <= k < i && baud_rates()[k] == best,
            decreases 6 - i,
        {
            let d = abs_diff_u32(rates[i].bps(), bps);
            if d < best_d {
                best = rates[i];
                best_d = d;
            }
            i += 1;
        }
        best
    }

    /// Human-readable form, `"<bps> bps"`.
    pub fn to_string(self) -> (s: String)
        ensures
            s@ == self.spec_label(),
    {
        match self {
            Self::B4800 => String::from_str("4800 bps"),
            Self::B9600 => String::from_str("9600 bps"),
            Self::B19200 => String::from_str("19200 bps"),
            Self::B38400 => String::from_str("38400 bps"),
            Self::B57600 => String::from_str("57600 bps"),
            Self::B115200 => String::from_str("115200 bps"),
        }
    }

    pub open spec fn spec_label(self) -> Seq<char> {
        match self {
            BaudRate::B4800 => "4800 bps"@,
            BaudRate::B9600 => "9600 bps"@,
            BaudRate::B19200 => "19200 bps"@,
            BaudRate::B38400 => "38400 bps"@,
            BaudRate::B57600 => "57600 bps"@,
            BaudRate::B115200 => "115200 bps"@,
        }
    }
}

pub open spec fn abs_diff(a: u32, b: u32) -> u32 {
    if a >= b {
        (a - b) as u32
    } else {
        (b - a) as u32
    }
}

fn abs_diff_u32(a: u32, b: u32) -> (r: u32)
    ensures
        r == abs_diff(a, b),
{
    if a >= b {
        a - b
    } else {
        b - a
    }
}

impl TryFrom<u32> for BaudRate {
    type Error = ();

    fn try_from(bps: u32) -> (r: Result<Self, ()>) {
        match Self::from_bps(bps) {
            Some(b) => Ok(b),
            None => Err(()),
        }
    }
}

impl TryFromSpecImpl<u32> for BaudRate {
    open spec fn obeys_try_from_spec() -> bool {
        true
    }

    open spec fn try_from_spec(bps: u32) -> Result<Self, ()> {
        match BaudRate::spec_from_bps(bps) {
            Some(b) => Ok(b),
            None => Err(()),
        }
    }
}

impl From<BaudRate> for u32 {
    fn from(r: BaudRate) -> (v: u32) {
        r.bps()
    }
}

impl vstd::std_specs::convert::FromSpecImpl<BaudRate> for u32 {
    open spec fn obeys_from_spec() -> bool {
        true
    }

    open spec fn from_spec(r: BaudRate) -> u32 {
        r.spec_bps()
    }
}

// ── Update rate ──────────────────────────────────────────────────────────────

#[derive(Clone, Copy, Debug, PartialEq, Eq, Structural)]
pub enum UpdateRate {
    Hz1,
    Hz2,
    Hz5,
    Hz10,
}

impl TryFrom<u8> for UpdateRate {
    type Error = ();

    /// From a frequency in hertz.
    fn try_from(hz: u8) -> (r: Result<Self, ()>) {
        Self::from_hz(hz)
    }
}

impl TryFromSpecImpl<u8> for UpdateRate {
    open spec fn obeys_try_from_spec() -> bool {
        true
    }

    open spec fn try_from_spec(hz: u8) -> Result<Self, ()> {
        UpdateRate::spec_from_hz(hz)
    }
}

impl TryFrom<u32> for UpdateRate {
    type Error = ();

    /// From a period in milliseconds.
    fn try_from(ms: u32) -> (r: Result<Self, ()>) {
        Self::from_period_ms(ms)
    }
}

impl TryFromSpecImpl<u32> for UpdateRate {
    open spec fn obeys_try_from_spec() -> bool {
        true
    }

    open spec fn try_from_spec(ms: u32) -> Result<Self, ()> {
        UpdateRate::spec_from_period_ms(ms)
    }
}

impl Default for UpdateRate {
    fn default() -> (r: Self)
        ensures
            r == UpdateRate::Hz1,
    {
        UpdateRate::Hz1
    }
}

impl UpdateRate {
    pub open spec fn spec_period_ms(self) -> u32 {
        match self {
            UpdateRate::Hz1 => 1000,
            UpdateRate::Hz2 => 500,
            UpdateRate::Hz5 => 200,
            UpdateRate::Hz10 => 100,
        }
    }

    pub open spec fn spec_hz(self) -> u8 {
        match self {
            UpdateRate::Hz1 => 1,
            UpdateRate::Hz2 => 2,
            UpdateRate::Hz5 => 5,
            UpdateRate::Hz10 => 10,
        }
    }

    pub open spec fn spec_from_hz(hz: u8) -> Result<UpdateRate, ()> {
        if hz == 1 {
            Ok(UpdateRate::Hz1)
        } else if hz == 2 {
            Ok(UpdateRate::Hz2)
        } else if hz == 5 {
            Ok(UpdateRate::Hz5)
        } else if hz == 10 {
            Ok(UpdateRate::Hz10)
        } else {
            Err(())
        }
    }

    pub open spec fn spec_from_period_ms(ms: u32) -> Result<UpdateRate, ()> {
        if ms == 1000 {
            Ok(UpdateRate::Hz1)
        } else if ms == 500 {
            Ok(UpdateRate::Hz2)
        } else if ms == 200 {
            Ok(UpdateRate::Hz5)
        } else if ms == 100 {
            Ok(UpdateRate::Hz10)
        } else {
            Err(())
        }
    }

    #[verifier::when_used_as_spec(spec_period_ms)]
    pub fn period_ms(self) -> (r: u32)
        ensures
            r == self.spec_period_ms(),
    {
        match self {
            Self::Hz1 => 1000,
            Self::Hz2 => 500,
            Self::Hz5 => 200,
            Self::Hz10 => 100,
        }
    }

    #[verifier::when_used_as_spec(spec_hz)]
    pub fn hz(self) -> (r: u8)
        ensures
            r == self.spec_hz(),
    {
        match self {
            Self::Hz1 => 1,
            Self::Hz2 => 2,
            Self::Hz5 => 5,
            Self::Hz10 => 10,
        }
    }

    /// The rate with this many fixes per second .
    pub fn from_hz(hz: u8) -> (r: Result<Self, ()>)
        ensures
            r == Self::spec_from_hz(hz),
    {
        match hz {
            1 => Ok(Self::Hz1),
            2 => Ok(Self::Hz2),
            5 => Ok(Self::Hz5),
            10 => Ok(Self::Hz10),
            _ => Err(()),
        }
    }

    /// The rate with this period in milliseconds .
    pub fn from_period_ms(ms: u32) -> (r: Result<Self, ()>)
        ensures
            r == Self::spec_from_period_ms(ms),
    {
        match ms {
            1000 => Ok(Self::Hz1),
            500 => Ok(Self::Hz2),
            200 => Ok(Self::Hz5),
            100 => Ok(Self::Hz10),
            _ => Err(()),
        }
    }

    /// Human-readable form, `"<hz> Hz"`.
    pub fn to_string(self) -> (s: String)
        ensures
            s@ == self.spec_label(),
    {
        match self {
            Self::Hz1 => String::from_str("1 Hz"),
            Self::Hz2 => String::from_str("2 Hz"),
            Self::Hz5 => String::from_str("5 Hz"),
            Self::Hz10 => String::from_str("10 Hz"),
        }
    }

    pub open spec fn spec_label(self) -> Seq<char> {
        match self {
            UpdateRate::Hz1 => "1 Hz"@,
            UpdateRate::Hz2 => "2 Hz"@,
            UpdateRate::Hz5 => "5 Hz"@,
            UpdateRate::Hz10 => "10 Hz"@,
        }
    }
}

// ── Restart mode and info field ──────────────────────────────────────────────

#[derive(Clone, Copy, Debug, PartialEq, Eq, Structural)]
pub enum RestartMode {
    Hot,
    Warm,
    Cold,
    Factory,
}

impl RestartMode {
    pub open spec fn spec_param(self) -> u8 {
        match self {
            RestartMode::Hot => 0,
            RestartMode::Warm => 1,
            RestartMode::Cold => 2,
            RestartMode::Factory => 3,
        }
    }

    #[verifier::when_used_as_spec(spec_param)]
    pub fn param(self) -> (r: u8)
        ensures
            r == self.spec_param(),
    {
        match self {
            Self::Hot => 0,
            Self::Warm => 1,
            Self::Cold => 2,
            Self::Factory => 3,
        }
    }
}

#[derive(Clone, Copy, Debug, PartialEq, Eq, Structural)]
pub enum InfoField {
    Firmware,
    Hardware,
    Mode,
    Customer,
    Upgrade,
}

impl InfoField {
    pub open spec fn spec_param(self) -> u8 {
        match self {
            InfoField::Firmware => 0,
            InfoField::Hardware => 1,
            InfoField::Mode => 2,
            InfoField::Customer => 3,
            InfoField::Upgrade => 5,
        }
    }

    #[verifier::when_used_as_spec(spec_param)]
    pub fn param(self) -> (r: u8)
        ensures
            r == self.spec_param(),
    {
        match self {
            Self::Firmware => 0,
            Self::Hardware => 1,
            Self::Mode => 2,
            Self::Customer => 3,
            Self::Upgrade => 5,
        }
    }
}

// ── Constellation mask ───────────────────────────────────────────────────────

/// Typed bitmask for GNSS constellation selection ($PCAS04).
#[derive(Clone, Copy, Debug, PartialEq, Eq, Structural)]
pub struct ConstellationMask(pub u8);

impl Default for ConstellationMask {
    fn default() -> (r: Self)
        ensures
            r == ConstellationMask::ALL(),
    {
        Self::ALL()
    }
}

impl ConstellationMask {
    #[allow(non_snake_case)]
    pub open spec fn spec_GPS() -> Self {
        ConstellationMask(0x01)
    }

    #[allow(non_snake_case)]
    #[verifier::when_used_as_spec(spec_GPS)]
    pub fn GPS() -> (r: Self)
        ensures
            r == ConstellationMask(0x01),
    {
        ConstellationMask(0x01)
    }

    #[allow(non_snake_case)]
    pub open spec fn spec_BDS() -> Self {
        ConstellationMask(0x02)
    }

    #[allow(non_snake_case)]
    #[verifier::when_used_as_spec(spec_BDS)]
    pub fn BDS() -> (r: Self)
        ensures
            r == ConstellationMask(0x02),
    {
        ConstellationMask(0x02)
    }

    #[allow(non_snake_case)]
    pub open spec fn spec_GLONASS() -> Self {
        ConstellationMask(0x04)
    }

    #[allow(non_snake_case)]
    #[verifier::when_used_as_spec(spec_GLONASS)]
    pub fn GLONASS() -> (r: Self)
        ensures
            r == ConstellationMask(0x04),
    {
        ConstellationMask(0x04)
    }

    #[allow(non_snake_case)]
    pub open spec fn spec_GALILEO() -> Self {
        ConstellationMask(0x08)
    }

    #[allow(non_snake_case)]
    #[verifier::when_used_as_spec(spec_GALILEO)]
    pub fn GALILEO() -> (r: Self)
        ensures
            r == ConstellationMask(0x08),
    {
        ConstellationMask(0x08)
    }

    #[allow(non_snake_case)]
    pub open spec fn spec_QZSS() -> Self {
        ConstellationMask(0x10)
    }

    #[allow(non_snake_case)]
    #[verifier::when_used_as_spec(spec_QZSS)]
    pub fn QZSS() -> (r: Self)
        ensures
            r == ConstellationMask(0x10),
    {
        ConstellationMask(0x10)
    }

    #[allow(non_snake_case)]
    pub open spec fn spec_ALL() -> Self {
        ConstellationMask(0x7F)
    }

    #[allow(non_snake_case)]
    #[verifier::when_used_as_spec(spec_ALL)]
    pub fn ALL() -> (r: Self)
        ensures
            r == ConstellationMask(0x7F),
    {
        ConstellationMask(0x7F)
    }


    pub open spec fn spec_contains(self, other: Self) -> bool {
        (self.0 & other.0) == other.0
    }

    /// Every bit of `other` is set in `self`.
    #[verifier::when_used_as_spec(spec_contains)]
    pub fn contains(self, other: Self) -> (r: bool)
        ensures
            r == self.spec_contains(other),
    {
        (self.0 & other.0) == other.0
    }

    /// Return the underlying byte value.
    pub fn as_u8(self) -> (r: u8)
        ensures
            r == self.0,
    {
        self.0
    }

    /// The labels of the selected constellations, in the order GPS, BDS,
    /// GLONASS, Galileo, QZSS.
    pub open spec fn label_parts(self) -> Seq<Seq<char>> {
        let p0: Seq<Seq<char>> = if self.spec_contains(Self::GPS()) { seq!["GPS"@] } else { seq![] };
        let p1: Seq<Seq<char>> = if self.spec_contains(Self::BDS()) { seq!["BDS"@] } else { seq![] };
        let p2: Seq<Seq<char>> = if self.spec_contains(Self::GLONASS()) { seq!["GLO"@] } else { seq![] };
        let p3: Seq<Seq<char>> = if self.spec_contains(Self::GALILEO()) { seq!["GAL"@] } else { seq![] };
        let p4: Seq<Seq<char>> = if self.spec_contains(Self::QZSS()) { seq!["QZS"@] } else { seq![] };
        p0 + p1 + p2 + p3 + p4
    }

    /// Human-readable form: all five names for `ALL`,
    /// otherwise the selected names joined by `+`.
    pub open spec fn spec_label(self) -> Seq<char> {
        if self == Self::ALL() {
            "GPS+BDS+GLO+GAL+QZS"@
        } else {
            join_plus(self.label_parts())
        }
    }

    pub fn to_string(self) -> (s: String)
        ensures
            s@ == self.spec_label(),
    {
        if self.0 == 0x7F {
            return String::from_str("GPS+BDS+GLO+GAL+QZS");
        }
        let mut s = String::new();
        let mut first = true;
        let ghost parts: Seq<Seq<char>> = seq![];
        assert(join_plus(parts) == Seq::<char>::empty());
        proof {
            reveal_strlit("+");
        }
        let bits = [Self::GPS(), Self::BDS(), Self::GLONASS(), Self::GALILEO(), Self::QZSS()];
        let labels = ["GPS", "BDS", "GLO", "GAL", "QZS"];
        let mut i: usize = 0;
        while i < 5
            invariant
                i <= 5,
                bits@ == seq![Self::GPS(), Self::BDS(), Self::GLONASS(), Self::GALILEO(), Self::QZSS()],
                labels@.len() == 5,
                labels@[0]@ == "GPS"@,
                labels@[1]@ == "BDS"@,
                labels@[2]@ == "GLO"@,
                labels@[3]@ == "GAL"@,
                labels@[4]@ == "QZS"@,
                "+"@ == seq!['+'],
                s@ == join_plus(parts),
                first == (parts.len() == 0),
                parts == self.prefix_parts(i as int),
            decreases 5 - i,
        {
            let ghost old_parts = parts;
            if self.contains(bits[i]) {
                if !first {
                    s.append("+");
                }
                s.append(labels[i]);
                proof {
                    parts = parts.push(labels@[i as int]@);
                    lemma_join_plus_push(old_parts, labels@[i as int]@);
                }
                first = false;
            }
            i += 1;
        }
        proof {
            self.lemma_prefix_parts_all();
        }
        s
    }

    /// The selected labels among the first `n` constellations.
    pub open spec fn prefix_parts(self, n: int) -> Seq<Seq<char>>
        decreases n,
    {
        if n <= 0 {
            seq![]
        } else {
            let prev = self.prefix_parts(n - 1);
            let bit = seq![Self::GPS(), Self::BDS(), Self::GLONASS(), Self::GALILEO(), Self::QZSS()][n - 1];
            let label = seq!["GPS"@, "BDS"@, "GLO"@, "GAL"@, "QZS"@][n - 1];
            if self.spec_contains(bit) {
                prev.push(label)
            } else {
                prev
            }
        }
    }

    proof fn lemma_prefix_parts_all(self)
        ensures
            self.prefix_parts(5) == self.label_parts(),
    {
        reveal_with_fuel(ConstellationMask::prefix_parts, 6);
        assert(self.prefix_parts(5) =~= self.label_parts());
    }
}

/// Names joined with `+` between them.
pub open spec fn join_plus(parts: Seq<Seq<char>>) -> Seq<char>
    decreases parts.len(),
{
    if parts.len() == 0 {
        seq![]
    } else if parts.len() == 1 {
        parts[0]
    } else {
        join_plus(parts.drop_last()) + seq!['+'] + parts.last()
    }
}

proof fn lemma_join_plus_push(parts: Seq<Seq<char>>, x: Seq<char>)
    ensures
        join_plus(parts.push(x)) == if parts.len() == 0 {
            x
        } else {
            join_plus(parts) + seq!['+'] + x
        },
{
    assert(parts.push(x).drop_last() =~= parts);
}

impl From<u8> for ConstellationMask {
    fn from(v: u8) -> (r: Self) {
        Self(v)
    }
}

impl vstd::std_specs::convert::FromSpecImpl<u8> for ConstellationMask {
    open spec fn obeys_from_spec() -> bool {
        true
    }

    open spec fn from_spec(v: u8) -> Self {
        ConstellationMask(v)
    }
}

impl From<ConstellationMask> for u8 {
    fn from(m: ConstellationMask) -> (r: u8) {
        m.0
    }
}

impl vstd::std_specs::convert::FromSpecImpl<ConstellationMask> for u8 {
    open spec fn obeys_from_spec() -> bool {
        true
    }

    open spec fn from_spec(m: ConstellationMask) -> u8 {
        m.0
    }
}

impl BitOr for ConstellationMask {
    type Output = Self;

    fn bitor(self, rhs: Self) -> (r: Self) {
        Self(self.0 | rhs.0)
    }
}

impl BitOrSpecImpl for ConstellationMask {
    open spec fn obeys_bitor_spec() -> bool {
        true
    }

    open spec fn bitor_req(self, rhs: Self) -> bool {
        true
    }

    open spec fn bitor_spec(self, rhs: Self) -> Self {
        ConstellationMask(self.0 | rhs.0)
    }
}

impl BitOrAssign for ConstellationMask {
    fn bitor_assign(&mut self, rhs: Self)
        ensures
            final(self).0 == old(self).0 | rhs.0,
    {
        self.0 = self.0 | rhs.0;
    }
}

impl BitAnd for ConstellationMask {
    type Output = Self;

    fn bitand(self, rhs: Self) -> (r: Self) {
        Self(self.0 & rhs.0)
    }
}

impl BitAndSpecImpl for ConstellationMask {
    open spec fn obeys_bitand_spec() -> bool {
        true
    }

    open spec fn bitand_req(self, rhs: Self) -> bool {
        true
    }

    open spec fn bitand_spec(self, rhs: Self) -> Self {
        ConstellationMask(self.0 & rhs.0)
    }
}

impl BitAndAssign for ConstellationMask {
    fn bitand_assign(&mut self, rhs: Self)
        ensures
            final(self).0 == old(self).0 & rhs.0,
    {
        self.0 = self.0 & rhs.0;
    }
}

impl Not for ConstellationMask {
    type Output = Self;

    fn not(self) -> (r: Self) {
        Self(!self.0)
    }
}

impl NotSpecImpl for ConstellationMask {
    open spec fn obeys_not_spec() -> bool {
        true
    }

    open spec fn not_req(self) -> bool {
        true
    }

    open spec fn not_spec(self) -> Self {
        ConstellationMask(!self.0)
    }
}

// ── Laws ─────────────────────────────────────────────────────────────────────

/// Each baud rate reads back from its bits per second, `nearest` maps it to
/// itself, and distinct rates have distinct `$PCAS01` parameters.
pub proof fn lemma_baud_rate_round_trip(r: BaudRate, s: BaudRate)
    ensures
        BaudRate::spec_from_bps(r.spec_bps()) == Some(r),
        abs_diff(r.spec_bps(), r.spec_bps()) == 0,
        r != s ==> r.spec_param() != s.spec_param(),
        r != s ==> r.spec_bps() != s.spec_bps(),
{
}

/// Each update rate reads back from its frequency and from its period, and
/// frequency times period is one second.
pub proof fn lemma_update_rate_round_trip(r: UpdateRate)
    ensures
        UpdateRate::spec_from_hz(r.spec_hz()) == Ok::<UpdateRate, ()>(r),
        UpdateRate::spec_from_period_ms(r.spec_period_ms()) == Ok::<UpdateRate, ()>(r),
        r.spec_hz() as int * r.spec_period_ms() as int == 1000,
{
    match r {
        UpdateRate::Hz1 => assert(1int * 1000int == 1000),
        UpdateRate::Hz2 => assert(2int * 500int == 1000),
        UpdateRate::Hz5 => assert(5int * 200int == 1000),
        UpdateRate::Hz10 => assert(10int * 100int == 1000),
    }
}

/// A union of masks contains each operand; `ALL` contains every
/// constellation; a mask contains itself.
pub proof fn lemma_mask_union_contains(a: ConstellationMask, b: ConstellationMask)
    ensures
        ConstellationMask(a.0 | b.0).spec_contains(a),
        ConstellationMask(a.0 | b.0).spec_contains(b),
        a.spec_contains(a),
        ConstellationMask(a.0 & b.0) == a ==> b.spec_contains(a),
        a.0 & 0x7f == a.0 ==> ConstellationMask::spec_ALL().spec_contains(a),
{
    let x = a.0;
    let y = b.0;
    assert((x | y) & x == x && (x | y) & y == y && x & x == x) by (bit_vector);
    assert(x & y == x ==> y & x == x) by (bit_vector);
    assert(x & 0x7f == x ==> 0x7f & x == x) by (bit_vector);
}


/// The `$PCAS01` parameters number the rates from the slowest: each is at
/// most 5, and a faster rate has a larger parameter. With six distinct rates
/// this fixes 4800 bps as 0 up to 115200 bps as 5.
pub proof fn lemma_baud_param_order(r: BaudRate, s: BaudRate)
    ensures
        r.spec_param() <= 5,
        (r.spec_bps() < s.spec_bps()) == (r.spec_param() < s.spec_param()),
        (r.spec_bps() == s.spec_bps()) == (r == s),
{
}

/// The `$PCAS10` restart parameters, from the least to the most cleared:
/// hot 0, warm 1, cold 2, factory reset 3.
pub proof fn lemma_restart_params()
    ensures
        RestartMode::Hot.spec_param() == 0,
        RestartMode::Warm.spec_param() == 1,
        RestartMode::Cold.spec_param() == 2,
        RestartMode::Factory.spec_param() == 3,
{
}

/// The `$PCAS06` query parameters: firmware 0, hardware 1, working mode 2,
/// customer number 3, upgrade code 5.
pub proof fn lemma_info_params()
    ensures
        InfoField::Firmware.spec_param() == 0,
        InfoField::Hardware.spec_param() == 1,
        InfoField::Mode.spec_param() == 2,
        InfoField::Customer.spec_param() == 3,
        InfoField::Upgrade.spec_param() == 5,
{
}

} // verus!
