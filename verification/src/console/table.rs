//! The `$PCAS` command catalogue the console offers for completion.
use vstd::prelude::*;

verus! {

/// One completion entry: a ready-to-send command line with its category and
/// descriptions.
#[derive(Clone, Copy, Debug)]
pub struct CommandVariant {
    pub category: &'static str,
    pub category_label: &'static str,
    pub full_command: &'static str,
    pub description: &'static str,
    /// Shown when this is the only matching variant. Multi-line detail.
    pub detail: &'static str,
}

fn variant(
    category: &'static str,
    category_label: &'static str,
    full_command: &'static str,
    description: &'static str,
    detail: &'static str,
) -> (r: CommandVariant)
    ensures
        r == (CommandVariant { category, category_label, full_command, description, detail }),
{
    CommandVariant { category, category_label, full_command, description, detail }
}

/// The number of entries in the catalogue.
pub const COMMAND_COUNT: usize = 35;

/// The catalogue, row by row: the commands grouped by category in command
/// order, each with its category, label, ready-to-send line, description and
/// detail text.
pub open spec fn catalogue() -> Seq<CommandVariant> {
    seq![
        CommandVariant {
            category: "PCAS00",
            category_label: "Save config to flash",
            full_command: "$PCAS00*01",
            description: "Save all settings to flash",
            detail: "Saves current settings to flash memory so they survive power cycles.\nPersists: baud rate, update rate, NMEA output, satellite systems, protocol.\nDoes NOT save ephemeris data (warm/hot-start data stays in VBAT-backed RAM).",
        },
        CommandVariant {
            category: "PCAS01",
            category_label: "Set baud rate",
            full_command: "$PCAS01,0*1C",
            description: "4800 bps",
            detail: "Changes UART baud rate to 4800 bps.\nEffect is immediate — reopen your port at the new rate after sending.\nSave with $PCAS00 to persist across power cycles.",
        },
        CommandVariant {
            category: "PCAS01",
            category_label: "Set baud rate",
            full_command: "$PCAS01,1*1D",
            description: "9600 bps",
            detail: "Changes UART baud rate to 9600 bps.\nEffect is immediate — reopen your port at the new rate after sending.\nSave with $PCAS00 to persist across power cycles.",
        },
        CommandVariant {
            category: "PCAS01",
            category_label: "Set baud rate",
            full_command: "$PCAS01,2*1E",
            description: "19200 bps",
            detail: "Changes UART baud rate to 19200 bps.\nEffect is immediate — reopen your port at the new rate after sending.\nSave with $PCAS00 to persist across power cycles.",
        },
        CommandVariant {
            category: "PCAS01",
            category_label: "Set baud rate",
            full_command: "$PCAS01,3*1F",
            description: "38400 bps",
            detail: "Changes UART baud rate to 38400 bps.\nEffect is immediate — reopen your port at the new rate after sending.\nSave with $PCAS00 to persist across power cycles.",
        },
        CommandVariant {
            category: "PCAS01",
            category_label: "Set baud rate",
            full_command: "$PCAS01,4*18",
            description: "57600 bps",
            detail: "Changes UART baud rate to 57600 bps.\nEffect is immediate — reopen your port at the new rate after sending.\nSave with $PCAS00 to persist across power cycles.",
        },
        CommandVariant {
            category: "PCAS01",
            category_label: "Set baud rate",
            full_command: "$PCAS01,5*19",
            description: "115200 bps  (default)",
            detail: "Changes UART baud rate to 115200 bps (factory default).\nEffect is immediate — reopen your port at the new rate after sending.\nSave with $PCAS00 to persist across power cycles.",
        },
        CommandVariant {
            category: "PCAS02",
            category_label: "Set positioning update rate",
            full_command: "$PCAS02,1000*2E",
            description: "1 Hz  (default)",
            detail: "Sets fix output rate to 1 Hz (one position update per second).\nAll NMEA sentences (GGA, RMC, VTG, GSA, GSV, GLL, ZDA) update at 1 Hz.",
        },
        CommandVariant {
            category: "PCAS02",
            category_label: "Set positioning update rate",
            full_command: "$PCAS02,500*1A",
            description: "2 Hz",
            detail: "Sets fix output rate to 2 Hz.\nGGA, RMC, VTG update at 2 Hz. GSA, GSV, GLL, ZDA are capped at 1 Hz.",
        },
        CommandVariant {
            category: "PCAS02",
            category_label: "Set positioning update rate",
            full_command: "$PCAS02,200*1D",
            description: "5 Hz",
            detail: "Sets fix output rate to 5 Hz.\nGGA, RMC, VTG update at 5 Hz. GSA, GSV, GLL, ZDA are capped at 1 Hz.",
        },
        CommandVariant {
            category: "PCAS02",
            category_label: "Set positioning update rate",
            full_command: "$PCAS02,100*1E",
            description: "10 Hz",
            detail: "Sets fix output rate to 10 Hz (maximum).\nGGA, RMC, VTG update at 10 Hz. GSA, GSV, GLL, ZDA are capped at 1 Hz.",
        },
        CommandVariant {
            category: "PCAS03",
            category_label: "Configure NMEA output",
            full_command: "$PCAS03,1,1,1,1,1,1,1,1,1,0,,,0,1*02",
            description: "Enable all sentences at 1 Hz",
            detail: "Enables all NMEA sentences at 1 Hz.\nField order: GGA, GLL, GSA, GSV, RMC, VTG, ZDA, TXT, DHV, Res×4, GST\nValue: 0=off  1=every fix  2=every 2nd fix  …  10=every 10th fix\nEmpty field = keep current setting.",
        },
        CommandVariant {
            category: "PCAS03",
            category_label: "Configure NMEA output",
            full_command: "$PCAS03,1,0,1,1,1,1,0,0,0,0,,,0,0*02",
            description: "Minimal: GGA + GSA + GSV + RMC + VTG only",
            detail: "Enables only the essential sentences for navigation.\nDisables: GLL, ZDA, TXT, DHV, GST.\nField order: GGA, GLL, GSA, GSV, RMC, VTG, ZDA, TXT, DHV, Res×4, GST",
        },
        CommandVariant {
            category: "PCAS03",
            category_label: "Configure NMEA output",
            full_command: "$PCAS03,0,0,0,0,0,0,0,0,0,0,,,0,0*02",
            description: "Disable all NMEA output",
            detail: "Silences all NMEA sentence output.\nUseful when switching to a custom polling mode.\nThe module still positions internally; no data is sent until re-enabled.",
        },
        CommandVariant {
            category: "PCAS04",
            category_label: "Set satellite systems",
            full_command: "$PCAS04,7F*58",
            description: "ALL: GPS + BDS + GLONASS + Galileo + QZSS  (default)",
            detail: "Enables all five satellite constellations (factory default).\nBitmask: GPS=0x01  BDS=0x02  GLO=0x04  GAL=0x08  QZS=0x10\nExample: GPS+BDS = 0x01|0x02 = 3  →  $PCAS04,3*1A",
        },
        CommandVariant {
            category: "PCAS04",
            category_label: "Set satellite systems",
            full_command: "$PCAS04,1*18",
            description: "GPS only",
            detail: "Enables GPS L1 C/A only.\nUse for maximum compatibility or power saving.\nRestart receiver after changing constellation config.",
        },
        CommandVariant {
            category: "PCAS04",
            category_label: "Set satellite systems",
            full_command: "$PCAS04,2*1B",
            description: "BDS only",
            detail: "Enables BeiDou B1I only.",
        },
        CommandVariant {
            category: "PCAS04",
            category_label: "Set satellite systems",
            full_command: "$PCAS04,3*1A",
            description: "GPS + BDS",
            detail: "Enables GPS and BeiDou.",
        },
        CommandVariant {
            category: "PCAS04",
            category_label: "Set satellite systems",
            full_command: "$PCAS04,4*1D",
            description: "GLONASS only",
            detail: "Enables GLONASS L1 only.",
        },
        CommandVariant {
            category: "PCAS04",
            category_label: "Set satellite systems",
            full_command: "$PCAS04,5*1C",
            description: "GPS + GLONASS",
            detail: "Enables GPS and GLONASS.",
        },
        CommandVariant {
            category: "PCAS04",
            category_label: "Set satellite systems",
            full_command: "$PCAS04,6*1F",
            description: "BDS + GLONASS",
            detail: "Enables BeiDou and GLONASS.",
        },
        CommandVariant {
            category: "PCAS04",
            category_label: "Set satellite systems",
            full_command: "$PCAS04,7*1E",
            description: "GPS + BDS + GLONASS",
            detail: "Enables GPS, BeiDou and GLONASS.",
        },
        CommandVariant {
            category: "PCAS04",
            category_label: "Set satellite systems",
            full_command: "$PCAS04,8*11",
            description: "Galileo only",
            detail: "Enables Galileo E1 only.",
        },
        CommandVariant {
            category: "PCAS04",
            category_label: "Set satellite systems",
            full_command: "$PCAS04,9*10",
            description: "GPS + Galileo",
            detail: "Enables GPS and Galileo.",
        },
        CommandVariant {
            category: "PCAS05",
            category_label: "Set NMEA protocol version",
            full_command: "$PCAS05,2*1A",
            description: "NMEA 4.1+  (default)",
            detail: "Outputs NMEA 4.1+ sentences (factory default).\nIncludes systemId field in GSA, signalId field in GSV.\nUse this for modern software.",
        },
        CommandVariant {
            category: "PCAS05",
            category_label: "Set NMEA protocol version",
            full_command: "$PCAS05,5*1D",
            description: "BDS/GPS dual-mode  (NMEA 2.3+ / 4.0)",
            detail: "Outputs sentences compatible with the China Ministry of Transport\nBDS/GPS dual-mode standard.\nAlso compatible with NMEA 2.3+ and NMEA 4.0.\nUse for legacy devices that don't support NMEA 4.1.",
        },
        CommandVariant {
            category: "PCAS06",
            category_label: "Query product information",
            full_command: "$PCAS06,0*1B",
            description: "Firmware version",
            detail: "Queries firmware version. Module responds with firmware info on UART.\nResponse appears in the log below.",
        },
        CommandVariant {
            category: "PCAS06",
            category_label: "Query product information",
            full_command: "$PCAS06,1*1A",
            description: "Hardware model & serial number",
            detail: "Queries hardware model name and serial number.\nResponse appears in the log below.",
        },
        CommandVariant {
            category: "PCAS06",
            category_label: "Query product information",
            full_command: "$PCAS06,2*19",
            description: "Multi-mode receiver operating mode",
            detail: "Queries the current multi-constellation receiver mode.\nResponse appears in the log below.",
        },
        CommandVariant {
            category: "PCAS06",
            category_label: "Query product information",
            full_command: "$PCAS06,3*18",
            description: "Customer code",
            detail: "Queries the customer/OEM code programmed into the module.\nResponse appears in the log below.",
        },
        CommandVariant {
            category: "PCAS06",
            category_label: "Query product information",
            full_command: "$PCAS06,5*1E",
            description: "Upgrade code",
            detail: "Queries firmware upgrade code information.\nResponse appears in the log below.",
        },
        CommandVariant {
            category: "PCAS10",
            category_label: "Restart receiver",
            full_command: "$PCAS10,0*1C",
            description: "Hot start  — fastest reacquisition",
            detail: "Hot start: all backup data remains valid.\nThe receiver uses saved position, time, almanac and ephemeris.\nTypical TTFF: ≤1 s. Use after a brief power interruption.",
        },
        CommandVariant {
            category: "PCAS10",
            category_label: "Restart receiver",
            full_command: "$PCAS10,1*1D",
            description: "Warm start — clear ephemeris only",
            detail: "Warm start: clears ephemeris but keeps position, time and almanac.\nForces the receiver to re-download satellite ephemeris.\nTypical TTFF: 20–60 s.",
        },
        CommandVariant {
            category: "PCAS10",
            category_label: "Restart receiver",
            full_command: "$PCAS10,2*1E",
            description: "Cold start — clear all backup data",
            detail: "Cold start: clears all backup data except saved configuration.\nReceiver must re-acquire everything from scratch.\nTypical TTFF: ≤30 s under open sky.",
        },
        CommandVariant {
            category: "PCAS10",
            category_label: "Restart receiver",
            full_command: "$PCAS10,3*1F",
            description: "Factory reset — restore all defaults",
            detail: "Factory reset: clears ALL memory including saved configuration.\nRestores baud rate (115200), update rate (1 Hz), all constellations,\nand NMEA 4.1+ protocol.\nUse only when you want to start completely fresh.",
        },
    ]
}

/// Every command the console offers, grouped by category in command order.
pub fn command_table() -> (v: Vec<CommandVariant>)
    ensures
        v@ == catalogue(),
        v@.len() == COMMAND_COUNT,
{
    let mut v: Vec<CommandVariant> = Vec::new();
    v.push(variant(
        "PCAS00",
        "Save config to flash",
        "$PCAS00*01",
        "Save all settings to flash",
        "Saves current settings to flash memory so they survive power cycles.\nPersists: baud rate, update rate, NMEA output, satellite systems, protocol.\nDoes NOT save ephemeris data (warm/hot-start data stays in VBAT-backed RAM).",
    ));
    v.push(variant(
        "PCAS01",
        "Set baud rate",
        "$PCAS01,0*1C",
        "4800 bps",
        "Changes UART baud rate to 4800 bps.\nEffect is immediate — reopen your port at the new rate after sending.\nSave with $PCAS00 to persist across power cycles.",
    ));
    v.push(variant(
        "PCAS01",
        "Set baud rate",
        "$PCAS01,1*1D",
        "9600 bps",
        "Changes UART baud rate to 9600 bps.\nEffect is immediate — reopen your port at the new rate after sending.\nSave with $PCAS00 to persist across power cycles.",
    ));
    v.push(variant(
        "PCAS01",
        "Set baud rate",
        "$PCAS01,2*1E",
        "19200 bps",
        "Changes UART baud rate to 19200 bps.\nEffect is immediate — reopen your port at the new rate after sending.\nSave with $PCAS00 to persist across power cycles.",
    ));
    v.push(variant(
        "PCAS01",
        "Set baud rate",
        "$PCAS01,3*1F",
        "38400 bps",
        "Changes UART baud rate to 38400 bps.\nEffect is immediate — reopen your port at the new rate after sending.\nSave with $PCAS00 to persist across power cycles.",
    ));
    v.push(variant(
        "PCAS01",
        "Set baud rate",
        "$PCAS01,4*18",
        "57600 bps",
        "Changes UART baud rate to 57600 bps.\nEffect is immediate — reopen your port at the new rate after sending.\nSave with $PCAS00 to persist across power cycles.",
    ));
    v.push(variant(
        "PCAS01",
        "Set baud rate",
        "$PCAS01,5*19",
        "115200 bps  (default)",
        "Changes UART baud rate to 115200 bps (factory default).\nEffect is immediate — reopen your port at the new rate after sending.\nSave with $PCAS00 to persist across power cycles.",
    ));
    v.push(variant(
        "PCAS02",
        "Set positioning update rate",
        "$PCAS02,1000*2E",
        "1 Hz  (default)",
        "Sets fix output rate to 1 Hz (one position update per second).\nAll NMEA sentences (GGA, RMC, VTG, GSA, GSV, GLL, ZDA) update at 1 Hz.",
    ));
    v.push(variant(
        "PCAS02",
        "Set positioning update rate",
        "$PCAS02,500*1A",
        "2 Hz",
        "Sets fix output rate to 2 Hz.\nGGA, RMC, VTG update at 2 Hz. GSA, GSV, GLL, ZDA are capped at 1 Hz.",
    ));
    v.push(variant(
        "PCAS02",
        "Set positioning update rate",
        "$PCAS02,200*1D",
        "5 Hz",
        "Sets fix output rate to 5 Hz.\nGGA, RMC, VTG update at 5 Hz. GSA, GSV, GLL, ZDA are capped at 1 Hz.",
    ));
    v.push(variant(
        "PCAS02",
        "Set positioning update rate",
        "$PCAS02,100*1E",
        "10 Hz",
        "Sets fix output rate to 10 Hz (maximum).\nGGA, RMC, VTG update at 10 Hz. GSA, GSV, GLL, ZDA are capped at 1 Hz.",
    ));
    v.push(variant(
        "PCAS03",
        "Configure NMEA output",
        "$PCAS03,1,1,1,1,1,1,1,1,1,0,,,0,1*02",
        "Enable all sentences at 1 Hz",
        "Enables all NMEA sentences at 1 Hz.\nField order: GGA, GLL, GSA, GSV, RMC, VTG, ZDA, TXT, DHV, Res×4, GST\nValue: 0=off  1=every fix  2=every 2nd fix  …  10=every 10th fix\nEmpty field = keep current setting.",
    ));
    v.push(variant(
        "PCAS03",
        "Configure NMEA output",
        "$PCAS03,1,0,1,1,1,1,0,0,0,0,,,0,0*02",
        "Minimal: GGA + GSA + GSV + RMC + VTG only",
        "Enables only the essential sentences for navigation.\nDisables: GLL, ZDA, TXT, DHV, GST.\nField order: GGA, GLL, GSA, GSV, RMC, VTG, ZDA, TXT, DHV, Res×4, GST",
    ));
    v.push(variant(
        "PCAS03",
        "Configure NMEA output",
        "$PCAS03,0,0,0,0,0,0,0,0,0,0,,,0,0*02",
        "Disable all NMEA output",
        "Silences all NMEA sentence output.\nUseful when switching to a custom polling mode.\nThe module still positions internally; no data is sent until re-enabled.",
    ));
    v.push(variant(
        "PCAS04",
        "Set satellite systems",
        "$PCAS04,7F*58",
        "ALL: GPS + BDS + GLONASS + Galileo + QZSS  (default)",
        "Enables all five satellite constellations (factory default).\nBitmask: GPS=0x01  BDS=0x02  GLO=0x04  GAL=0x08  QZS=0x10\nExample: GPS+BDS = 0x01|0x02 = 3  →  $PCAS04,3*1A",
    ));
    v.push(variant(
        "PCAS04",
        "Set satellite systems",
        "$PCAS04,1*18",
        "GPS only",
        "Enables GPS L1 C/A only.\nUse for maximum compatibility or power saving.\nRestart receiver after changing constellation config.",
    ));
    v.push(variant(
        "PCAS04",
        "Set satellite systems",
        "$PCAS04,2*1B",
        "BDS only",
        "Enables BeiDou B1I only.",
    ));
    v.push(variant(
        "PCAS04",
        "Set satellite systems",
        "$PCAS04,3*1A",
        "GPS + BDS",
        "Enables GPS and BeiDou.",
    ));
    v.push(variant(
        "PCAS04",
        "Set satellite systems",
        "$PCAS04,4*1D",
        "GLONASS only",
        "Enables GLONASS L1 only.",
    ));
    v.push(variant(
        "PCAS04",
        "Set satellite systems",
        "$PCAS04,5*1C",
        "GPS + GLONASS",
        "Enables GPS and GLONASS.",
    ));
    v.push(variant(
        "PCAS04",
        "Set satellite systems",
        "$PCAS04,6*1F",
        "BDS + GLONASS",
        "Enables BeiDou and GLONASS.",
    ));
    v.push(variant(
        "PCAS04",
        "Set satellite systems",
        "$PCAS04,7*1E",
        "GPS + BDS + GLONASS",
        "Enables GPS, BeiDou and GLONASS.",
    ));
    v.push(variant(
        "PCAS04",
        "Set satellite systems",
        "$PCAS04,8*11",
        "Galileo only",
        "Enables Galileo E1 only.",
    ));
    v.push(variant(
        "PCAS04",
        "Set satellite systems",
        "$PCAS04,9*10",
        "GPS + Galileo",
        "Enables GPS and Galileo.",
    ));
    v.push(variant(
        "PCAS05",
        "Set NMEA protocol version",
        "$PCAS05,2*1A",
        "NMEA 4.1+  (default)",
        "Outputs NMEA 4.1+ sentences (factory default).\nIncludes systemId field in GSA, signalId field in GSV.\nUse this for modern software.",
    ));
    v.push(variant(
        "PCAS05",
        "Set NMEA protocol version",
        "$PCAS05,5*1D",
        "BDS/GPS dual-mode  (NMEA 2.3+ / 4.0)",
        "Outputs sentences compatible with the China Ministry of Transport\nBDS/GPS dual-mode standard.\nAlso compatible with NMEA 2.3+ and NMEA 4.0.\nUse for legacy devices that don't support NMEA 4.1.",
    ));
    v.push(variant(
        "PCAS06",
        "Query product information",
        "$PCAS06,0*1B",
        "Firmware version",
        "Queries firmware version. Module responds with firmware info on UART.\nResponse appears in the log below.",
    ));
    v.push(variant(
        "PCAS06",
        "Query product information",
        "$PCAS06,1*1A",
        "Hardware model & serial number",
        "Queries hardware model name and serial number.\nResponse appears in the log below.",
    ));
    v.push(variant(
        "PCAS06",
        "Query product information",
        "$PCAS06,2*19",
        "Multi-mode receiver operating mode",
        "Queries the current multi-constellation receiver mode.\nResponse appears in the log below.",
    ));
    v.push(variant(
        "PCAS06",
        "Query product information",
        "$PCAS06,3*18",
        "Customer code",
        "Queries the customer/OEM code programmed into the module.\nResponse appears in the log below.",
    ));
    v.push(variant(
        "PCAS06",
        "Query product information",
        "$PCAS06,5*1E",
        "Upgrade code",
        "Queries firmware upgrade code information.\nResponse appears in the log below.",
    ));
    v.push(variant(
        "PCAS10",
        "Restart receiver",
        "$PCAS10,0*1C",
        "Hot start  — fastest reacquisition",
        "Hot start: all backup data remains valid.\nThe receiver uses saved position, time, almanac and ephemeris.\nTypical TTFF: ≤1 s. Use after a brief power interruption.",
    ));
    v.push(variant(
        "PCAS10",
        "Restart receiver",
        "$PCAS10,1*1D",
        "Warm start — clear ephemeris only",
        "Warm start: clears ephemeris but keeps position, time and almanac.\nForces the receiver to re-download satellite ephemeris.\nTypical TTFF: 20–60 s.",
    ));
    v.push(variant(
        "PCAS10",
        "Restart receiver",
        "$PCAS10,2*1E",
        "Cold start — clear all backup data",
        "Cold start: clears all backup data except saved configuration.\nReceiver must re-acquire everything from scratch.\nTypical TTFF: ≤30 s under open sky.",
    ));
    v.push(variant(
        "PCAS10",
        "Restart receiver",
        "$PCAS10,3*1F",
        "Factory reset — restore all defaults",
        "Factory reset: clears ALL memory including saved configuration.\nRestores baud rate (115200), update rate (1 Hz), all constellations,\nand NMEA 4.1+ protocol.\nUse only when you want to start completely fresh.",
    ));
    assert(v@ =~= catalogue());
    v
}

} // verus!
