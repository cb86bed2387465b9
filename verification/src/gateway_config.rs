//! Gateway configuration: the gateway's identity and MQTT connection, and the
//! board configuration of an SX1302/3 concentrator.
use vstd::prelude::*;
use vstd::string::StringExecFns;

use crate::semtech_sx1302::ConcentratorError;

verus! {

/// Identity of the gateway and of its board.
#[derive(Default, Debug, Clone)]
pub struct Gateway {
    pub name: String,
    pub chipset_vendor: String,
    pub chipset: String,
    pub board_vendor: String,
    pub board_model: String,
    pub board_mapping: String,
}

/// MQTT connection of the gateway.
#[derive(Default, Debug, Clone)]
pub struct Mqtt {
    pub server: String,
    pub client_id: String,
    pub username: String,
    pub password: String,
}

/// Gateway configuration.
#[derive(Default, Debug, Clone)]
pub struct Configuration {
    pub gateway: Gateway,
    pub mqtt: Mqtt,
}

/// Concentrator settings of a board.
#[derive(Default, Debug, Clone, Copy)]
pub struct Concentrator {
    pub clock_source: u8,
    pub full_duplex: bool,
}

/// An entry of a radio's transmit gain table.
#[derive(Debug, Clone, Copy)]
pub struct TxGain {
    pub rf_power: i8,
    pub dig_gain: u8,
    pub pa_gain: u8,
    pub dac_gain: u8,
    pub mix_gain: u8,
    pub offset_i: i8,
    pub offset_q: i8,
    pub pwr_idx: u8,
}

impl Default for TxGain {
    /// All zero but a mixer gain of 5.
    fn default() -> (r: TxGain)
        ensures
            r.rf_power == 0 && r.dig_gain == 0 && r.pa_gain == 0 && r.dac_gain == 0,
            r.mix_gain == 5,
            r.offset_i == 0 && r.offset_q == 0 && r.pwr_idx == 0,
    {
        TxGain { rf_power: 0, dig_gain: 0, pa_gain: 0, dac_gain: 0, mix_gain: 5, offset_i: 0, offset_q: 0, pwr_idx: 0 }
    }
}

/// How the concentrator of a board is wired: its reset line and the device
/// it is reached through.
#[derive(Debug, Clone)]
pub struct Mapping {
    pub reset_chip: String,
    pub reset_pin: u32,
    pub com_dev_spi: String,
    pub com_dev_usb: String,
}

impl Default for Mapping {
    /// Reset through pin 0 of `/dev/gpiochip0`, no communication device.
    fn default() -> (r: Mapping)
        ensures
            r.reset_chip@ == "/dev/gpiochip0"@,
            r.reset_pin == 0,
            r.com_dev_spi@.len() == 0,
            r.com_dev_usb@.len() == 0,
    {
        Mapping {
            reset_chip: String::from_str("/dev/gpiochip0"),
            reset_pin: 0,
            com_dev_spi: String::new(),
            com_dev_usb: String::new(),
        }
    }
}

/// Radio chips the concentrator drives.
#[derive(Debug, Clone, Copy, PartialEq, Eq, Structural)]
pub enum RadioType {
    Sx1250,
    Sx1255,
    Sx1257,
    Sx1272,
    Sx1276,
}

/// The radio chip named `name`.
pub fn radio_type_from_name(name: &str) -> (r: Result<RadioType, ConcentratorError>)
    ensures
        name@ == "SX1250"@ ==> r == Ok::<RadioType, ConcentratorError>(RadioType::Sx1250),
        name@ == "SX1255"@ ==> r == Ok::<RadioType, ConcentratorError>(RadioType::Sx1255),
        name@ == "SX1257"@ ==> r == Ok::<RadioType, ConcentratorError>(RadioType::Sx1257),
        name@ == "SX1272"@ ==> r == Ok::<RadioType, ConcentratorError>(RadioType::Sx1272),
        name@ == "SX1276"@ ==> r == Ok::<RadioType, ConcentratorError>(RadioType::Sx1276),
        name@ != "SX1250"@ && name@ != "SX1255"@ && name@ != "SX1257"@ && name@ != "SX1272"@ && name@
            != "SX1276"@ ==> r == Err::<RadioType, ConcentratorError>(ConcentratorError::UnexpectedRadioType),
{
    proof {
        reveal_strlit("SX1250");
        reveal_strlit("SX1255");
        reveal_strlit("SX1257");
        reveal_strlit("SX1272");
        reveal_strlit("SX1276");
        assert("SX1250"@[5] != "SX1255"@[5]);
        assert("SX1250"@[5] != "SX1257"@[5]);
        assert("SX1250"@[4] != "SX1272"@[4]);
        assert("SX1250"@[4] != "SX1276"@[4]);
        assert("SX1255"@[5] != "SX1257"@[5]);
        assert("SX1255"@[4] != "SX1272"@[4]);
        assert("SX1255"@[4] != "SX1276"@[4]);
        assert("SX1257"@[4] != "SX1272"@[4]);
        assert("SX1257"@[4] != "SX1276"@[4]);
        assert("SX1272"@[5] != "SX1276"@[5]);
    }
    let s = String::from_str(name);
    if s == String::from_str("SX1250") {
        Ok(RadioType::Sx1250)
    } else if s == String::from_str("SX1255") {
        Ok(RadioType::Sx1255)
    } else if s == String::from_str("SX1257") {
        Ok(RadioType::Sx1257)
    } else if s == String::from_str("SX1272") {
        Ok(RadioType::Sx1272)
    } else if s == String::from_str("SX1276") {
        Ok(RadioType::Sx1276)
    } else {
        Err(ConcentratorError::UnexpectedRadioType)
    }
}

/// How the concentrator is reached.
#[derive(Debug, Clone, Copy, PartialEq, Eq, Structural)]
pub enum ComType {
    Spi,
    Usb,
}

/// Board settings handed to the concentrator.
pub struct BoardConfig {
    pub lorawan_public: bool,
    pub clksrc: u8,
    pub full_duplex: bool,
    pub com_type: ComType,
    /// Path of the communication device, NUL-terminated.
    pub com_path: [u8; 64],
}

/// The communication device of a mapping: the USB device where one is
/// given, else the SPI device.
pub open spec fn com_device(m: Mapping) -> String {
    if m.com_dev_usb@.len() == 0 {
        m.com_dev_spi
    } else {
        m.com_dev_usb
    }
}

/// Whether the device path of mapping `m`, with its terminating NUL, fits in
/// 64 bytes.
pub open spec fn com_path_fits(m: Mapping) -> bool {
    vstd::utf8::encode_utf8(com_device(m)@).len() + 1 <= 64
}

/// Whether `b` holds the board settings of a board with concentrator
/// settings `c` and mapping `m`: the public LoRaWAN sync word, the
/// concentrator's clock source and duplex mode, and the communication
/// device of the mapping as a NUL-padded path.
pub open spec fn is_board_config(c: Concentrator, m: Mapping, b: BoardConfig) -> bool {
    let path = vstd::utf8::encode_utf8(com_device(m)@);
    &&& b.lorawan_public
    &&& b.clksrc == c.clock_source
    &&& b.full_duplex == c.full_duplex
    &&& b.com_type == (if m.com_dev_usb@.len() == 0 {
        ComType::Spi
    } else {
        ComType::Usb
    })
    &&& forall|i: int|
        0 <= i < 64 ==> #[trigger] b.com_path@[i] == if i < path.len() {
            path[i]
        } else {
            0u8
        }
}

/// Board settings of a board with the given concentrator settings and
/// mapping. The device path with its terminating NUL must fit in 64 bytes.
pub fn board_config(concentrator: &Concentrator, mapping: &Mapping) -> (r: Result<BoardConfig, ConcentratorError>)
    ensures
        match r {
            Err(e) => e == ConcentratorError::ComPathTooLong && !com_path_fits(*mapping),
            Ok(b) => com_path_fits(*mapping) && is_board_config(*concentrator, *mapping, b),
        },
{
    let usb = mapping.com_dev_usb.as_str().is_empty();
    let com_type = if usb {
        ComType::Spi
    } else {
        ComType::Usb
    };
    let path: &str = if usb {
        mapping.com_dev_spi.as_str()
    } else {
        mapping.com_dev_usb.as_str()
    };
    let bytes = path.as_bytes();
    if bytes.len() > 63 {
        return Err(ConcentratorError::ComPathTooLong);
    }
    let mut com_path = [0u8; 64];
    let mut i: usize = 0;
    while i < bytes.len()
        invariant
            bytes@.len() + 1 <= 64,
            i <= bytes@.len(),
            com_path@.len() == 64,
            forall|j: int| 0 <= j < i ==> com_path@[j] == bytes@[j],
            forall|j: int| i <= j < 64 ==> com_path@[j] == 0u8,
        decreases bytes@.len() - i,
    {
        com_path[i] = bytes[i];
        i += 1;
    }
    Ok(
        BoardConfig {
            lorawan_public: true,
            clksrc: concentrator.clock_source,
            full_duplex: concentrator.full_duplex,
            com_type,
            com_path,
        },
    )
}

/// The first mapping of `mappings` named `name`.
pub open spec fn mapping_named(mappings: Seq<(String, Mapping)>, name: Seq<char>) -> Option<Mapping>
    decreases mappings.len(),
{
    if mappings.len() == 0 {
        None
    } else if mappings[0].0@ == name {
        Some(mappings[0].1)
    } else {
        mapping_named(mappings.drop_first(), name)
    }
}

/// Why a board's settings cannot be had.
#[derive(Debug, Clone, Copy, PartialEq, Eq, Structural)]
pub enum BoardSettingsError {
    /// The board has no mapping of the configured name.
    UnknownMapping,
    /// The mapping's device path does not fit in 64 bytes.
    ComPathTooLong,
}

/// The board settings of a board with concentrator settings `concentrator`
/// for its mapping named `board_mapping` (of `mappings`, by name).
pub fn board_settings(
    concentrator: &Concentrator,
    mappings: &Vec<(String, Mapping)>,
    board_mapping: &str,
) -> (r: Result<BoardConfig, BoardSettingsError>)
    ensures
        match mapping_named(mappings@, board_mapping@) {
            None => r == Err::<BoardConfig, BoardSettingsError>(BoardSettingsError::UnknownMapping),
            Some(m) => match r {
                Err(e) => e == BoardSettingsError::ComPathTooLong && !com_path_fits(m),
                Ok(b) => com_path_fits(m) && is_board_config(*concentrator, m, b),
            },
        },
{
    let name = String::from_str(board_mapping);
    let mut i: usize = 0;
    assert(mappings@.subrange(0, mappings@.len() as int) =~= mappings@);
    while i < mappings.len()
        invariant
            i <= mappings@.len(),
            name@ == board_mapping@,
            mapping_named(mappings@.subrange(i as int, mappings@.len() as int), board_mapping@)
                == mapping_named(mappings@, board_mapping@),
        decreases mappings@.len() - i,
    {
        let ghost rest = mappings@.subrange(i as int, mappings@.len() as int);
        assert(rest[0] == mappings@[i as int]);
        if mappings[i].0 == name {
            return match board_config(concentrator, &mappings[i].1) {
                Ok(b) => Ok(b),
                Err(_) => Err(BoardSettingsError::ComPathTooLong),
            };
        }
        assert(rest.drop_first() =~= mappings@.subrange(i + 1, mappings@.len() as int));
        i += 1;
    }
    Err(BoardSettingsError::UnknownMapping)
}

/// Whether the concentrator is reset through a GPIO line before it starts:
/// only SPI boards with a reset chip are.
pub fn uses_reset_line(mapping: &Mapping) -> (r: bool)
    ensures
        r == uses_reset_line_spec(*mapping),
{
    !mapping.com_dev_spi.as_str().is_empty() && !mapping.reset_chip.as_str().is_empty()
}

/// A GPIO line driven to reset the concentrator: its chip and line, the
/// level that resets (`active`) and how long it is held (ms; 0: the line
/// stays at that level).
#[derive(Debug)]
pub struct ResetLine {
    pub chip: String,
    pub line: u32,
    pub active: bool,
    pub duration_ms: u64,
}

/// One step of a reset sequence, on the line at `index` of the sequence.
#[derive(Debug, Clone, Copy, PartialEq, Eq, Structural)]
pub enum ResetStep {
    /// Take the line as an output at level `active`.
    Request { index: usize, active: bool },
    /// Drive the line to level `active`.
    Drive { index: usize, active: bool },
    /// Wait this many milliseconds.
    SleepMs(u64),
}

/// The reset lines of a board mapping: an SPI board with a reset chip is
/// reset through its reset pin, held active for 100 ms; other boards have
/// none.
pub fn reset_lines(mapping: &Mapping) -> (r: Vec<ResetLine>)
    ensures
        uses_reset_line_spec(*mapping) ==> r@.len() == 1 && r@[0].chip@ == mapping.reset_chip@ && r@[0].line
            == mapping.reset_pin && r@[0].active && r@[0].duration_ms == 100,
        !uses_reset_line_spec(*mapping) ==> r@.len() == 0,
{
    let mut r: Vec<ResetLine> = Vec::new();
    if uses_reset_line(mapping) {
        r.push(
            ResetLine {
                chip: String::from_str(mapping.reset_chip.as_str()),
                line: mapping.reset_pin,
                active: true,
                duration_ms: 100,
            },
        );
    }
    r
}

/// Whether the concentrator is reset through a GPIO line (see
/// `uses_reset_line`).
pub open spec fn uses_reset_line_spec(mapping: Mapping) -> bool {
    mapping.com_dev_spi@.len() != 0 && mapping.reset_chip@.len() != 0
}

/// Steps that take reset line `l` (at `index`): as an output at the level
/// that does not reset, then a pause of 100 ms.
pub open spec fn line_setup_steps(l: ResetLine, index: int) -> Seq<ResetStep> {
    seq![ResetStep::Request { index: index as usize, active: !l.active }, ResetStep::SleepMs(100)]
}

/// Steps that reset through line `l` (at `index`): drive it to its reset
/// level; where it has a duration, hold it, release it and wait as long
/// again; else leave it there and wait 100 ms.
pub open spec fn line_reset_steps(l: ResetLine, index: int) -> Seq<ResetStep> {
    if l.duration_ms != 0 {
        seq![
            ResetStep::Drive { index: index as usize, active: l.active },
            ResetStep::SleepMs(l.duration_ms),
            ResetStep::Drive { index: index as usize, active: !l.active },
            ResetStep::SleepMs(l.duration_ms),
        ]
    } else {
        seq![ResetStep::Drive { index: index as usize, active: l.active }, ResetStep::SleepMs(100)]
    }
}

/// The setup steps of the lines, one line after the other.
pub open spec fn setup_plan(lines: Seq<ResetLine>) -> Seq<ResetStep>
    decreases lines.len(),
{
    if lines.len() == 0 {
        Seq::empty()
    } else {
        setup_plan(lines.drop_last()) + line_setup_steps(lines.last(), lines.len() - 1)
    }
}

/// The reset steps of the lines, one line after the other.
pub open spec fn reset_plan(lines: Seq<ResetLine>) -> Seq<ResetStep>
    decreases lines.len(),
{
    if lines.len() == 0 {
        Seq::empty()
    } else {
        reset_plan(lines.drop_last()) + line_reset_steps(lines.last(), lines.len() - 1)
    }
}

/// The steps that take the reset lines.
pub fn reset_setup(lines: &Vec<ResetLine>) -> (r: Vec<ResetStep>)
    ensures
        r@ == setup_plan(lines@),
{
    let mut out: Vec<ResetStep> = Vec::new();
    let mut i: usize = 0;
    while i < lines.len()
        invariant
            i <= lines@.len(),
            out@ == setup_plan(lines@.take(i as int)),
        decreases lines@.len() - i,
    {
        let ghost before = out@;
        out.push(ResetStep::Request { index: i, active: !lines[i].active });
        out.push(ResetStep::SleepMs(100));
        proof {
            let t = lines@.take(i + 1);
            assert(t.drop_last() =~= lines@.take(i as int));
            assert(t.last() == lines@[i as int]);
            assert(out@ =~= before + line_setup_steps(lines@[i as int], i as int));
        }
        i += 1;
    }
    assert(lines@.take(lines@.len() as int) =~= lines@);
    out
}

/// The steps of a reset, through each line in turn.
pub fn reset_sequence(lines: &Vec<ResetLine>) -> (r: Vec<ResetStep>)
    ensures
        r@ == reset_plan(lines@),
{
    let mut out: Vec<ResetStep> = Vec::new();
    let mut i: usize = 0;
    while i < lines.len()
        invariant
            i <= lines@.len(),
            out@ == reset_plan(lines@.take(i as int)),
        decreases lines@.len() - i,
    {
        let ghost before = out@;
        let l = &lines[i];
        out.push(ResetStep::Drive { index: i, active: l.active });
        if l.duration_ms != 0 {
            out.push(ResetStep::SleepMs(l.duration_ms));
            out.push(ResetStep::Drive { index: i, active: !l.active });
            out.push(ResetStep::SleepMs(l.duration_ms));
        } else {
            out.push(ResetStep::SleepMs(100));
        }
        proof {
            let t = lines@.take(i + 1);
            assert(t.drop_last() =~= lines@.take(i as int));
            assert(t.last() == lines@[i as int]);
            assert(out@ =~= before + line_reset_steps(lines@[i as int], i as int));
        }
        i += 1;
    }
    assert(lines@.take(lines@.len() as int) =~= lines@);
    out
}

/// Whether radio `i` is enabled at start: radio 0, and the radio that
/// provides the clock.
pub fn radio_enabled_at_start(i: usize, clock_source: u8) -> (r: bool)
    ensures
        r == (i == 0 || i == clock_source as usize),
{
    i == 0 || i == clock_source as usize
}


/// Radio back-ends the gateway drives.
#[derive(Debug, Clone, Copy, PartialEq, Eq, Structural)]
pub enum RadioBackend {
    SemtechSx1302,
}

/// Why no radio back-end matches the configuration.
#[derive(Debug, Clone, Copy, PartialEq, Eq, Structural)]
pub enum RadioSelectError {
    UnknownChipsetVendor,
    UnknownChipset,
}

/// The radio back-end for chipset `chipset` of vendor `chipset_vendor`.
pub fn select_radio(chipset_vendor: &str, chipset: &str) -> (r: Result<RadioBackend, RadioSelectError>)
    ensures
        chipset_vendor@ != "semtech"@ ==> r == Err::<RadioBackend, RadioSelectError>(
            RadioSelectError::UnknownChipsetVendor,
        ),
        chipset_vendor@ == "semtech"@ && chipset@ != "sx1302"@ ==> r == Err::<RadioBackend, RadioSelectError>(
            RadioSelectError::UnknownChipset,
        ),
        chipset_vendor@ == "semtech"@ && chipset@ == "sx1302"@ ==> r == Ok::<RadioBackend, RadioSelectError>(
            RadioBackend::SemtechSx1302,
        ),
{
    if String::from_str(chipset_vendor) != String::from_str("semtech") {
        return Err(RadioSelectError::UnknownChipsetVendor);
    }
    if String::from_str(chipset) != String::from_str("sx1302") {
        return Err(RadioSelectError::UnknownChipset);
    }
    Ok(RadioBackend::SemtechSx1302)
}

} // verus!
