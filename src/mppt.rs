//! The measurement frame of a VE.Direct charge controller and the meaning of
//! each of its text records.
use crate::number::{i32_text, parse_i32, parse_unsigned, unsigned_text};
use vstd::prelude::*;
use vstd::utf8::decode_utf8;
use vstd::utf8::valid_utf8;

verus! {

/// Operating state (`CS`).
#[derive(Clone, Copy, Debug, PartialEq, Eq, Structural)]
pub enum StateOfOperation {
    Off,
    LowPower,
    Fault,
    Bulk,
    Absorption,
    Float,
    Storage,
    Equalize,
    Inverting,
    PowerSupply,
    StartingUp,
    RepeatedAbsorption,
    AutoEqualize,
    BatterySafe,
    ExternalControl,
}

/// The operating state with code `val`, if the code is known.
pub open spec fn state_of_operation(val: u32) -> Option<StateOfOperation> {
    if val == 0 {
        Some(StateOfOperation::Off)
    } else if val == 1 {
        Some(StateOfOperation::LowPower)
    } else if val == 2 {
        Some(StateOfOperation::Fault)
    } else if val == 3 {
        Some(StateOfOperation::Bulk)
    } else if val == 4 {
        Some(StateOfOperation::Absorption)
    } else if val == 5 {
        Some(StateOfOperation::Float)
    } else if val == 6 {
        Some(StateOfOperation::Storage)
    } else if val == 7 {
        Some(StateOfOperation::Equalize)
    } else if val == 9 {
        Some(StateOfOperation::Inverting)
    } else if val == 11 {
        Some(StateOfOperation::PowerSupply)
    } else if val == 245 {
        Some(StateOfOperation::StartingUp)
    } else if val == 246 {
        Some(StateOfOperation::RepeatedAbsorption)
    } else if val == 247 {
        Some(StateOfOperation::AutoEqualize)
    } else if val == 248 {
        Some(StateOfOperation::BatterySafe)
    } else if val == 252 {
        Some(StateOfOperation::ExternalControl)
    } else {
        None
    }
}

impl StateOfOperation {
    pub fn from_u32(val: u32) -> (r: Option<Self>)
        ensures
            r == state_of_operation(val),
    {
        match val {
            0 => Some(StateOfOperation::Off),
            1 => Some(StateOfOperation::LowPower),
            2 => Some(StateOfOperation::Fault),
            3 => Some(StateOfOperation::Bulk),
            4 => Some(StateOfOperation::Absorption),
            5 => Some(StateOfOperation::Float),
            6 => Some(StateOfOperation::Storage),
            7 => Some(StateOfOperation::Equalize),
            9 => Some(StateOfOperation::Inverting),
            11 => Some(StateOfOperation::PowerSupply),
            245 => Some(StateOfOperation::StartingUp),
            246 => Some(StateOfOperation::RepeatedAbsorption),
            247 => Some(StateOfOperation::AutoEqualize),
            248 => Some(StateOfOperation::BatterySafe),
            252 => Some(StateOfOperation::ExternalControl),
            _ => None,
        }
    }
}

/// Error code (`ERR`).
#[derive(Clone, Copy, Debug, PartialEq, Eq, Structural)]
pub enum ErrorCode {
    NoError,
    BatteryVoltageHigh,
    ChargerTemperatureHigh,
    ChargerCurrentHigh,
    ChargerCurrentReversed,
    BulkTimeLimit,
    CurrentSensor,
    TerminalTemperatureHigh,
    Converter,
    InputVoltageHigh,
    InputCurrentHigh,
    InputShutdownDueToBatteryVoltage,
    InputShutdownDueToCurrentFlowWhileOff,
    LostCommunication,
    SynchronizedChargingConfiguration,
    BmsConnectionLost,
    NetworkMisconfigured,
    FactoryCalibrationDataLost,
    InvalidFirmware,
    InvalidUserSettings,
}

/// The error with code `val`, if the code is known.
pub open spec fn error_code(val: u32) -> Option<ErrorCode> {
    if val == 0 {
        Some(ErrorCode::NoError)
    } else if val == 2 {
        Some(ErrorCode::BatteryVoltageHigh)
    } else if val == 17 {
        Some(ErrorCode::ChargerTemperatureHigh)
    } else if val == 18 {
        Some(ErrorCode::ChargerCurrentHigh)
    } else if val == 19 {
        Some(ErrorCode::ChargerCurrentReversed)
    } else if val == 20 {
        Some(ErrorCode::BulkTimeLimit)
    } else if val == 21 {
        Some(ErrorCode::CurrentSensor)
    } else if val == 26 {
        Some(ErrorCode::TerminalTemperatureHigh)
    } else if val == 28 {
        Some(ErrorCode::Converter)
    } else if val == 33 {
        Some(ErrorCode::InputVoltageHigh)
    } else if val == 34 {
        Some(ErrorCode::InputCurrentHigh)
    } else if val == 38 {
        Some(ErrorCode::InputShutdownDueToBatteryVoltage)
    } else if val == 39 {
        Some(ErrorCode::InputShutdownDueToCurrentFlowWhileOff)
    } else if val == 65 {
        Some(ErrorCode::LostCommunication)
    } else if val == 66 {
        Some(ErrorCode::SynchronizedChargingConfiguration)
    } else if val == 67 {
        Some(ErrorCode::BmsConnectionLost)
    } else if val == 68 {
        Some(ErrorCode::NetworkMisconfigured)
    } else if val == 116 {
        Some(ErrorCode::FactoryCalibrationDataLost)
    } else if val == 117 {
        Some(ErrorCode::InvalidFirmware)
    } else if val == 119 {
        Some(ErrorCode::InvalidUserSettings)
    } else {
        None
    }
}

impl ErrorCode {
    pub fn from_u32(val: u32) -> (r: Option<ErrorCode>)
        ensures
            r == error_code(val),
    {
        match val {
            0 => Some(ErrorCode::NoError),
            2 => Some(ErrorCode::BatteryVoltageHigh),
            17 => Some(ErrorCode::ChargerTemperatureHigh),
            18 => Some(ErrorCode::ChargerCurrentHigh),
            19 => Some(ErrorCode::ChargerCurrentReversed),
            20 => Some(ErrorCode::BulkTimeLimit),
            21 => Some(ErrorCode::CurrentSensor),
            26 => Some(ErrorCode::TerminalTemperatureHigh),
            28 => Some(ErrorCode::Converter),
            33 => Some(ErrorCode::InputVoltageHigh),
            34 => Some(ErrorCode::InputCurrentHigh),
            38 => Some(ErrorCode::InputShutdownDueToBatteryVoltage),
            39 => Some(ErrorCode::InputShutdownDueToCurrentFlowWhileOff),
            65 => Some(ErrorCode::LostCommunication),
            66 => Some(ErrorCode::SynchronizedChargingConfiguration),
            67 => Some(ErrorCode::BmsConnectionLost),
            68 => Some(ErrorCode::NetworkMisconfigured),
            116 => Some(ErrorCode::FactoryCalibrationDataLost),
            117 => Some(ErrorCode::InvalidFirmware),
            119 => Some(ErrorCode::InvalidUserSettings),
            _ => None,
        }
    }
}

/// Tracker state (`MPPT`).
#[derive(Clone, Copy, Debug, PartialEq, Eq, Structural)]
pub enum Mppt {
    Off,
    VoltageOrCurrentLimited,
    MpptTrackerActive,
}

/// The tracker state with code `val`, if the code is known.
pub open spec fn mppt_state(val: u32) -> Option<Mppt> {
    if val == 0 {
        Some(Mppt::Off)
    } else if val == 1 {
        Some(Mppt::VoltageOrCurrentLimited)
    } else if val == 2 {
        Some(Mppt::MpptTrackerActive)
    } else {
        None
    }
}

impl Mppt {
    pub fn from_u32(val: u32) -> (r: Option<Mppt>)
        ensures
            r == mppt_state(val),
    {
        match val {
            0 => Some(Mppt::Off),
            1 => Some(Mppt::VoltageOrCurrentLimited),
            2 => Some(Mppt::MpptTrackerActive),
            _ => None,
        }
    }
}

/// All bits that have a meaning in an off reason.
pub const OFF_REASON_ALL: u32 = 0x1ff;

/// Why the charger is off (`OR`): a set of nine named bits.
#[derive(Clone, Copy, Debug, PartialEq, Eq, Structural)]
pub struct OffReason {
    bits: u32,
}

impl View for OffReason {
    type V = u32;

    closed spec fn view(&self) -> u32 {
        self.bits
    }
}

impl OffReason {
    /// The off reason with exactly these bits, unless a bit without a meaning
    /// is set.
    pub fn from_bits(bits: u32) -> (r: Option<OffReason>)
        ensures
            r is Some <==> bits <= OFF_REASON_ALL,
            r matches Some(o) ==> o@ == bits,
    {
        if bits <= OFF_REASON_ALL {
            Some(OffReason { bits })
        } else {
            None
        }
    }

    pub fn bits(&self) -> (r: u32)
        ensures
            r == self@,
    {
        self.bits
    }
}


/// Readable name of the operating state.
pub open spec fn state_text(s: StateOfOperation) -> &'static str {
    match s {
        StateOfOperation::Off => "Off",
        StateOfOperation::LowPower => "Low Power",
        StateOfOperation::Fault => "Fault",
        StateOfOperation::Bulk => "Bulk",
        StateOfOperation::Absorption => "Absorption",
        StateOfOperation::Float => "Float",
        StateOfOperation::Storage => "Storage",
        StateOfOperation::Equalize => "Equalize",
        StateOfOperation::Inverting => "Inverting",
        StateOfOperation::PowerSupply => "Power Supply",
        StateOfOperation::StartingUp => "Starting Up",
        StateOfOperation::RepeatedAbsorption => "Repeated Absorption",
        StateOfOperation::AutoEqualize => "Auto Equalize",
        StateOfOperation::BatterySafe => "Battery Safe",
        StateOfOperation::ExternalControl => "External Control",
    }
}

impl StateOfOperation {
    /// Readable name of the operating state.
    pub fn text(&self) -> (r: &'static str)
        ensures
            r == state_text(*self),
    {
        match self {
            StateOfOperation::Off => "Off",
            StateOfOperation::LowPower => "Low Power",
            StateOfOperation::Fault => "Fault",
            StateOfOperation::Bulk => "Bulk",
            StateOfOperation::Absorption => "Absorption",
            StateOfOperation::Float => "Float",
            StateOfOperation::Storage => "Storage",
            StateOfOperation::Equalize => "Equalize",
            StateOfOperation::Inverting => "Inverting",
            StateOfOperation::PowerSupply => "Power Supply",
            StateOfOperation::StartingUp => "Starting Up",
            StateOfOperation::RepeatedAbsorption => "Repeated Absorption",
            StateOfOperation::AutoEqualize => "Auto Equalize",
            StateOfOperation::BatterySafe => "Battery Safe",
            StateOfOperation::ExternalControl => "External Control",
        }
    }
}

/// Readable name of the error.
pub open spec fn error_text(s: ErrorCode) -> &'static str {
    match s {
        ErrorCode::NoError => "No Error",
        ErrorCode::BatteryVoltageHigh => "Battery Voltage High",
        ErrorCode::ChargerTemperatureHigh => "Charger Temperature High",
        ErrorCode::ChargerCurrentHigh => "Charger Current High",
        ErrorCode::ChargerCurrentReversed => "Charger Current Reversed",
        ErrorCode::BulkTimeLimit => "Bulk Time Limit",
        ErrorCode::CurrentSensor => "Current Sensor",
        ErrorCode::TerminalTemperatureHigh => "Terminal Temperature High",
        ErrorCode::Converter => "Converter",
        ErrorCode::InputVoltageHigh => "Input Voltage High",
        ErrorCode::InputCurrentHigh => "Input Current High",
        ErrorCode::InputShutdownDueToBatteryVoltage => "Input Shutdown Due To Battery Voltage",
        ErrorCode::InputShutdownDueToCurrentFlowWhileOff => "Input Shutdown Due To Current Flow While Off",
        ErrorCode::LostCommunication => "Lost Communication",
        ErrorCode::SynchronizedChargingConfiguration => "Synchronized Charging Configuration",
        ErrorCode::BmsConnectionLost => "Bms Connection Lost",
        ErrorCode::NetworkMisconfigured => "Network Misconfigured",
        ErrorCode::FactoryCalibrationDataLost => "Factory Calibration Data Lost",
        ErrorCode::InvalidFirmware => "Invalid Firmware",
        ErrorCode::InvalidUserSettings => "Invalid User Settings",
    }
}

impl ErrorCode {
    /// Readable name of the error.
    pub fn text(&self) -> (r: &'static str)
        ensures
            r == error_text(*self),
    {
        match self {
            ErrorCode::NoError => "No Error",
            ErrorCode::BatteryVoltageHigh => "Battery Voltage High",
            ErrorCode::ChargerTemperatureHigh => "Charger Temperature High",
            ErrorCode::ChargerCurrentHigh => "Charger Current High",
            ErrorCode::ChargerCurrentReversed => "Charger Current Reversed",
            ErrorCode::BulkTimeLimit => "Bulk Time Limit",
            ErrorCode::CurrentSensor => "Current Sensor",
            ErrorCode::TerminalTemperatureHigh => "Terminal Temperature High",
            ErrorCode::Converter => "Converter",
            ErrorCode::InputVoltageHigh => "Input Voltage High",
            ErrorCode::InputCurrentHigh => "Input Current High",
            ErrorCode::InputShutdownDueToBatteryVoltage => "Input Shutdown Due To Battery Voltage",
            ErrorCode::InputShutdownDueToCurrentFlowWhileOff => "Input Shutdown Due To Current Flow While Off",
            ErrorCode::LostCommunication => "Lost Communication",
            ErrorCode::SynchronizedChargingConfiguration => "Synchronized Charging Configuration",
            ErrorCode::BmsConnectionLost => "Bms Connection Lost",
            ErrorCode::NetworkMisconfigured => "Network Misconfigured",
            ErrorCode::FactoryCalibrationDataLost => "Factory Calibration Data Lost",
            ErrorCode::InvalidFirmware => "Invalid Firmware",
            ErrorCode::InvalidUserSettings => "Invalid User Settings",
        }
    }
}

pub const NO_INPUT_POWER: u32 = 0x0001;
pub const SWITCHED_OFF_POWER_SWITCH: u32 = 0x0002;
pub const SWITCHED_OFF_REGISTER: u32 = 0x0004;
pub const REMOTE_INPUT: u32 = 0x0008;
pub const PROTECTION_ACTIVE: u32 = 0x0010;
pub const PAYGO: u32 = 0x0020;
pub const BMS: u32 = 0x0040;
pub const ENGINE_SHUTDOWN_DETECTION: u32 = 0x0080;
pub const ANALYSING_INPUT_VOLTAGE: u32 = 0x0100;

impl OffReason {
    /// Whether every bit of `flags` (one or more of the named bits) is set.
    pub fn contains(&self, flags: u32) -> (r: bool)
        ensures
            r == (self@ & flags == flags),
    {
        self.bits & flags == flags
    }
}

/// One decoded block of the text protocol. A field is present only when its
/// record was in the block and its value could be read.
#[derive(Clone, Debug)]
pub struct MpptFrame {
    /// Capture time, in milliseconds since the Unix epoch.
    pub timestamp: Option<u64>,
    /// `V`: battery voltage in millivolts.
    pub battery_voltage: Option<u32>,
    /// `VPV`: panel voltage in millivolts.
    pub panel_voltage: Option<u32>,
    /// `PPV`: panel power in watts.
    pub panel_power: Option<u16>,
    /// `I`: battery current in milliamperes; positive while charging.
    pub battery_current: Option<i32>,
    /// `IL`: load current in milliamperes.
    pub load_current: Option<i32>,
    /// `LOAD`: whether the load output is on.
    pub load_state: Option<bool>,
    /// `RELAY`: whether the relay is on.
    pub relay_state: Option<bool>,
    /// `OR`: off reason.
    pub off_reason: Option<OffReason>,
    /// `H19`: yield total in watt-hours (the wire counts tens).
    pub yield_total: Option<u64>,
    /// `H20`: yield today in watt-hours (the wire counts tens).
    pub yield_today: Option<u32>,
    /// `H21`: maximum power today in watts.
    pub maximum_power_today: Option<u16>,
    /// `H22`: yield yesterday in watt-hours (the wire counts tens).
    pub yield_yesterday: Option<u32>,
    /// `H23`: maximum power yesterday in watts.
    pub maximum_power_yesterday: Option<u16>,
    /// `ERR`: error code.
    pub error: Option<ErrorCode>,
    /// `CS`: operating state.
    pub state: Option<StateOfOperation>,
    /// `FW`: firmware version.
    pub firmware_version: Option<String>,
    /// `PID`: product id.
    pub product_id: Option<u32>,
    /// `SER#`: serial number.
    pub serial_number: Option<String>,
    /// `HSDS`: day sequence number.
    pub day_number: Option<u16>,
    /// `MPPT`: tracker state.
    pub mppt_status: Option<Mppt>,
}

/// The content of an [`MpptFrame`], with text as characters and the off
/// reason as its bits.
pub ghost struct MpptFrameView {
    pub timestamp: Option<u64>,
    pub battery_voltage: Option<u32>,
    pub panel_voltage: Option<u32>,
    pub panel_power: Option<u16>,
    pub battery_current: Option<i32>,
    pub load_current: Option<i32>,
    pub load_state: Option<bool>,
    pub relay_state: Option<bool>,
    pub off_reason: Option<u32>,
    pub yield_total: Option<u64>,
    pub yield_today: Option<u32>,
    pub maximum_power_today: Option<u16>,
    pub yield_yesterday: Option<u32>,
    pub maximum_power_yesterday: Option<u16>,
    pub error: Option<ErrorCode>,
    pub state: Option<StateOfOperation>,
    pub firmware_version: Option<Seq<char>>,
    pub product_id: Option<u32>,
    pub serial_number: Option<Seq<char>>,
    pub day_number: Option<u16>,
    pub mppt_status: Option<Mppt>,
}

/// A frame with no field present.
pub open spec fn empty_frame() -> MpptFrameView {
    MpptFrameView {
        timestamp: None,
        battery_voltage: None,
        panel_voltage: None,
        panel_power: None,
        battery_current: None,
        load_current: None,
        load_state: None,
        relay_state: None,
        off_reason: None,
        yield_total: None,
        yield_today: None,
        maximum_power_today: None,
        yield_yesterday: None,
        maximum_power_yesterday: None,
        error: None,
        state: None,
        firmware_version: None,
        product_id: None,
        serial_number: None,
        day_number: None,
        mppt_status: None,
    }
}

impl View for MpptFrame {
    type V = MpptFrameView;

    open spec fn view(&self) -> MpptFrameView {
        MpptFrameView {
            timestamp: self.timestamp,
            battery_voltage: self.battery_voltage,
            panel_voltage: self.panel_voltage,
            panel_power: self.panel_power,
            battery_current: self.battery_current,
            load_current: self.load_current,
            load_state: self.load_state,
            relay_state: self.relay_state,
            off_reason: match self.off_reason {
                Some(o) => Some(o@),
                None => None,
            },
            yield_total: self.yield_total,
            yield_today: self.yield_today,
            maximum_power_today: self.maximum_power_today,
            yield_yesterday: self.yield_yesterday,
            maximum_power_yesterday: self.maximum_power_yesterday,
            error: self.error,
            state: self.state,
            firmware_version: match self.firmware_version {
                Some(s) => Some(s@),
                None => None,
            },
            product_id: self.product_id,
            serial_number: match self.serial_number {
                Some(s) => Some(s@),
                None => None,
            },
            day_number: self.day_number,
            mppt_status: self.mppt_status,
        }
    }
}

impl Default for MpptFrame {
    fn default() -> (r: MpptFrame)
        ensures
            r@ == empty_frame(),
    {
        MpptFrame {
            timestamp: None,
            battery_voltage: None,
            panel_voltage: None,
            panel_power: None,
            battery_current: None,
            load_current: None,
            load_state: None,
            relay_state: None,
            off_reason: None,
            yield_total: None,
            yield_today: None,
            maximum_power_today: None,
            yield_yesterday: None,
            maximum_power_yesterday: None,
            error: None,
            state: None,
            firmware_version: None,
            product_id: None,
            serial_number: None,
            day_number: None,
            mppt_status: None,
        }
    }
}

/// The record labels that a frame is built from.
#[derive(Clone, Copy, Debug, PartialEq, Eq, Structural)]
pub enum Label {
    V,
    Vpv,
    Ppv,
    I,
    Il,
    Load,
    Relay,
    Or,
    H19,
    H20,
    H21,
    H22,
    H23,
    Error,
    Cs,
    Fw,
    Pid,
    Ser,
    Hsds,
    Mppt,
    Checksum,
}

/// The label that upper-cased label text `u` names, if any.
pub open spec fn label_of(u: Seq<u8>) -> Option<Label> {
    if u == seq![0x56u8] {  // V
        Some(Label::V)
    } else if u == seq![0x56u8, 0x50, 0x56] {  // VPV
        Some(Label::Vpv)
    } else if u == seq![0x50u8, 0x50, 0x56] {  // PPV
        Some(Label::Ppv)
    } else if u == seq![0x49u8] {  // I
        Some(Label::I)
    } else if u == seq![0x49u8, 0x4c] {  // IL
        Some(Label::Il)
    } else if u == seq![0x4cu8, 0x4f, 0x41, 0x44] {  // LOAD
        Some(Label::Load)
    } else if u == seq![0x52u8, 0x45, 0x4c, 0x41, 0x59] {  // RELAY
        Some(Label::Relay)
    } else if u == seq![0x4fu8, 0x52] {  // OR
        Some(Label::Or)
    } else if u == seq![0x48u8, 0x31, 0x39] {  // H19
        Some(Label::H19)
    } else if u == seq![0x48u8, 0x32, 0x30] {  // H20
        Some(Label::H20)
    } else if u == seq![0x48u8, 0x32, 0x31] {  // H21
        Some(Label::H21)
    } else if u == seq![0x48u8, 0x32, 0x32] {  // H22
        Some(Label::H22)
    } else if u == seq![0x48u8, 0x32, 0x33] {  // H23
        Some(Label::H23)
    } else if u == seq![0x45u8, 0x52, 0x52] {  // ERR
        Some(Label::Error)
    } else if u == seq![0x43u8, 0x53] {  // CS
        Some(Label::Cs)
    } else if u == seq![0x46u8, 0x57] {  // FW
        Some(Label::Fw)
    } else if u == seq![0x50u8, 0x49, 0x44] {  // PID
        Some(Label::Pid)
    } else if u == seq![0x53u8, 0x45, 0x52, 0x23] {  // SER#
        Some(Label::Ser)
    } else if u == seq![0x48u8, 0x53, 0x44, 0x53] {  // HSDS
        Some(Label::Hsds)
    } else if u == seq![0x4du8, 0x50, 0x50, 0x54] {  // MPPT
        Some(Label::Mppt)
    } else if u == seq![0x43u8, 0x48, 0x45, 0x43, 0x4b, 0x53, 0x55, 0x4d] {  // CHECKSUM
        Some(Label::Checksum)
    } else {
        None
    }
}

/// The label that upper-cased label text `u` names, if any.
pub fn label_from(u: &[u8]) -> (r: Option<Label>)
    ensures
        r == label_of(u@),
{
    let n = u.len();
    if n == 1 {
        if u[0] == 0x56 {
            assert(u@ =~= seq![0x56u8]);  // V
            Some(Label::V)
        } else if u[0] == 0x49 {
            assert(u@ =~= seq![0x49u8]);  // I
            Some(Label::I)
        } else {
            None
        }
    } else if n == 2 {
        if u[0] == 0x49 && u[1] == 0x4c {
            assert(u@ =~= seq![0x49u8, 0x4c]);  // IL
            Some(Label::Il)
        } else if u[0] == 0x4f && u[1] == 0x52 {
            assert(u@ =~= seq![0x4fu8, 0x52]);  // OR
            Some(Label::Or)
        } else if u[0] == 0x43 && u[1] == 0x53 {
            assert(u@ =~= seq![0x43u8, 0x53]);  // CS
            Some(Label::Cs)
        } else if u[0] == 0x46 && u[1] == 0x57 {
            assert(u@ =~= seq![0x46u8, 0x57]);  // FW
            Some(Label::Fw)
        } else {
            None
        }
    } else if n == 3 {
        if u[0] == 0x56 && u[1] == 0x50 && u[2] == 0x56 {
            assert(u@ =~= seq![0x56u8, 0x50, 0x56]);  // VPV
            Some(Label::Vpv)
        } else if u[0] == 0x50 && u[1] == 0x50 && u[2] == 0x56 {
            assert(u@ =~= seq![0x50u8, 0x50, 0x56]);  // PPV
            Some(Label::Ppv)
        } else if u[0] == 0x48 && u[1] == 0x31 && u[2] == 0x39 {
            assert(u@ =~= seq![0x48u8, 0x31, 0x39]);  // H19
            Some(Label::H19)
        } else if u[0] == 0x48 && u[1] == 0x32 && u[2] == 0x30 {
            assert(u@ =~= seq![0x48u8, 0x32, 0x30]);  // H20
            Some(Label::H20)
        } else if u[0] == 0x48 && u[1] == 0x32 && u[2] == 0x31 {
            assert(u@ =~= seq![0x48u8, 0x32, 0x31]);  // H21
            Some(Label::H21)
        } else if u[0] == 0x48 && u[1] == 0x32 && u[2] == 0x32 {
            assert(u@ =~= seq![0x48u8, 0x32, 0x32]);  // H22
            Some(Label::H22)
        } else if u[0] == 0x48 && u[1] == 0x32 && u[2] == 0x33 {
            assert(u@ =~= seq![0x48u8, 0x32, 0x33]);  // H23
            Some(Label::H23)
        } else if u[0] == 0x45 && u[1] == 0x52 && u[2] == 0x52 {
            assert(u@ =~= seq![0x45u8, 0x52, 0x52]);  // ERR
            Some(Label::Error)
        } else if u[0] == 0x50 && u[1] == 0x49 && u[2] == 0x44 {
            assert(u@ =~= seq![0x50u8, 0x49, 0x44]);  // PID
            Some(Label::Pid)
        } else {
            None
        }
    } else if n == 4 {
        if u[0] == 0x4c && u[1] == 0x4f && u[2] == 0x41 && u[3] == 0x44 {
            assert(u@ =~= seq![0x4cu8, 0x4f, 0x41, 0x44]);  // LOAD
            Some(Label::Load)
        } else if u[0] == 0x53 && u[1] == 0x45 && u[2] == 0x52 && u[3] == 0x23 {
            assert(u@ =~= seq![0x53u8, 0x45, 0x52, 0x23]);  // SER#
            Some(Label::Ser)
        } else if u[0] == 0x48 && u[1] == 0x53 && u[2] == 0x44 && u[3] == 0x53 {
            assert(u@ =~= seq![0x48u8, 0x53, 0x44, 0x53]);  // HSDS
            Some(Label::Hsds)
        } else if u[0] == 0x4d && u[1] == 0x50 && u[2] == 0x50 && u[3] == 0x54 {
            assert(u@ =~= seq![0x4du8, 0x50, 0x50, 0x54]);  // MPPT
            Some(Label::Mppt)
        } else {
            None
        }
    } else if n == 5 {
        if u[0] == 0x52 && u[1] == 0x45 && u[2] == 0x4c && u[3] == 0x41 && u[4] == 0x59 {
            assert(u@ =~= seq![0x52u8, 0x45, 0x4c, 0x41, 0x59]);  // RELAY
            Some(Label::Relay)
        } else {
            None
        }
    } else if n == 8 {
        if u[0] == 0x43 && u[1] == 0x48 && u[2] == 0x45 && u[3] == 0x43 && u[4] == 0x4b && u[5]
            == 0x53 && u[6] == 0x55 && u[7] == 0x4d {
            assert(u@ =~= seq![0x43u8, 0x48, 0x45, 0x43, 0x4b, 0x53, 0x55, 0x4d]);  // CHECKSUM
            Some(Label::Checksum)
        } else {
            None
        }
    } else {
        None
    }
}


/// Decimal text of an unsigned value of at most `max`.
pub open spec fn decimal(v: Seq<u8>, max: nat) -> Option<nat> {
    unsigned_text(v, 10, max)
}

/// Hexadecimal text of a `u32` after a two-character prefix such as `0x`.
pub open spec fn prefixed_hex(v: Seq<u8>) -> Option<nat> {
    if v.len() >= 2 {
        unsigned_text(v.skip(2), 16, 0xffff_ffff)
    } else {
        None
    }
}

/// The value text `ON`.
pub open spec fn on_text() -> Seq<u8> {
    seq![0x4fu8, 0x4e]  // ON
}

/// The value text `OFF`.
pub open spec fn off_text() -> Seq<u8> {
    seq![0x4fu8, 0x46, 0x46]  // OFF
}

/// A switch state: `ON` or `OFF`.
pub open spec fn switch_state(v: Seq<u8>) -> Option<bool> {
    if v == on_text() {
        Some(true)
    } else if v == off_text() {
        Some(false)
    } else {
        None
    }
}

/// The frame after a record with label `l` and value text `v`; a value that
/// cannot be read leaves the frame as it was.
pub open spec fn apply_record(f: MpptFrameView, l: Label, v: Seq<u8>) -> MpptFrameView {
    match l {
        Label::V => match decimal(v, 0xffff_ffff) {
            Some(n) => MpptFrameView { battery_voltage: Some(n as u32), ..f },
            None => f,
        },
        Label::Vpv => match decimal(v, 0xffff_ffff) {
            Some(n) => MpptFrameView { panel_voltage: Some(n as u32), ..f },
            None => f,
        },
        Label::Ppv => match decimal(v, 0xffff) {
            Some(n) => MpptFrameView { panel_power: Some(n as u16), ..f },
            None => f,
        },
        Label::I => match i32_text(v) {
            Some(n) => MpptFrameView { battery_current: Some(n), ..f },
            None => f,
        },
        Label::Il => match i32_text(v) {
            Some(n) => MpptFrameView { load_current: Some(n), ..f },
            None => f,
        },
        Label::Load => match switch_state(v) {
            Some(b) => MpptFrameView { load_state: Some(b), ..f },
            None => f,
        },
        Label::Relay => match switch_state(v) {
            Some(b) => MpptFrameView { relay_state: Some(b), ..f },
            None => f,
        },
        Label::Or => match prefixed_hex(v) {
            Some(n) => if n <= OFF_REASON_ALL {
                MpptFrameView { off_reason: Some(n as u32), ..f }
            } else {
                f
            },
            None => f,
        },
        Label::H19 => match decimal(v, 0xffff_ffff) {
            Some(n) => MpptFrameView { yield_total: Some((n * 10) as u64), ..f },
            None => f,
        },
        Label::H20 => match decimal(v, 0xffff) {
            Some(n) => MpptFrameView { yield_today: Some((n * 10) as u32), ..f },
            None => f,
        },
        Label::H21 => match decimal(v, 0xffff) {
            Some(n) => MpptFrameView { maximum_power_today: Some(n as u16), ..f },
            None => f,
        },
        Label::H22 => match decimal(v, 0xffff) {
            Some(n) => MpptFrameView { yield_yesterday: Some((n * 10) as u32), ..f },
            None => f,
        },
        Label::H23 => match decimal(v, 0xffff) {
            Some(n) => MpptFrameView { maximum_power_yesterday: Some(n as u16), ..f },
            None => f,
        },
        Label::Error => match decimal(v, 0xffff_ffff) {
            Some(n) => match error_code(n as u32) {
                Some(e) => MpptFrameView { error: Some(e), ..f },
                None => f,
            },
            None => f,
        },
        Label::Cs => match decimal(v, 0xffff_ffff) {
            Some(n) => match state_of_operation(n as u32) {
                Some(s) => MpptFrameView { state: Some(s), ..f },
                None => f,
            },
            None => f,
        },
        Label::Fw => MpptFrameView { firmware_version: Some(decode_utf8(v)), ..f },
        Label::Pid => match prefixed_hex(v) {
            Some(n) => MpptFrameView { product_id: Some(n as u32), ..f },
            None => f,
        },
        Label::Ser => MpptFrameView { serial_number: Some(decode_utf8(v)), ..f },
        Label::Hsds => match decimal(v, 0xffff) {
            Some(n) => MpptFrameView { day_number: Some(n as u16), ..f },
            None => f,
        },
        Label::Mppt => match decimal(v, 0xffff_ffff) {
            Some(n) => match mppt_state(n as u32) {
                Some(m) => MpptFrameView { mppt_status: Some(m), ..f },
                None => f,
            },
            None => f,
        },
        Label::Checksum => f,
    }
}

/// Relies on `std::str::from_utf8`: the text that `v` encodes, when `v` is
/// valid UTF-8.
#[verifier::external_body]
pub(crate) fn utf8_text(v: &[u8]) -> (r: Option<&str>)
    ensures
        r is Some <==> valid_utf8(v@),
        r matches Some(s) ==> s@ == decode_utf8(v@),
{
    std::str::from_utf8(v).ok()
}

fn decimal_from(v: &[u8], max: u64) -> (r: Option<u64>)
    requires
        max <= 0xffff_ffff,
    ensures
        r == (match decimal(v@, max as nat) {
            Some(n) => Some(n as u64),
            None => None,
        }),
        r matches Some(n) ==> n <= max,
{
    assert(v@.skip(0) == v@);
    parse_unsigned(v, 0, 10, max)
}

fn prefixed_hex_from(v: &[u8]) -> (r: Option<u64>)
    ensures
        r == (match prefixed_hex(v@) {
            Some(n) => Some(n as u64),
            None => None,
        }),
        r matches Some(n) ==> n <= 0xffff_ffff,
{
    if v.len() >= 2 {
        parse_unsigned(v, 2, 16, 0xffff_ffff)
    } else {
        None
    }
}

fn switch_from(v: &[u8]) -> (r: Option<bool>)
    ensures
        r == switch_state(v@),
{
    if v.len() == 2 && v[0] == 0x4f && v[1] == 0x4e {
        assert(v@ =~= on_text());
        Some(true)
    } else if v.len() == 3 && v[0] == 0x4f && v[1] == 0x46 && v[2] == 0x46 {
        assert(v@ =~= off_text());
        Some(false)
    } else {
        assert(v@ != on_text() && v@ != off_text());
        None
    }
}

fn text_from(v: &[u8]) -> (r: Option<String>)
    requires
        valid_utf8(v@),
    ensures
        r matches Some(s) && s@ == decode_utf8(v@),
{
    match utf8_text(v) {
        Some(s) => Some(s.to_owned()),
        None => None,
    }
}

/// Stores the field that a record with label `l` and value text `v` carries.
pub fn apply(frame: &mut MpptFrame, l: Label, v: &[u8])
    requires
        valid_utf8(v@),
    ensures
        final(frame)@ == apply_record(old(frame)@, l, v@),
{
    match l {
        Label::V => if let Some(n) = decimal_from(v, 0xffff_ffff) {
            frame.battery_voltage = Some(n as u32);
        },
        Label::Vpv => if let Some(n) = decimal_from(v, 0xffff_ffff) {
            frame.panel_voltage = Some(n as u32);
        },
        Label::Ppv => if let Some(n) = decimal_from(v, 0xffff) {
            frame.panel_power = Some(n as u16);
        },
        Label::I => if let Some(n) = parse_i32(v) {
            frame.battery_current = Some(n);
        },
        Label::Il => if let Some(n) = parse_i32(v) {
            frame.load_current = Some(n);
        },
        Label::Load => if let Some(b) = switch_from(v) {
            frame.load_state = Some(b);
        },
        Label::Relay => if let Some(b) = switch_from(v) {
            frame.relay_state = Some(b);
        },
        Label::Or => if let Some(n) = prefixed_hex_from(v) {
            if let Some(o) = OffReason::from_bits(n as u32) {
                frame.off_reason = Some(o);
            }
        },
        Label::H19 => if let Some(n) = decimal_from(v, 0xffff_ffff) {
            frame.yield_total = Some(n * 10);
        },
        Label::H20 => if let Some(n) = decimal_from(v, 0xffff) {
            frame.yield_today = Some((n * 10) as u32);
        },
        Label::H21 => if let Some(n) = decimal_from(v, 0xffff) {
            frame.maximum_power_today = Some(n as u16);
        },
        Label::H22 => if let Some(n) = decimal_from(v, 0xffff) {
            frame.yield_yesterday = Some((n * 10) as u32);
        },
        Label::H23 => if let Some(n) = decimal_from(v, 0xffff) {
            frame.maximum_power_yesterday = Some(n as u16);
        },
        Label::Error => if let Some(n) = decimal_from(v, 0xffff_ffff) {
            if let Some(e) = ErrorCode::from_u32(n as u32) {
                frame.error = Some(e);
            }
        },
        Label::Cs => if let Some(n) = decimal_from(v, 0xffff_ffff) {
            if let Some(s) = StateOfOperation::from_u32(n as u32) {
                frame.state = Some(s);
            }
        },
        Label::Fw => {
            frame.firmware_version = text_from(v);
        },
        Label::Pid => if let Some(n) = prefixed_hex_from(v) {
            frame.product_id = Some(n as u32);
        },
        Label::Ser => {
            frame.serial_number = text_from(v);
        },
        Label::Hsds => if let Some(n) = decimal_from(v, 0xffff) {
            frame.day_number = Some(n as u16);
        },
        Label::Mppt => if let Some(n) = decimal_from(v, 0xffff_ffff) {
            if let Some(m) = Mppt::from_u32(n as u32) {
                frame.mppt_status = Some(m);
            }
        },
        Label::Checksum => {},
    }
}

} // verus!
