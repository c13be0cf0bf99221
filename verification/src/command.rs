//! Command, virtual-string and virtual-register identifiers of the device protocol.
use vstd::prelude::*;

verus! {

/// A request the device understands.
#[derive(Debug, Clone, Copy, PartialEq, Eq, Structural)]
pub enum Command {
    GetStatus,
    SetExchange,
    GetVersion,
    GetSerial,
    FwSignature,
    RdVirtSfr,
    WrVirtSfr,
    RdVirtString,
    WrVirtString,
    RdVirtSfrBatch,
    WrVirtSfrBatch,
    SetTime,
}

/// The code that identifies each Command value on the wire.
pub open spec fn command_code(value: Command) -> u16 {
    match value {
        Command::GetStatus => 0x0005,
        Command::SetExchange => 0x0007,
        Command::GetVersion => 0x000A,
        Command::GetSerial => 0x000B,
        Command::FwSignature => 0x0101,
        Command::RdVirtSfr => 0x0824,
        Command::WrVirtSfr => 0x0825,
        Command::RdVirtString => 0x0826,
        Command::WrVirtString => 0x0827,
        Command::RdVirtSfrBatch => 0x082A,
        Command::WrVirtSfrBatch => 0x082B,
        Command::SetTime => 0x0A04,
    }
}

impl Command {
    /// The code that identifies this value on the wire.
    pub fn code(self) -> (c: u16)
        ensures
            c == command_code(self),
    {
        match self {
            Command::GetStatus => 0x0005,
            Command::SetExchange => 0x0007,
            Command::GetVersion => 0x000A,
            Command::GetSerial => 0x000B,
            Command::FwSignature => 0x0101,
            Command::RdVirtSfr => 0x0824,
            Command::WrVirtSfr => 0x0825,
            Command::RdVirtString => 0x0826,
            Command::WrVirtString => 0x0827,
            Command::RdVirtSfrBatch => 0x082A,
            Command::WrVirtSfrBatch => 0x082B,
            Command::SetTime => 0x0A04,
        }
    }
}

impl From<Command> for u16 {
    fn from(value: Command) -> (code: u16) {
        value.code()
    }
}

impl vstd::std_specs::convert::FromSpecImpl<Command> for u16 {
    open spec fn obeys_from_spec() -> bool {
        true
    }

    open spec fn from_spec(v: Command) -> u16 {
        command_code(v)
    }
}

/// A virtual string (a readable or writable blob) of the device.
#[derive(Debug, Clone, Copy, PartialEq, Eq, Structural)]
pub enum VirtString {
    Configuration,
    SerialNumber,
    TextMessage,
    DataBuf,
    SfrFile,
    Spectrum,
    EnergyCalib,
    SpecAccum,
}

/// The code that identifies each VirtString value on the wire.
pub open spec fn virt_string_code(value: VirtString) -> u32 {
    match value {
        VirtString::Configuration => 0x0002,
        VirtString::SerialNumber => 0x0008,
        VirtString::TextMessage => 0x000F,
        VirtString::DataBuf => 0x0100,
        VirtString::SfrFile => 0x0101,
        VirtString::Spectrum => 0x0200,
        VirtString::EnergyCalib => 0x0202,
        VirtString::SpecAccum => 0x0205,
    }
}

impl VirtString {
    /// The code that identifies this value on the wire.
    pub fn code(self) -> (c: u32)
        ensures
            c == virt_string_code(self),
    {
        match self {
            VirtString::Configuration => 0x0002,
            VirtString::SerialNumber => 0x0008,
            VirtString::TextMessage => 0x000F,
            VirtString::DataBuf => 0x0100,
            VirtString::SfrFile => 0x0101,
            VirtString::Spectrum => 0x0200,
            VirtString::EnergyCalib => 0x0202,
            VirtString::SpecAccum => 0x0205,
        }
    }
}

impl From<VirtString> for u32 {
    fn from(value: VirtString) -> (code: u32) {
        value.code()
    }
}

impl vstd::std_specs::convert::FromSpecImpl<VirtString> for u32 {
    open spec fn obeys_from_spec() -> bool {
        true
    }

    open spec fn from_spec(v: VirtString) -> u32 {
        virt_string_code(v)
    }
}

/// A virtual special-function register of the device.
#[derive(Debug, Clone, Copy, PartialEq, Eq, Structural)]
pub enum VirtSfr {
    DeviceLang,
    DeviceOn,
    DeviceTime,
    DispBrt,
    DispOffTime,
    DispDir,
    SoundOn,
    VibroOn,
    DoseReset,
    DrLev1UrH,
    DrLev2UrH,
    DsUnits,
    CrLev1Cp10s,
    CrLev2Cp10s,
    CrUnits,
    DsLev1Ur,
    DsLev2Ur,
    Cps,
    DrUrH,
    TempDegC,
}

/// The code that identifies each VirtSfr value on the wire.
pub open spec fn virt_sfr_code(value: VirtSfr) -> u32 {
    match value {
        VirtSfr::DeviceLang => 0x0502,
        VirtSfr::DeviceOn => 0x0503,
        VirtSfr::DeviceTime => 0x0504,
        VirtSfr::DispBrt => 0x0511,
        VirtSfr::DispOffTime => 0x0513,
        VirtSfr::DispDir => 0x0515,
        VirtSfr::SoundOn => 0x0522,
        VirtSfr::VibroOn => 0x0531,
        VirtSfr::DoseReset => 0x8007,
        VirtSfr::DrLev1UrH => 0x8000,
        VirtSfr::DrLev2UrH => 0x8001,
        VirtSfr::DsUnits => 0x8004,
        VirtSfr::CrLev1Cp10s => 0x8008,
        VirtSfr::CrLev2Cp10s => 0x8009,
        VirtSfr::CrUnits => 0x8013,
        VirtSfr::DsLev1Ur => 0x8014,
        VirtSfr::DsLev2Ur => 0x8015,
        VirtSfr::Cps => 0x8020,
        VirtSfr::DrUrH => 0x8021,
        VirtSfr::TempDegC => 0x8024,
    }
}

impl VirtSfr {
    /// The code that identifies this value on the wire.
    pub fn code(self) -> (c: u32)
        ensures
            c == virt_sfr_code(self),
    {
        match self {
            VirtSfr::DeviceLang => 0x0502,
            VirtSfr::DeviceOn => 0x0503,
            VirtSfr::DeviceTime => 0x0504,
            VirtSfr::DispBrt => 0x0511,
            VirtSfr::DispOffTime => 0x0513,
            VirtSfr::DispDir => 0x0515,
            VirtSfr::SoundOn => 0x0522,
            VirtSfr::VibroOn => 0x0531,
            VirtSfr::DoseReset => 0x8007,
            VirtSfr::DrLev1UrH => 0x8000,
            VirtSfr::DrLev2UrH => 0x8001,
            VirtSfr::DsUnits => 0x8004,
            VirtSfr::CrLev1Cp10s => 0x8008,
            VirtSfr::CrLev2Cp10s => 0x8009,
            VirtSfr::CrUnits => 0x8013,
            VirtSfr::DsLev1Ur => 0x8014,
            VirtSfr::DsLev2Ur => 0x8015,
            VirtSfr::Cps => 0x8020,
            VirtSfr::DrUrH => 0x8021,
            VirtSfr::TempDegC => 0x8024,
        }
    }
}

impl From<VirtSfr> for u32 {
    fn from(value: VirtSfr) -> (code: u32) {
        value.code()
    }
}

impl vstd::std_specs::convert::FromSpecImpl<VirtSfr> for u32 {
    open spec fn obeys_from_spec() -> bool {
        true
    }

    open spec fn from_spec(v: VirtSfr) -> u32 {
        virt_sfr_code(v)
    }
}

} // verus!
