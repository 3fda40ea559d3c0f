//! Wire protocol and editing rules for SONiX-based SPAWN magnetic
//! (Hall-effect) keyboards.
//!
//! This crate is transport-agnostic: it turns typed configuration into raw
//! HID report bytes and back, decides what the configurator does with each
//! click and each report, and performs no I/O. Every framing and encoding
//! rule and every editing rule carries a contract that Verus checks.
pub mod candidate;
pub mod catalog;
pub mod codec;
pub mod descriptor;
pub mod editor;
pub mod exchange;
pub mod layout;
pub mod model;
pub mod report;
pub mod text;
pub mod worker;

pub use candidate::Candidate;
pub use codec::{ChunkPlan, Packet, Request, Response};
pub use model::{
    all_lights_request_body, decode_all_lights, decode_custom_led, decode_key_table,
    decode_rt_table, encode_custom_led, encode_key_table, encode_rt_table, DeviceInfo, GameMode,
    KeyAction, KeyTelemetry, LedEffect, Page, Rgb, RtKey, CUSTOM_LED_LEN, DEVICE_INFO_LEN,
    GAME_MODE_LEN, KEY_TABLE_LEN, LED_EFFECT_LEN, RT_ENTRY_LEN, RT_TABLE_LEN,
};

use vstd::prelude::*;

verus! {

/// Report ID used for every vendor packet. The keyboard exposes a single
/// unnumbered vendor collection, so the ID is always zero.
pub const OUT_REPORT_ID: u8 = 0;

/// First byte of every host -> device packet.
pub const REQ_MAGIC: u8 = 0xAA;

/// First byte of every device -> host packet.
pub const RESP_MAGIC: u8 = 0x55;

/// Every packet reserves 8 bytes of header; the payload follows.
pub const HEADER_LEN: usize = 8;

/// Packet size when the descriptor does not tell us otherwise.
pub const DEFAULT_PACKET_LEN: usize = 32;

/// Number of physical key slots the firmware addresses, regardless of how
/// many are populated on a given board.
pub const KEY_SLOTS: usize = 126;

/// USB vendor ID (SONiX Technology).
pub const VID_SONIX: u16 = 0x0C45;

/// Vendor usage pages the configuration interface is known to appear on.
/// The keyboard also enumerates a boot-keyboard interface, which must not be
/// opened for configuration.
pub const VENDOR_USAGE_PAGES: [u16; 7] = [0xFF67, 0xFF68, 0xFF80, 0xFF60, 0xFF00, 0xFF01, 0xFF1B];

/// Errors raised while framing or decoding packets and records.
#[allow(inconsistent_fields)]
#[derive(Debug, Clone, Copy, PartialEq, Eq)]
pub enum ProtocolError {
    /// The packet is shorter than its fixed header.
    Short { got: usize, need: usize },
    /// The response did not start with [`RESP_MAGIC`].
    BadMagic(u8),
    /// The response answers a different command than the one expected.
    CmdMismatch { expected: u8, got: u8 },
    /// A payload does not fit in the packet it was meant for.
    Overflow { got: usize, capacity: usize },
    /// The device returned fewer bytes than the record needs.
    Truncated { got: usize, want: usize },
}

/// Command opcodes understood by the firmware.
///
/// Values are the firmware's own; names describe observed behaviour.
#[derive(Debug, Clone, Copy, PartialEq, Eq, Hash)]
pub enum Cmd {
    CommunicationStart,
    CommunicationEnd,
    FactoryReset,
    GetDeviceInfo,
    GetGameMode,
    GetKey,
    GetLedEffect,
    GetCustomLedData,
    GetMacro,
    GetFnKey,
    GetMagneticAxisRt,
    GetMagneticAxisDks,
    GetLightBox,
    GetDefaultFnKeyMatrix,
    GetDefaultKeyMatrix,
    SetGameMode,
    SetKey,
    SetLedEffect,
    SetCustomLedData,
    SetMacro,
    SetFnKey,
    SetMagneticAxisRt,
    SetMagneticAxisDks,
    SetDotMatrixMode,
    SetLightBox,
    SetCustomFunctionOn,
    SetCustomFunctionOff,
    GetLedData,
    GetAllLightsRgb,
    SetTemporaryCommandData,
    SetMusicData,
    ClearLedData,
    GetAllLightsRgb24G,
    SetLedBootAnimation,
    SetLedUserAnimation,
    SetLedData,
    SetFlashDownload,
    SetTftUserAnimation,
    SetTftBuiltInIndex,
    GetMagneticAxisKeyStatus,
    CalibrationOn,
    CalibrationOff,
    SimulationTestOn,
    SimulationTestOff,
    DeviceNotify,
    MagneticAxisCalibrationData,
    Disconnect24GNotify,
}

impl Cmd {
    /// The opcode byte the firmware uses for this command.
    pub open spec fn code(self) -> u8 {
        match self {
            Cmd::CommunicationStart => 0x01,
            Cmd::CommunicationEnd => 0x02,
            Cmd::FactoryReset => 0x0F,
            Cmd::GetDeviceInfo => 0x10,
            Cmd::GetGameMode => 0x11,
            Cmd::GetKey => 0x12,
            Cmd::GetLedEffect => 0x13,
            Cmd::GetCustomLedData => 0x14,
            Cmd::GetMacro => 0x15,
            Cmd::GetFnKey => 0x16,
            Cmd::GetMagneticAxisRt => 0x17,
            Cmd::GetMagneticAxisDks => 0x18,
            Cmd::GetLightBox => 0x1B,
            Cmd::GetDefaultFnKeyMatrix => 0x1C,
            Cmd::GetDefaultKeyMatrix => 0x1F,
            Cmd::SetGameMode => 0x21,
            Cmd::SetKey => 0x22,
            Cmd::SetLedEffect => 0x23,
            Cmd::SetCustomLedData => 0x24,
            Cmd::SetMacro => 0x25,
            Cmd::SetFnKey => 0x26,
            Cmd::SetMagneticAxisRt => 0x27,
            Cmd::SetMagneticAxisDks => 0x28,
            Cmd::SetDotMatrixMode => 0x2A,
            Cmd::SetLightBox => 0x2B,
            Cmd::SetCustomFunctionOn => 0x30,
            Cmd::SetCustomFunctionOff => 0x31,
            Cmd::GetLedData => 0x32,
            Cmd::GetAllLightsRgb => 0x33,
            Cmd::SetTemporaryCommandData => 0x34,
            Cmd::SetMusicData => 0x35,
            Cmd::ClearLedData => 0x36,
            Cmd::GetAllLightsRgb24G => 0x37,
            Cmd::SetLedBootAnimation => 0x40,
            Cmd::SetLedUserAnimation => 0x41,
            Cmd::SetLedData => 0x42,
            Cmd::SetFlashDownload => 0x4F,
            Cmd::SetTftUserAnimation => 0x50,
            Cmd::SetTftBuiltInIndex => 0x51,
            Cmd::GetMagneticAxisKeyStatus => 0x60,
            Cmd::CalibrationOn => 0x64,
            Cmd::CalibrationOff => 0x65,
            Cmd::SimulationTestOn => 0x66,
            Cmd::SimulationTestOff => 0x67,
            Cmd::DeviceNotify => 0xFA,
            Cmd::MagneticAxisCalibrationData => 0xFB,
            Cmd::Disconnect24GNotify => 0xFC,
        }
    }

    pub fn raw(self) -> (r: u8)
        ensures
            r == self.code(),
    {
        match self {
            Cmd::CommunicationStart => 0x01,
            Cmd::CommunicationEnd => 0x02,
            Cmd::FactoryReset => 0x0F,
            Cmd::GetDeviceInfo => 0x10,
            Cmd::GetGameMode => 0x11,
            Cmd::GetKey => 0x12,
            Cmd::GetLedEffect => 0x13,
            Cmd::GetCustomLedData => 0x14,
            Cmd::GetMacro => 0x15,
            Cmd::GetFnKey => 0x16,
            Cmd::GetMagneticAxisRt => 0x17,
            Cmd::GetMagneticAxisDks => 0x18,
            Cmd::GetLightBox => 0x1B,
            Cmd::GetDefaultFnKeyMatrix => 0x1C,
            Cmd::GetDefaultKeyMatrix => 0x1F,
            Cmd::SetGameMode => 0x21,
            Cmd::SetKey => 0x22,
            Cmd::SetLedEffect => 0x23,
            Cmd::SetCustomLedData => 0x24,
            Cmd::SetMacro => 0x25,
            Cmd::SetFnKey => 0x26,
            Cmd::SetMagneticAxisRt => 0x27,
            Cmd::SetMagneticAxisDks => 0x28,
            Cmd::SetDotMatrixMode => 0x2A,
            Cmd::SetLightBox => 0x2B,
            Cmd::SetCustomFunctionOn => 0x30,
            Cmd::SetCustomFunctionOff => 0x31,
            Cmd::GetLedData => 0x32,
            Cmd::GetAllLightsRgb => 0x33,
            Cmd::SetTemporaryCommandData => 0x34,
            Cmd::SetMusicData => 0x35,
            Cmd::ClearLedData => 0x36,
            Cmd::GetAllLightsRgb24G => 0x37,
            Cmd::SetLedBootAnimation => 0x40,
            Cmd::SetLedUserAnimation => 0x41,
            Cmd::SetLedData => 0x42,
            Cmd::SetFlashDownload => 0x4F,
            Cmd::SetTftUserAnimation => 0x50,
            Cmd::SetTftBuiltInIndex => 0x51,
            Cmd::GetMagneticAxisKeyStatus => 0x60,
            Cmd::CalibrationOn => 0x64,
            Cmd::CalibrationOff => 0x65,
            Cmd::SimulationTestOn => 0x66,
            Cmd::SimulationTestOff => 0x67,
            Cmd::DeviceNotify => 0xFA,
            Cmd::MagneticAxisCalibrationData => 0xFB,
            Cmd::Disconnect24GNotify => 0xFC,
        }
    }
}

/// A result holding a vector, taken by the vector's view.
pub open spec fn seq_result<T>(r: Result<Vec<T>, ProtocolError>) -> Result<Seq<T>, ProtocolError> {
    match r {
        Ok(v) => Ok(v@),
        Err(e) => Err(e),
    }
}

/// Selective factory-reset scopes.
#[derive(Debug, Clone, Copy, PartialEq, Eq)]
pub enum ResetScope {
    Keys,
    Lighting,
    Macros,
    Calibration,
    All,
}

impl ResetScope {
    /// The byte the firmware expects for this scope.
    pub open spec fn code(self) -> u8 {
        match self {
            ResetScope::Keys => 1,
            ResetScope::Lighting => 2,
            ResetScope::Macros => 4,
            ResetScope::Calibration => 5,
            ResetScope::All => 0xFF,
        }
    }

    pub fn raw(self) -> (r: u8)
        ensures
            r == self.code(),
    {
        match self {
            ResetScope::Keys => 1,
            ResetScope::Lighting => 2,
            ResetScope::Macros => 4,
            ResetScope::Calibration => 5,
            ResetScope::All => 0xFF,
        }
    }
}

} // verus!
