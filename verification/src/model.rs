//! Typed views over the firmware's fixed-size records.
//!
//! Each record owns its own `decode` / `encode` pair so the byte offsets stay
//! next to the field they describe. Distances are held in micrometres: the
//! firmware stores hundredths (and, for rapid trigger on some boards,
//! thousandths) of a millimetre, and micrometres hold both exactly.
use vstd::prelude::*;

use crate::codec::Request;
use crate::text::{
    decimal, digit_char, digit_str, digits_value, lemma_decimal_reads_back, lemma_digit_chars,
    lemma_digits_value_push, push_decimal,
};
use crate::{seq_result, Cmd, ProtocolError, KEY_SLOTS};

verus! {

/// The little-endian `u16` at `b[i..i + 2]`.
pub open spec fn le16_at(b: Seq<u8>, i: int) -> u16 {
    (b[i] + 256 * b[i + 1]) as u16
}

fn le16(b: &[u8], i: usize) -> (v: u16)
    requires
        i + 1 < b@.len(),
    ensures
        v == le16_at(b@, i as int),
{
    b[i] as u16 + 256 * (b[i + 1] as u16)
}

/// The error for a record that needs `n` bytes and got fewer.
pub open spec fn truncated(b: Seq<u8>, n: nat) -> ProtocolError {
    ProtocolError::Truncated { got: b.len() as usize, want: n as usize }
}

fn need(b: &[u8], n: usize) -> (r: Result<(), ProtocolError>)
    ensures
        r is Ok <==> b@.len() >= n,
        r is Err ==> r == Err::<(), ProtocolError>(truncated(b@, n as nat)),
{
    if b.len() < n {
        return Err(ProtocolError::Truncated { got: b.len(), want: n });
    }
    Ok(())
}

/// `um` micrometres in firmware units of `1 / scale` millimetre, rounded to
/// the nearest unit (halves away from zero) and saturating at `u16::MAX`.
pub open spec fn um_to_units(um: u32, scale: u32) -> u16 {
    let units = (um * scale + 500) / 1000;
    if units > u16::MAX {
        u16::MAX
    } else {
        units as u16
    }
}

/// `units` firmware units of `1 / scale` millimetre in micrometres, rounded
/// to the nearest micrometre.
pub open spec fn units_to_um(units: u16, scale: u32) -> u32 {
    ((units * 1000 + scale / 2) / (scale as int)) as u32
}

fn to_units(um: u32, scale: u32) -> (u: u16)
    ensures
        u == um_to_units(um, scale),
{
    assert(um * scale <= 0xFFFF_FFFE_0000_0001) by (nonlinear_arith)
        requires
            um <= u32::MAX,
            scale <= u32::MAX,
    ;
    let units = ((um as u64) * (scale as u64) + 500) / 1000;
    if units > 0xFFFF {
        0xFFFF
    } else {
        units as u16
    }
}

fn to_um(units: u16, scale: u32) -> (um: u32)
    requires
        scale > 0,
    ensures
        um == units_to_um(units, scale),
{
    let n = (units as u64) * 1000 + (scale as u64) / 2;
    assert(n / (scale as u64) <= n) by (nonlinear_arith)
        requires
            scale > 0,
    ;
    ((n / (scale as u64)) as u32)
}

/// Rounding to firmware units and back recovers any value the units hold
/// exactly.
pub proof fn lemma_units_round_trip(um: u32, scale: u32)
    requires
        scale > 0,
        (um * scale) % 1000 == 0,
        um * scale / 1000 <= u16::MAX,
    ensures
        units_to_um(um_to_units(um, scale), scale) == um,
{
    let u = um * scale / 1000;
    assert((um * scale + 500) / 1000 == u) by (nonlinear_arith)
        requires
            (um * scale) % 1000 == 0,
            u == um * scale / 1000,
    ;
    assert(um_to_units(um, scale) == u);
    assert(u * 1000 == um * scale) by (nonlinear_arith)
        requires
            (um * scale) % 1000 == 0,
            u == um * scale / 1000,
    ;
    assert((um * scale + scale / 2) / (scale as int) == um) by (nonlinear_arith)
        requires
            scale > 0,
    ;
}

// ---------------------------------------------------------------- device info

pub const DEVICE_INFO_LEN: usize = 48;

#[derive(Debug, Clone, Copy, Default, PartialEq, Eq)]
pub struct DeviceInfo {
    pub rom_size: u8,
    pub vid: u16,
    pub pid: u16,
    /// Firmware version, encoded BCD-ish in two bytes; kept as hundredths.
    pub version_centi: u16,
    pub sensor: u16,
    pub manufacturer: u16,
    pub product: u16,
    pub work_mode: u8,
    pub battery_level: u8,
    pub charge_status: u8,
    pub current_profile: u8,
    pub axis_info: u16,
    pub tft_max_frames: u16,
    pub gif_max_frames: u16,
    pub led_max_frames: u16,
    pub tft_direction: u8,
    /// 0 = rapid-trigger values are hundredths of a millimetre,
    /// 1 = thousandths.
    pub rt_precision: u8,
}

/// The device-info record `b` holds.
pub open spec fn device_info_from(b: Seq<u8>) -> Result<DeviceInfo, ProtocolError> {
    if b.len() < DEVICE_INFO_LEN {
        Err(truncated(b, DEVICE_INFO_LEN as nat))
    } else {
        Ok(
            DeviceInfo {
                rom_size: b[0],
                vid: le16_at(b, 4),
                pid: le16_at(b, 6),
                // low nibble = units, high nibble = tens, next byte = hundreds
                version_centi: (b[8] % 16 + (b[8] / 16) * 10 + b[9] * 100) as u16,
                sensor: le16_at(b, 10),
                manufacturer: le16_at(b, 12),
                product: le16_at(b, 14),
                work_mode: b[16],
                battery_level: b[17],
                charge_status: b[18],
                current_profile: b[19],
                axis_info: le16_at(b, 20),
                tft_max_frames: le16_at(b, 22),
                gif_max_frames: le16_at(b, 24),
                led_max_frames: le16_at(b, 26),
                tft_direction: b[28],
                rt_precision: b[29],
            },
        )
    }
}

/// Reading the device-info record takes each field from its fixed offset:
/// the ROM size from byte 0; the vendor and product IDs from the
/// little-endian `u16`s at bytes 4 and 6; the firmware version in
/// hundredths from byte 8 (units in the low nibble, tens in the high) and
/// byte 9 (hundreds); the sensor, manufacturer and product codes from bytes
/// 10, 12 and 14; the work mode, battery level, charge status and profile
/// from bytes 16 to 19; the axis info and the three frame limits from bytes
/// 20, 22, 24 and 26; the screen direction from byte 28 and the
/// rapid-trigger precision from byte 29. A record shorter than 48 bytes is
/// refused as truncated.
pub proof fn lemma_device_info_fields(b: Seq<u8>)
    ensures
        b.len() < 48 ==> device_info_from(b) == Err::<DeviceInfo, ProtocolError>(
            (ProtocolError::Truncated { got: b.len() as usize, want: 48 }),
        ),
        b.len() >= 48 ==> (device_info_from(b) matches Ok(d) && {
            &&& d.rom_size == b[0]
            &&& d.vid == b[4] + 256 * b[5]
            &&& d.pid == b[6] + 256 * b[7]
            &&& d.version_centi == b[8] % 16 + 10 * (b[8] / 16) + 100 * b[9]
            &&& d.sensor == b[10] + 256 * b[11]
            &&& d.manufacturer == b[12] + 256 * b[13]
            &&& d.product == b[14] + 256 * b[15]
            &&& d.work_mode == b[16]
            &&& d.battery_level == b[17]
            &&& d.charge_status == b[18]
            &&& d.current_profile == b[19]
            &&& d.axis_info == b[20] + 256 * b[21]
            &&& d.tft_max_frames == b[22] + 256 * b[23]
            &&& d.gif_max_frames == b[24] + 256 * b[25]
            &&& d.led_max_frames == b[26] + 256 * b[27]
            &&& d.tft_direction == b[28]
            &&& d.rt_precision == b[29]
        }),
{
}

/// The firmware version as `major.minor`, minor always two digits.
pub open spec fn version_text(centi: u16) -> Seq<char> {
    decimal((centi / 100) as nat) + seq!['.'] + seq![
        digit_char(((centi % 100) / 10) as nat),
        digit_char((centi % 10) as nat),
    ]
}

/// The firmware version reads back as the version in hundredths: the
/// decimal digits before the point give the major number and the two after
/// it the minor, so 109 reads `1.09`.
pub proof fn lemma_version_text_reads_back(centi: u16)
    ensures
        ({
            let t = version_text(centi);
            let n = t.len() as int;
            &&& n >= 4
            &&& t[n - 3] == '.'
            &&& digits_value(t.take(n - 3), 10) * 100 + digits_value(t.subrange(n - 2, n), 10)
                == centi
        }),
{
    let t = version_text(centi);
    let n = t.len() as int;
    let d1 = digit_char(((centi % 100) / 10) as nat);
    let d2 = digit_char((centi % 10) as nat);
    lemma_decimal_reads_back((centi / 100) as nat);
    lemma_digit_chars(((centi % 100) / 10) as nat);
    lemma_digit_chars((centi % 10) as nat);
    assert(t.take(n - 3) =~= decimal((centi / 100) as nat));
    assert(t.subrange(n - 2, n) =~= Seq::<char>::empty() + seq![d1] + seq![d2]);
    lemma_digits_value_push(Seq::<char>::empty(), d1, 10);
    lemma_digits_value_push(Seq::<char>::empty() + seq![d1], d2, 10);
}

impl DeviceInfo {
    pub fn request() -> (r: Request<'static>)
        ensures
            r.is_read_of(Cmd::GetDeviceInfo, DEVICE_INFO_LEN),
    {
        Request::read(Cmd::GetDeviceInfo, DEVICE_INFO_LEN)
    }

    pub fn decode(b: &[u8]) -> (r: Result<Self, ProtocolError>)
        ensures
            r == device_info_from(b@),
            r is Ok <==> b@.len() >= DEVICE_INFO_LEN,
            r matches Ok(d) ==> {
                &&& d.vid == b@[4] + 256 * b@[5]
                &&& d.pid == b@[6] + 256 * b@[7]
                &&& d.version_centi == b@[8] % 16 + 10 * (b@[8] / 16) + 100 * b@[9]
                &&& d.rt_precision == b@[29]
            },
    {
        proof {
            lemma_device_info_fields(b@);
        }
        need(b, DEVICE_INFO_LEN)?;
        Ok(
            Self {
                rom_size: b[0],
                vid: le16(b, 4),
                pid: le16(b, 6),
                version_centi: (b[8] % 16) as u16 + ((b[8] / 16) as u16) * 10 + (b[9] as u16)
                    * 100,
                sensor: le16(b, 10),
                manufacturer: le16(b, 12),
                product: le16(b, 14),
                work_mode: b[16],
                battery_level: b[17],
                charge_status: b[18],
                current_profile: b[19],
                axis_info: le16(b, 20),
                tft_max_frames: le16(b, 22),
                gif_max_frames: le16(b, 24),
                led_max_frames: le16(b, 26),
                tft_direction: b[28],
                rt_precision: b[29],
            },
        )
    }

    pub fn version_string(&self) -> (s: String)
        ensures
            s@ == version_text(self.version_centi),
    {
        let mut s = String::new();
        push_decimal(&mut s, (self.version_centi / 100) as u64);
        s.append(".");
        s.append(digit_str(((self.version_centi % 100) / 10) as u8));
        s.append(digit_str((self.version_centi % 10) as u8));
        proof {
            reveal_strlit(".");
        }
        assert(s@ =~= version_text(self.version_centi));
        s
    }

    /// Firmware units per millimetre for rapid-trigger deltas.
    pub fn rt_scale(&self) -> (scale: u32)
        ensures
            scale == (if self.rt_precision == 1 {
                1000u32
            } else {
                100u32
            }),
    {
        if self.rt_precision == 1 {
            1000
        } else {
            100
        }
    }
}

// ----------------------------------------------------------------- game mode

pub const GAME_MODE_LEN: usize = 64;

#[derive(Debug, Clone, Copy, Default, PartialEq, Eq)]
pub struct GameMode {
    pub game_mode: u8,
    pub fn_switch: u8,
    pub sleep_time: u8,
    pub key_delay: u8,
    /// A firmware code (3 = 1000 Hz, 4 = 2000 Hz, 5 = 4000 Hz, 6 = 8000 Hz),
    /// not a raw Hz value.
    pub report_rate: u8,
    pub system_mode: u8,
    pub tft_display_time: u8,
    /// Micrometres.
    pub top_dead_zone_um: u32,
    /// Micrometres.
    pub bottom_dead_zone_um: u32,
    pub stability_mode: u8,
    pub auto_calibration: u8,
    pub single_key_wakeup: u8,
}

/// A dead zone in hundredths of a millimetre, rounded and clamped to a byte.
pub open spec fn dead_zone_byte(um: u32) -> u8 {
    let h = um / 10 + if um % 10 >= 5 {
        1int
    } else {
        0int
    };
    if h > 255 {
        255
    } else {
        h as u8
    }
}

fn to_dead_zone_byte(um: u32) -> (b: u8)
    ensures
        b == dead_zone_byte(um),
{
    let h = um / 10 + if um % 10 >= 5 {
        1
    } else {
        0
    };
    if h > 255 {
        255
    } else {
        h as u8
    }
}

/// The game-mode record `b` holds.
pub open spec fn game_mode_from(b: Seq<u8>) -> Result<GameMode, ProtocolError> {
    if b.len() < 16 {
        Err(truncated(b, 16))
    } else {
        Ok(
            GameMode {
                game_mode: b[1],
                fn_switch: b[2],
                sleep_time: b[3],
                key_delay: b[4],
                report_rate: b[5],
                system_mode: b[6],
                tft_display_time: b[7],
                top_dead_zone_um: (b[8] * 10) as u32,
                bottom_dead_zone_um: (b[9] * 10) as u32,
                stability_mode: b[11],
                auto_calibration: b[14],
                single_key_wakeup: b[15],
            },
        )
    }
}

/// Byte `i` of the game-mode record written for `g`.
pub open spec fn game_mode_byte(g: GameMode, i: int) -> u8 {
    if i == 1 {
        g.game_mode
    } else if i == 2 {
        g.fn_switch
    } else if i == 3 {
        g.sleep_time
    } else if i == 4 {
        g.key_delay
    } else if i == 5 {
        g.report_rate
    } else if i == 6 {
        g.system_mode
    } else if i == 7 {
        g.tft_display_time
    } else if i == 8 {
        dead_zone_byte(g.top_dead_zone_um)
    } else if i == 9 {
        dead_zone_byte(g.bottom_dead_zone_um)
    } else if i == 11 {
        g.stability_mode
    } else if i == 14 {
        g.auto_calibration
    } else if i == 15 {
        g.single_key_wakeup
    } else {
        0
    }
}

impl GameMode {
    /// What the firmware reports after a full factory reset.
    ///
    /// Measured on `0C45:8A01` firmware 1.09 rather than inferred: the
    /// vendor interface shows its own defaults, which are not always the
    /// board's. Note `report_rate` 6 is the 8000 Hz code, and both dead
    /// zones come back at zero.
    pub fn factory_default() -> (g: Self)
        ensures
            g == (GameMode {
                game_mode: 0,
                fn_switch: 0,
                sleep_time: 1,
                key_delay: 0,
                report_rate: 6,
                system_mode: 0,
                tft_display_time: 0,
                top_dead_zone_um: 0,
                bottom_dead_zone_um: 0,
                stability_mode: 1,
                auto_calibration: 1,
                single_key_wakeup: 0,
            }),
    {
        Self {
            game_mode: 0,
            fn_switch: 0,
            sleep_time: 1,
            key_delay: 0,
            report_rate: 6,
            system_mode: 0,
            tft_display_time: 0,
            top_dead_zone_um: 0,
            bottom_dead_zone_um: 0,
            stability_mode: 1,
            auto_calibration: 1,
            single_key_wakeup: 0,
        }
    }

    pub fn request() -> (r: Request<'static>)
        ensures
            r.is_read_of(Cmd::GetGameMode, GAME_MODE_LEN),
    {
        Request::read(Cmd::GetGameMode, GAME_MODE_LEN)
    }

    pub fn decode(b: &[u8]) -> (r: Result<Self, ProtocolError>)
        ensures
            r == game_mode_from(b@),
            r is Ok <==> b@.len() >= 16,
            r matches Ok(g) ==> {
                &&& g.game_mode == b@[1]
                &&& g.fn_switch == b@[2]
                &&& g.sleep_time == b@[3]
                &&& g.key_delay == b@[4]
                &&& g.report_rate == b@[5]
                &&& g.system_mode == b@[6]
                &&& g.tft_display_time == b@[7]
                &&& g.top_dead_zone_um == 10 * b@[8]
                &&& g.bottom_dead_zone_um == 10 * b@[9]
                &&& g.stability_mode == b@[11]
                &&& g.auto_calibration == b@[14]
                &&& g.single_key_wakeup == b@[15]
            },
    {
        proof {
            lemma_game_mode_fields(b@);
        }
        need(b, 16)?;
        Ok(
            Self {
                game_mode: b[1],
                fn_switch: b[2],
                sleep_time: b[3],
                key_delay: b[4],
                report_rate: b[5],
                system_mode: b[6],
                tft_display_time: b[7],
                top_dead_zone_um: b[8] as u32 * 10,
                bottom_dead_zone_um: b[9] as u32 * 10,
                stability_mode: b[11],
                auto_calibration: b[14],
                single_key_wakeup: b[15],
            },
        )
    }

    pub fn encode(&self) -> (b: Vec<u8>)
        ensures
            b@ == Seq::new(GAME_MODE_LEN as nat, |i: int| game_mode_byte(*self, i)),
            b@.len() == GAME_MODE_LEN,
            b@[1] == self.game_mode,
            b@[2] == self.fn_switch,
            b@[3] == self.sleep_time,
            b@[4] == self.key_delay,
            b@[5] == self.report_rate,
            b@[6] == self.system_mode,
            b@[7] == self.tft_display_time,
            b@[11] == self.stability_mode,
            b@[14] == self.auto_calibration,
            b@[15] == self.single_key_wakeup,
    {
        proof {
            lemma_game_mode_layout(*self);
        }
        let mut b = vec![0u8; GAME_MODE_LEN];
        b.set(1, self.game_mode);
        b.set(2, self.fn_switch);
        b.set(3, self.sleep_time);
        b.set(4, self.key_delay);
        b.set(5, self.report_rate);
        b.set(6, self.system_mode);
        b.set(7, self.tft_display_time);
        b.set(8, to_dead_zone_byte(self.top_dead_zone_um));
        b.set(9, to_dead_zone_byte(self.bottom_dead_zone_um));
        b.set(11, self.stability_mode);
        b.set(14, self.auto_calibration);
        b.set(15, self.single_key_wakeup);
        assert(b@ =~= Seq::new(GAME_MODE_LEN as nat, |i: int| game_mode_byte(*self, i)));
        b
    }
}

/// Settings survive a write and a read back, provided each dead zone is a
/// whole number of hundredths of a millimetre that fits the record's byte.
pub proof fn lemma_game_mode_round_trip(g: GameMode)
    requires
        g.top_dead_zone_um % 10 == 0,
        g.top_dead_zone_um <= 2550,
        g.bottom_dead_zone_um % 10 == 0,
        g.bottom_dead_zone_um <= 2550,
    ensures
        game_mode_from(Seq::new(GAME_MODE_LEN as nat, |i: int| game_mode_byte(g, i))) == Ok::<
            GameMode,
            ProtocolError,
        >(g),
{
}

/// The settings record sits at the firmware's fixed offsets: byte 1 the game
/// mode, 2 the Fn switch, 3 the sleep time, 4 the key delay, 5 the
/// polling-rate code, 6 the system mode, 7 the screen timeout, 8 and 9 the
/// top and bottom dead zones in hundredths of a millimetre rounded half up
/// and held to 255, 11 the stability mode, 14 auto-calibration and 15
/// single-key wake-up. The record is 64 bytes and every other byte is zero.
pub proof fn lemma_game_mode_layout(g: GameMode)
    ensures
        ({
            let b = Seq::new(GAME_MODE_LEN as nat, |i: int| game_mode_byte(g, i));
            let top = (g.top_dead_zone_um + 5) / 10;
            let bottom = (g.bottom_dead_zone_um + 5) / 10;
            &&& b.len() == 64
            &&& b[1] == g.game_mode
            &&& b[2] == g.fn_switch
            &&& b[3] == g.sleep_time
            &&& b[4] == g.key_delay
            &&& b[5] == g.report_rate
            &&& b[6] == g.system_mode
            &&& b[7] == g.tft_display_time
            &&& b[8] == (if top > 255 { 255 } else { top })
            &&& b[9] == (if bottom > 255 { 255 } else { bottom })
            &&& b[11] == g.stability_mode
            &&& b[14] == g.auto_calibration
            &&& b[15] == g.single_key_wakeup
            &&& b[0] == 0 && b[10] == 0 && b[12] == 0 && b[13] == 0
            &&& forall|j: int| 16 <= j < 64 ==> #[trigger] b[j] == 0
        }),
{
    let um = g.top_dead_zone_um;
    assert(um / 10 + (if um % 10 >= 5 { 1int } else { 0int }) == (um + 5) / 10);
    let um = g.bottom_dead_zone_um;
    assert(um / 10 + (if um % 10 >= 5 { 1int } else { 0int }) == (um + 5) / 10);
}

/// Reading the settings record takes each field from its fixed offset: the
/// key delay from byte 4, the polling-rate code from byte 5, each dead zone
/// from its byte as hundredths of a millimetre, and so on; a record shorter
/// than 16 bytes is refused as truncated.
pub proof fn lemma_game_mode_fields(b: Seq<u8>)
    ensures
        b.len() < 16 ==> game_mode_from(b) == Err::<GameMode, ProtocolError>(
            (ProtocolError::Truncated { got: b.len() as usize, want: 16 }),
        ),
        b.len() >= 16 ==> (game_mode_from(b) matches Ok(g) && {
            &&& g.game_mode == b[1]
            &&& g.fn_switch == b[2]
            &&& g.sleep_time == b[3]
            &&& g.key_delay == b[4]
            &&& g.report_rate == b[5]
            &&& g.system_mode == b[6]
            &&& g.tft_display_time == b[7]
            &&& g.top_dead_zone_um == 10 * b[8]
            &&& g.bottom_dead_zone_um == 10 * b[9]
            &&& g.stability_mode == b[11]
            &&& g.auto_calibration == b[14]
            &&& g.single_key_wakeup == b[15]
        }),
{
}

// ------------------------------------------------------------- rapid trigger

pub const RT_ENTRY_LEN: usize = 8;

pub const RT_TABLE_LEN: usize = 1008;

/// Per-key actuation behaviour. This is the heart of a Hall-effect board:
/// instead of one fixed actuation point, each key gets a trigger depth plus
/// independent press/release rapid-trigger deltas.
#[derive(Debug, Clone, Copy, PartialEq, Eq)]
pub struct RtKey {
    /// Which switch profile the key is calibrated against.
    pub axis_type: u8,
    /// Continuous rapid trigger over the whole travel rather than only past
    /// the actuation point.
    pub whole_fast: bool,
    /// Firmware's aggressive re-trigger mode.
    pub rampage: bool,
    /// Actuation depth in micrometres.
    pub trigger_um: u32,
    /// Rapid-trigger press sensitivity in micrometres.
    pub press_rt_um: u32,
    /// Rapid-trigger release sensitivity in micrometres.
    pub release_rt_um: u32,
}

/// The firmware's defaults for a key: profile 1, 1.20 mm actuation and
/// 0.10 mm rapid trigger both ways.
pub open spec fn default_rt_key() -> RtKey {
    RtKey {
        axis_type: 1,
        whole_fast: false,
        rampage: false,
        trigger_um: 1200,
        press_rt_um: 100,
        release_rt_um: 100,
    }
}

impl Default for RtKey {
    fn default() -> (k: Self)
        ensures
            k == default_rt_key(),
    {
        Self {
            axis_type: 1,
            whole_fast: false,
            rampage: false,
            trigger_um: 1200,
            press_rt_um: 100,
            release_rt_um: 100,
        }
    }
}

impl RtKey {
    /// An all-zero entry, which is what a never-configured keyboard reports.
    pub open spec fn unconfigured(self) -> bool {
        &&& self.axis_type == 0
        &&& self.trigger_um == 0
        &&& self.press_rt_um == 0
        &&& self.release_rt_um == 0
    }

    /// A keyboard that has never been configured reports an all-zero entry.
    /// Zero is not a usable actuation depth, so callers must not present or
    /// write it back verbatim.
    pub fn is_unconfigured(&self) -> (b: bool)
        ensures
            b == self.unconfigured(),
    {
        self.axis_type == 0 && self.trigger_um == 0 && self.press_rt_um == 0 && self.release_rt_um
            == 0
    }

    /// Substitute firmware defaults for an unconfigured entry.
    pub fn or_default(self) -> (k: Self)
        ensures
            k == (if self.unconfigured() {
                default_rt_key()
            } else {
                self
            }),
    {
        if self.is_unconfigured() {
            Self::default()
        } else {
            self
        }
    }
}

/// Entry `i` of the rapid-trigger table `b`, with deltas in units of
/// `1 / scale` millimetre. The trigger depth is always hundredths.
pub open spec fn rt_entry(b: Seq<u8>, i: int, scale: u32) -> RtKey {
    let o = i * RT_ENTRY_LEN;
    RtKey {
        axis_type: b[o],
        whole_fast: b[o + 1] % 2 == 1,
        rampage: (b[o + 1] / 2) % 2 == 1,
        trigger_um: units_to_um(le16_at(b, o + 2), 100),
        press_rt_um: units_to_um(le16_at(b, o + 4), scale),
        release_rt_um: units_to_um(le16_at(b, o + 6), scale),
    }
}

/// The rapid-trigger table `b` holds.
pub open spec fn rt_table_from(b: Seq<u8>, scale: u32) -> Result<Seq<RtKey>, ProtocolError> {
    if b.len() < RT_TABLE_LEN {
        Err(truncated(b, RT_TABLE_LEN as nat))
    } else {
        Ok(Seq::new(KEY_SLOTS as nat, |i: int| rt_entry(b, i, scale)))
    }
}

/// The flags byte of a rapid-trigger entry.
pub open spec fn rt_flags(k: RtKey) -> u8 {
    ((if k.whole_fast {
        1int
    } else {
        0int
    }) + (if k.rampage {
        2int
    } else {
        0int
    })) as u8
}

/// Byte `j` of the rapid-trigger table written for `keys`; slots past the
/// end of `keys` stay zero.
pub open spec fn rt_table_byte(keys: Seq<RtKey>, scale: u32, j: int) -> u8 {
    let i = j / RT_ENTRY_LEN as int;
    let f = j % RT_ENTRY_LEN as int;
    if i >= keys.len() {
        0
    } else {
        let k = keys[i];
        if f == 0 {
            k.axis_type
        } else if f == 1 {
            rt_flags(k)
        } else if f == 2 {
            (um_to_units(k.trigger_um, 100) % 256) as u8
        } else if f == 3 {
            (um_to_units(k.trigger_um, 100) / 256) as u8
        } else if f == 4 {
            (um_to_units(k.press_rt_um, scale) % 256) as u8
        } else if f == 5 {
            (um_to_units(k.press_rt_um, scale) / 256) as u8
        } else if f == 6 {
            (um_to_units(k.release_rt_um, scale) % 256) as u8
        } else {
            (um_to_units(k.release_rt_um, scale) / 256) as u8
        }
    }
}

/// Decode the whole rapid-trigger table. `scale` comes from
/// [`DeviceInfo::rt_scale`]; the trigger depth is always hundredths.
pub fn decode_rt_table(b: &[u8], scale: u32) -> (r: Result<Vec<RtKey>, ProtocolError>)
    requires
        scale > 0,
    ensures
        seq_result(r) == rt_table_from(b@, scale),
        r is Ok <==> b@.len() >= RT_TABLE_LEN,
        r matches Ok(v) ==> v@.len() == KEY_SLOTS && forall|i: int|
            0 <= i < KEY_SLOTS ==> {
                &&& (#[trigger] v@[i]).axis_type == b@[8 * i]
                &&& v@[i].whole_fast == (b@[8 * i + 1] % 2 == 1)
                &&& v@[i].rampage == ((b@[8 * i + 1] / 2) % 2 == 1)
            },
{
    proof {
        lemma_rt_table_fields(b@, scale);
    }
    need(b, RT_TABLE_LEN)?;
    let mut out: Vec<RtKey> = Vec::with_capacity(KEY_SLOTS);
    let mut i: usize = 0;
    while i < KEY_SLOTS
        invariant
            i <= KEY_SLOTS,
            b@.len() >= RT_TABLE_LEN,
            scale > 0,
            out@ =~= Seq::new(i as nat, |k: int| rt_entry(b@, k, scale)),
        decreases KEY_SLOTS - i,
    {
        let o = i * RT_ENTRY_LEN;
        let flags = b[o + 1];
        out.push(
            RtKey {
                axis_type: b[o],
                whole_fast: flags % 2 == 1,
                rampage: (flags / 2) % 2 == 1,
                trigger_um: to_um(le16(b, o + 2), 100),
                press_rt_um: to_um(le16(b, o + 4), scale),
                release_rt_um: to_um(le16(b, o + 6), scale),
            },
        );
        i = i + 1;
    }
    Ok(out)
}

pub fn encode_rt_table(keys: &[RtKey], scale: u32) -> (b: Vec<u8>)
    ensures
        b@ == Seq::new(RT_TABLE_LEN as nat, |j: int| rt_table_byte(keys@, scale, j)),
        b@.len() == RT_TABLE_LEN,
{
    let mut b = vec![0u8; RT_TABLE_LEN];
    let n = if keys.len() < KEY_SLOTS {
        keys.len()
    } else {
        KEY_SLOTS
    };
    let mut i: usize = 0;
    while i < n
        invariant
            n <= KEY_SLOTS,
            n <= keys@.len(),
            n == keys@.len() || n == KEY_SLOTS,
            i <= n,
            b@.len() == RT_TABLE_LEN,
            forall|j: int|
                0 <= j < i * RT_ENTRY_LEN ==> #[trigger] b@[j] == rt_table_byte(keys@, scale, j),
            forall|j: int| i * RT_ENTRY_LEN <= j < RT_TABLE_LEN ==> #[trigger] b@[j] == 0u8,
        decreases n - i,
    {
        let k = keys[i];
        let o = i * RT_ENTRY_LEN;
        let mut flags: u8 = 0;
        if k.whole_fast {
            flags = flags + 1;
        }
        if k.rampage {
            flags = flags + 2;
        }
        let trigger = to_units(k.trigger_um, 100);
        let press = to_units(k.press_rt_um, scale);
        let release = to_units(k.release_rt_um, scale);
        b.set(o, k.axis_type);
        b.set(o + 1, flags);
        b.set(o + 2, (trigger % 256) as u8);
        b.set(o + 3, (trigger / 256) as u8);
        b.set(o + 4, (press % 256) as u8);
        b.set(o + 5, (press / 256) as u8);
        b.set(o + 6, (release % 256) as u8);
        b.set(o + 7, (release / 256) as u8);
        assert forall|j: int| 0 <= j < (i + 1) * RT_ENTRY_LEN implies #[trigger] b@[j]
            == rt_table_byte(keys@, scale, j) by {
            if j >= o {
                assert(j / 8 == i as int && j % 8 == j - o);
            }
        }
        i = i + 1;
    }
    assert forall|j: int| 0 <= j < RT_TABLE_LEN implies #[trigger] b@[j] == rt_table_byte(
        keys@,
        scale,
        j,
    ) by {
        if j >= n * RT_ENTRY_LEN {
            assert(j / 8 >= n as int);
        }
    }
    assert(b@ =~= Seq::new(RT_TABLE_LEN as nat, |j: int| rt_table_byte(keys@, scale, j)));
    b
}

/// Slot `i` of the rapid-trigger table fills bytes `8i` to `8i + 7`. When
/// the slot is written they hold the switch profile; then a flags byte with
/// bit 0 (value 1) set exactly when continuous rapid trigger is on, bit 1
/// (value 2) set exactly when rampage is on, and no other bit; then the
/// actuation depth in hundredths of a millimetre and the press and release
/// deltas in units of `1 / scale` millimetre, each a little-endian `u16`.
/// When the slot is past the keys given, all eight bytes are zero. The table
/// is 1008 bytes.
pub proof fn lemma_rt_table_layout(keys: Seq<RtKey>, scale: u32, i: int)
    requires
        0 <= i < KEY_SLOTS,
    ensures
        ({
            let b = Seq::new(RT_TABLE_LEN as nat, |j: int| rt_table_byte(keys, scale, j));
            &&& b.len() == 1008
            &&& i < keys.len() ==> {
                &&& b[8 * i] == keys[i].axis_type
                &&& b[8 * i + 1] == (if keys[i].whole_fast {
                    1int
                } else {
                    0int
                }) + (if keys[i].rampage {
                    2int
                } else {
                    0int
                })
                &&& b[8 * i + 2] + 256 * b[8 * i + 3] == um_to_units(keys[i].trigger_um, 100)
                &&& b[8 * i + 4] + 256 * b[8 * i + 5] == um_to_units(keys[i].press_rt_um, scale)
                &&& b[8 * i + 6] + 256 * b[8 * i + 7] == um_to_units(keys[i].release_rt_um, scale)
            }
            &&& i >= keys.len() ==> forall|f: int| 0 <= f < 8 ==> #[trigger] b[8 * i + f] == 0
        }),
{
    let b = Seq::new(RT_TABLE_LEN as nat, |j: int| rt_table_byte(keys, scale, j));
    let o = 8 * i;
    assert((o) / 8 == i && (o) % 8 == 0);
    assert((o + 1) / 8 == i && (o + 1) % 8 == 1);
    assert((o + 2) / 8 == i && (o + 2) % 8 == 2);
    assert((o + 3) / 8 == i && (o + 3) % 8 == 3);
    assert((o + 4) / 8 == i && (o + 4) % 8 == 4);
    assert((o + 5) / 8 == i && (o + 5) % 8 == 5);
    assert((o + 6) / 8 == i && (o + 6) % 8 == 6);
    assert((o + 7) / 8 == i && (o + 7) % 8 == 7);
    if i >= keys.len() {
        assert forall|f: int| 0 <= f < 8 implies #[trigger] b[8 * i + f] == 0 by {
            assert((o + f) / 8 == i);
        }
    }
}

/// Reading the rapid-trigger table gives one entry per slot `i`, taken from
/// bytes `8i` to `8i + 7`: the switch profile from byte `8i`; continuous
/// rapid trigger from bit 0 (value 1) of byte `8i + 1` and rampage from its
/// bit 1 (value 2); the actuation depth, in hundredths, and the press and
/// release deltas, in units of `1 / scale` millimetre, from the
/// little-endian `u16`s that follow. A table shorter than 1008 bytes is
/// refused as truncated.
pub proof fn lemma_rt_table_fields(b: Seq<u8>, scale: u32)
    ensures
        b.len() < 1008 ==> rt_table_from(b, scale) == Err::<Seq<RtKey>, ProtocolError>(
            (ProtocolError::Truncated { got: b.len() as usize, want: 1008 }),
        ),
        b.len() >= 1008 ==> (rt_table_from(b, scale) matches Ok(t) && t.len() == 126 && forall|
            i: int,
        |
            0 <= i < 126 ==> {
                &&& (#[trigger] t[i]).axis_type == b[8 * i]
                &&& t[i].whole_fast == (b[8 * i + 1] % 2 == 1)
                &&& t[i].rampage == ((b[8 * i + 1] / 2) % 2 == 1)
                &&& t[i].trigger_um == units_to_um((b[8 * i + 2] + 256 * b[8 * i + 3]) as u16, 100)
                &&& t[i].press_rt_um == units_to_um(
                    (b[8 * i + 4] + 256 * b[8 * i + 5]) as u16,
                    scale,
                )
                &&& t[i].release_rt_um == units_to_um(
                    (b[8 * i + 6] + 256 * b[8 * i + 7]) as u16,
                    scale,
                )
            }),
{
}

/// Whether `um` micrometres is a whole number of `1 / scale` millimetre
/// units that fits the record's `u16`.
pub open spec fn exact_in_units(um: u32, scale: u32) -> bool {
    &&& (um * scale) % 1000 == 0
    &&& um * scale / 1000 <= u16::MAX
}

/// Whether every distance of `k` is held exactly by the record.
pub open spec fn rt_representable(k: RtKey, scale: u32) -> bool {
    &&& exact_in_units(k.trigger_um, 100)
    &&& exact_in_units(k.press_rt_um, scale)
    &&& exact_in_units(k.release_rt_um, scale)
}

/// The entry an unconfigured slot reads back as.
pub open spec fn zero_rt_key() -> RtKey {
    RtKey {
        axis_type: 0,
        whole_fast: false,
        rampage: false,
        trigger_um: 0,
        press_rt_um: 0,
        release_rt_um: 0,
    }
}

/// `items` cut or padded with `filler` to one entry per key slot.
pub open spec fn fill_slots<T>(items: Seq<T>, filler: T) -> Seq<T> {
    Seq::new(
        KEY_SLOTS as nat,
        |i: int|
            if i < items.len() {
                items[i]
            } else {
                filler
            },
    )
}

/// What a key written to the rapid-trigger table reads back as: profile and
/// flags as they were, each distance rounded to the nearest firmware unit and
/// back to the nearest micrometre.
pub open spec fn read_back(k: RtKey, scale: u32) -> RtKey {
    RtKey {
        trigger_um: units_to_um(um_to_units(k.trigger_um, 100), 100),
        press_rt_um: units_to_um(um_to_units(k.press_rt_um, scale), scale),
        release_rt_um: units_to_um(um_to_units(k.release_rt_um, scale), scale),
        ..k
    }
}

/// A rapid-trigger table written for `keys` reads back one entry per slot:
/// each written key as `read_back` gives it, unwritten slots unconfigured.
pub proof fn lemma_rt_table_reads_back(keys: Seq<RtKey>, scale: u32)
    requires
        scale > 0,
    ensures
        rt_table_from(Seq::new(RT_TABLE_LEN as nat, |j: int| rt_table_byte(keys, scale, j)), scale)
            == Ok::<Seq<RtKey>, ProtocolError>(
            fill_slots(keys.map_values(|k: RtKey| read_back(k, scale)), zero_rt_key()),
        ),
{
    let b = Seq::new(RT_TABLE_LEN as nat, |j: int| rt_table_byte(keys, scale, j));
    let shown = keys.map_values(|k: RtKey| read_back(k, scale));
    assert forall|i: int| 0 <= i < KEY_SLOTS implies #[trigger] rt_entry(b, i, scale) == fill_slots(
        shown,
        zero_rt_key(),
    )[i] by {
        let o = i * 8;
        assert(0 <= o && o + 7 < RT_TABLE_LEN);
        assert((o) / 8 == i && (o) % 8 == 0);
        assert((o + 1) / 8 == i && (o + 1) % 8 == 1);
        assert((o + 2) / 8 == i && (o + 2) % 8 == 2);
        assert((o + 3) / 8 == i && (o + 3) % 8 == 3);
        assert((o + 4) / 8 == i && (o + 4) % 8 == 4);
        assert((o + 5) / 8 == i && (o + 5) % 8 == 5);
        assert((o + 6) / 8 == i && (o + 6) % 8 == 6);
        assert((o + 7) / 8 == i && (o + 7) % 8 == 7);
        if i < keys.len() {
            let k = keys[i];
            assert(b[o + 2] == rt_table_byte(keys, scale, o + 2));
            assert(b[o + 3] == rt_table_byte(keys, scale, o + 3));
            assert(b[o + 4] == rt_table_byte(keys, scale, o + 4));
            assert(b[o + 5] == rt_table_byte(keys, scale, o + 5));
            assert(b[o + 6] == rt_table_byte(keys, scale, o + 6));
            assert(b[o + 7] == rt_table_byte(keys, scale, o + 7));
            let t = um_to_units(k.trigger_um, 100);
            let p = um_to_units(k.press_rt_um, scale);
            let r = um_to_units(k.release_rt_um, scale);
            assert(le16_at(b, o + 2) == t);
            assert(le16_at(b, o + 4) == p);
            assert(le16_at(b, o + 6) == r);
            assert(b[o + 1] == rt_flags(k));
            assert(shown[i] == read_back(k, scale));
        } else {
            assert(b[o] == 0 && b[o + 1] == 0 && b[o + 2] == 0 && b[o + 3] == 0);
            assert(b[o + 4] == 0 && b[o + 5] == 0 && b[o + 6] == 0 && b[o + 7] == 0);
            assert(units_to_um(0, scale) == 0) by (nonlinear_arith)
                requires
                    scale > 0,
            ;
        }
    }
    assert(Seq::new(KEY_SLOTS as nat, |i: int| rt_entry(b, i, scale)) =~= fill_slots(
        shown,
        zero_rt_key(),
    ));
}

/// A rapid-trigger table written for `keys` reads back as `keys`, one entry
/// per slot with unwritten slots unconfigured, provided every distance is a
/// whole number of firmware units.
pub proof fn lemma_rt_table_round_trip(keys: Seq<RtKey>, scale: u32)
    requires
        scale > 0,
        forall|i: int| 0 <= i < keys.len() ==> rt_representable(#[trigger] keys[i], scale),
    ensures
        rt_table_from(Seq::new(RT_TABLE_LEN as nat, |j: int| rt_table_byte(keys, scale, j)), scale)
            == Ok::<Seq<RtKey>, ProtocolError>(fill_slots(keys, zero_rt_key())),
{
    lemma_rt_table_reads_back(keys, scale);
    let shown = keys.map_values(|k: RtKey| read_back(k, scale));
    assert forall|i: int| 0 <= i < keys.len() implies #[trigger] shown[i] == keys[i] by {
        let k = keys[i];
        lemma_units_round_trip(k.trigger_um, 100);
        lemma_units_round_trip(k.press_rt_um, scale);
        lemma_units_round_trip(k.release_rt_um, scale);
    }
    assert(shown =~= keys);
}

/// Whether `um` micrometres fits the record's `u16` once rounded to units of
/// `1 / scale` millimetre.
pub open spec fn fits_in_units(um: u32, scale: u32) -> bool {
    (um * scale + 500) / 1000 <= u16::MAX
}

/// A distance rounded to firmware units and back lands within half a unit
/// of where it was, when a unit is a whole number of micrometres.
pub proof fn lemma_units_within_half(um: u32, scale: u32)
    requires
        scale > 0,
        1000int % (scale as int) == 0,
        fits_in_units(um, scale),
    ensures
        -500 < scale * (units_to_um(um_to_units(um, scale), scale) - um) <= 500,
{
    let u = (um * scale + 500) / 1000;
    let k: int = 1000int / (scale as int);
    assert(k * scale == 1000) by (nonlinear_arith)
        requires
            1000int % (scale as int) == 0,
            k == 1000int / (scale as int),
            scale > 0,
    ;
    assert(um_to_units(um, scale) == u);
    assert((u * 1000 + scale / 2) / (scale as int) == u * k) by (nonlinear_arith)
        requires
            k * scale == 1000,
            scale > 0,
            u >= 0,
    ;
    assert(um * scale - 500 < u * 1000 <= um * scale + 500) by (nonlinear_arith)
        requires
            u == (um * scale + 500) / 1000,
            um >= 0,
            scale > 0,
    ;
    assert(scale * (u * k - um) == u * 1000 - um * scale) by (nonlinear_arith)
        requires
            k * scale == 1000,
    ;
}

/// A rapid-trigger table written for `keys` and read back gives every key
/// its profile and flags unchanged, its actuation depth within 5 µm (half a
/// hundredth), and its rapid-trigger deltas within half a firmware unit, at
/// either precision; unwritten slots read back unconfigured. Distances must
/// fit the record.
pub proof fn lemma_rt_table_round_trip_within_half_unit(keys: Seq<RtKey>, scale: u32)
    requires
        scale > 0,
        1000int % (scale as int) == 0,
        forall|i: int|
            0 <= i < keys.len() ==> fits_in_units((#[trigger] keys[i]).trigger_um, 100)
                && fits_in_units(keys[i].press_rt_um, scale) && fits_in_units(
                keys[i].release_rt_um,
                scale,
            ),
    ensures
        rt_table_from(Seq::new(RT_TABLE_LEN as nat, |j: int| rt_table_byte(keys, scale, j)), scale)
            matches Ok(t) && t.len() == KEY_SLOTS && (forall|i: int|
            0 <= i < keys.len() && i < KEY_SLOTS ==> {
                &&& (#[trigger] t[i]).axis_type == keys[i].axis_type
                &&& t[i].whole_fast == keys[i].whole_fast
                &&& t[i].rampage == keys[i].rampage
                &&& -5 <= t[i].trigger_um - keys[i].trigger_um <= 5
                &&& -500 < scale * (t[i].press_rt_um - keys[i].press_rt_um) <= 500
                &&& -500 < scale * (t[i].release_rt_um - keys[i].release_rt_um) <= 500
            }) && (forall|i: int| keys.len() <= i < KEY_SLOTS ==> #[trigger] t[i] == zero_rt_key()),
{
    lemma_rt_table_reads_back(keys, scale);
    let shown = keys.map_values(|k: RtKey| read_back(k, scale));
    let t = fill_slots(shown, zero_rt_key());
    assert forall|i: int| 0 <= i < keys.len() && i < KEY_SLOTS implies {
        &&& (#[trigger] t[i]).axis_type == keys[i].axis_type
        &&& t[i].whole_fast == keys[i].whole_fast
        &&& t[i].rampage == keys[i].rampage
        &&& -5 <= t[i].trigger_um - keys[i].trigger_um <= 5
        &&& -500 < scale * (t[i].press_rt_um - keys[i].press_rt_um) <= 500
        &&& -500 < scale * (t[i].release_rt_um - keys[i].release_rt_um) <= 500
    } by {
        let k = keys[i];
        assert(t[i] == read_back(k, scale));
        lemma_units_within_half(k.trigger_um, 100);
        lemma_units_within_half(k.press_rt_um, scale);
        lemma_units_within_half(k.release_rt_um, scale);
    }
}

/// A factory-reset board stores nothing for actuation: an all-zero table
/// reads back as unconfigured in every slot, at either precision.
pub proof fn lemma_zero_table_unconfigured(scale: u32)
    requires
        scale > 0,
    ensures
        rt_table_from(Seq::new(RT_TABLE_LEN as nat, |j: int| 0u8), scale) matches Ok(t) && t.len()
            == KEY_SLOTS && forall|i: int| 0 <= i < t.len() ==> (#[trigger] t[i]).unconfigured(),
{
    assert(units_to_um(0, scale) == 0) by (nonlinear_arith)
        requires
            scale > 0,
    ;
}

// ------------------------------------------------------------------ lighting

pub const LED_EFFECT_LEN: usize = 16;

#[derive(Debug, Clone, Copy, PartialEq, Eq, Default, Structural)]
pub struct Rgb {
    pub r: u8,
    pub g: u8,
    pub b: u8,
}

impl Rgb {
    pub fn new(r: u8, g: u8, b: u8) -> (c: Self)
        ensures
            c == (Rgb { r, g, b }),
    {
        Self { r, g, b }
    }
}

/// Global lighting state.
///
/// Verified against firmware 1.09 on `0C45:8A01`.
///
/// `color_mode` decides where the colour comes from, and nothing else works
/// until it is right:
///
/// * `0` — use `primary` (and `secondary`) from this record.
/// * `1` — the firmware chooses its own colours, producing a rainbow, and the
///   RGB bytes here are ignored.
///
/// Reading the record back does not reliably echo the colour that was written,
/// so treat `GET_LED_EFFECT` as authoritative for `mode`, `brightness`,
/// `speed` and `direction`, but not for colour.
#[derive(Debug, Clone, Copy, PartialEq, Eq, Default)]
pub struct LedEffect {
    pub mode: u8,
    /// Only used when `color_mode` is 0.
    pub primary: Rgb,
    /// Only used when `color_mode` is 0.
    pub secondary: Rgb,
    /// 0 = use `primary`/`secondary`; 1 = firmware picks (rainbow).
    pub color_mode: u8,
    /// 1..=5. The vendor reads the bounds as `minBrightness || 1` /
    /// `maxBrightness || 5`, and this board declares no override.
    pub brightness: u8,
    /// 1..=5, by the same rule as `brightness`. Higher values are not a
    /// wider range — the firmware misreads them.
    pub speed: u8,
    pub direction: u8,
    pub effect_mode_type: u8,
}

/// The lighting record `b` holds.
pub open spec fn led_effect_from(b: Seq<u8>) -> Result<LedEffect, ProtocolError> {
    if b.len() < LED_EFFECT_LEN {
        Err(truncated(b, LED_EFFECT_LEN as nat))
    } else {
        Ok(
            LedEffect {
                mode: b[0],
                primary: Rgb { r: b[1], g: b[2], b: b[3] },
                secondary: Rgb { r: b[5], g: b[6], b: b[7] },
                color_mode: b[8],
                brightness: b[9],
                speed: b[10],
                direction: b[11],
                effect_mode_type: b[12],
            },
        )
    }
}

/// The lighting record written for `e`: the fields, the full-scale driver
/// setting in byte 4, and the check bytes `0xAA 0x55` the firmware
/// validates at the end.
pub open spec fn led_effect_bytes(e: LedEffect) -> Seq<u8> {
    seq![
        e.mode,
        e.primary.r,
        e.primary.g,
        e.primary.b,
        0xFFu8,
        e.secondary.r,
        e.secondary.g,
        e.secondary.b,
        e.color_mode,
        e.brightness,
        e.speed,
        e.direction,
        e.effect_mode_type,
        0u8,
        0xAAu8,
        0x55u8,
    ]
}

impl LedEffect {
    /// What the firmware reports after a full factory reset. Measured, not
    /// inferred; `color_mode` 1 means the board picks its own colours, which
    /// is why a reset board shows a moving rainbow.
    pub fn factory_default() -> (e: Self)
        ensures
            e == (LedEffect {
                mode: 11,
                primary: Rgb { r: 255, g: 255, b: 255 },
                secondary: Rgb { r: 0, g: 0, b: 0 },
                color_mode: 1,
                brightness: 5,
                speed: 4,
                direction: 0,
                effect_mode_type: 0,
            }),
    {
        Self {
            mode: 11,
            primary: Rgb::new(255, 255, 255),
            secondary: Rgb::new(0, 0, 0),
            color_mode: 1,
            brightness: 5,
            speed: 4,
            direction: 0,
            effect_mode_type: 0,
        }
    }

    pub fn request() -> (r: Request<'static>)
        ensures
            r.is_read_of(Cmd::GetLedEffect, LED_EFFECT_LEN),
    {
        Request::read(Cmd::GetLedEffect, LED_EFFECT_LEN)
    }

    pub fn decode(b: &[u8]) -> (r: Result<Self, ProtocolError>)
        ensures
            r == led_effect_from(b@),
            r is Ok <==> b@.len() >= LED_EFFECT_LEN,
            r matches Ok(e) ==> {
                &&& e.mode == b@[0]
                &&& e.primary == (Rgb { r: b@[1], g: b@[2], b: b@[3] })
                &&& e.secondary == (Rgb { r: b@[5], g: b@[6], b: b@[7] })
                &&& e.color_mode == b@[8]
                &&& e.brightness == b@[9]
                &&& e.speed == b@[10]
                &&& e.direction == b@[11]
                &&& e.effect_mode_type == b@[12]
            },
    {
        proof {
            lemma_led_effect_fields(b@);
        }
        need(b, LED_EFFECT_LEN)?;
        Ok(
            Self {
                mode: b[0],
                primary: Rgb::new(b[1], b[2], b[3]),
                secondary: Rgb::new(b[5], b[6], b[7]),
                color_mode: b[8],
                brightness: b[9],
                speed: b[10],
                direction: b[11],
                effect_mode_type: b[12],
            },
        )
    }

    pub fn encode(&self) -> (b: Vec<u8>)
        ensures
            b@ == led_effect_bytes(*self),
            b@.len() == LED_EFFECT_LEN,
            b@[0] == self.mode,
            b@[1] == self.primary.r && b@[2] == self.primary.g && b@[3] == self.primary.b,
            b@[4] == 0xFF,
            b@[5] == self.secondary.r && b@[6] == self.secondary.g && b@[7] == self.secondary.b,
            b@[8] == self.color_mode,
            b@[9] == self.brightness,
            b@[10] == self.speed,
            b@[11] == self.direction,
            b@[12] == self.effect_mode_type,
            b@[13] == 0 && b@[14] == 0xAA && b@[15] == 0x55,
    {
        proof {
            lemma_led_effect_layout(*self);
        }
        let mut b = vec![0u8; LED_EFFECT_LEN];
        b.set(0, self.mode);
        b.set(1, self.primary.r);
        b.set(2, self.primary.g);
        b.set(3, self.primary.b);
        b.set(4, 0xFF);  // driver setting, always full-scale
        b.set(5, self.secondary.r);
        b.set(6, self.secondary.g);
        b.set(7, self.secondary.b);
        b.set(8, self.color_mode);
        b.set(9, self.brightness);
        b.set(10, self.speed);
        b.set(11, self.direction);
        b.set(12, self.effect_mode_type);
        // Trailing check bytes the firmware validates.
        b.set(14, 0xAA);
        b.set(15, 0x55);
        assert(b@ =~= led_effect_bytes(*self));
        b
    }
}

/// Every lighting state survives a write and a read back unchanged.
pub proof fn lemma_led_effect_round_trip(e: LedEffect)
    ensures
        led_effect_from(led_effect_bytes(e)) == Ok::<LedEffect, ProtocolError>(e),
{
}

/// The lighting record sits at the firmware's fixed offsets: byte 0 the
/// mode, 1 to 3 the primary colour, 4 the full-scale driver setting 0xFF,
/// 5 to 7 the secondary colour, 8 the colour source, 9 the brightness, 10
/// the speed, 11 the direction, 12 the effect type, 13 zero, and the check
/// bytes 0xAA 0x55 in 14 and 15.
pub proof fn lemma_led_effect_layout(e: LedEffect)
    ensures
        ({
            let b = led_effect_bytes(e);
            &&& b.len() == 16
            &&& b[0] == e.mode
            &&& b[1] == e.primary.r && b[2] == e.primary.g && b[3] == e.primary.b
            &&& b[4] == 0xFF
            &&& b[5] == e.secondary.r && b[6] == e.secondary.g && b[7] == e.secondary.b
            &&& b[8] == e.color_mode
            &&& b[9] == e.brightness
            &&& b[10] == e.speed
            &&& b[11] == e.direction
            &&& b[12] == e.effect_mode_type
            &&& b[13] == 0
            &&& b[14] == 0xAA && b[15] == 0x55
        }),
{
}

/// Reading the lighting record takes each field from its fixed offset: the
/// brightness from byte 9, the speed from byte 10, the colours from bytes 1
/// to 3 and 5 to 7, and so on; a record shorter than 16 bytes is refused as
/// truncated.
pub proof fn lemma_led_effect_fields(b: Seq<u8>)
    ensures
        b.len() < 16 ==> led_effect_from(b) == Err::<LedEffect, ProtocolError>(
            (ProtocolError::Truncated { got: b.len() as usize, want: 16 }),
        ),
        b.len() >= 16 ==> (led_effect_from(b) matches Ok(e) && {
            &&& e.mode == b[0]
            &&& e.primary.r == b[1] && e.primary.g == b[2] && e.primary.b == b[3]
            &&& e.secondary.r == b[5] && e.secondary.g == b[6] && e.secondary.b == b[7]
            &&& e.color_mode == b[8]
            &&& e.brightness == b[9]
            &&& e.speed == b[10]
            &&& e.direction == b[11]
            &&& e.effect_mode_type == b[12]
        }),
{
}

pub const CUSTOM_LED_LEN: usize = 504;

/// The colour of slot `i` in a per-key colour table.
pub open spec fn slot_color(b: Seq<u8>, i: int) -> Rgb {
    Rgb { r: b[4 * i + 1], g: b[4 * i + 2], b: b[4 * i + 3] }
}

/// The per-key colours table `b` holds.
pub open spec fn custom_led_from(b: Seq<u8>) -> Result<Seq<Rgb>, ProtocolError> {
    if b.len() < CUSTOM_LED_LEN {
        Err(truncated(b, CUSTOM_LED_LEN as nat))
    } else {
        Ok(Seq::new(KEY_SLOTS as nat, |i: int| slot_color(b, i)))
    }
}

/// Byte `j` of the per-key colour table written for `colors`: each written
/// slot carries its LED index and its colour; slots past the end of
/// `colors` stay zero.
pub open spec fn custom_led_byte(colors: Seq<Rgb>, j: int) -> u8 {
    let i = j / 4;
    let f = j % 4;
    if i >= colors.len() {
        0
    } else if f == 0 {
        i as u8
    } else if f == 1 {
        colors[i].r
    } else if f == 2 {
        colors[i].g
    } else {
        colors[i].b
    }
}

/// Per-key static colours used when `LedEffect::mode` selects custom lighting.
pub fn decode_custom_led(b: &[u8]) -> (r: Result<Vec<Rgb>, ProtocolError>)
    ensures
        seq_result(r) == custom_led_from(b@),
        r is Ok <==> b@.len() >= CUSTOM_LED_LEN,
        r matches Ok(v) ==> v@.len() == KEY_SLOTS && forall|i: int|
            0 <= i < KEY_SLOTS ==> #[trigger] v@[i] == (Rgb {
                r: b@[4 * i + 1],
                g: b@[4 * i + 2],
                b: b@[4 * i + 3],
            }),
{
    proof {
        lemma_custom_led_fields(b@);
    }
    need(b, CUSTOM_LED_LEN)?;
    let mut out: Vec<Rgb> = Vec::with_capacity(KEY_SLOTS);
    let mut i: usize = 0;
    while i < KEY_SLOTS
        invariant
            i <= KEY_SLOTS,
            b@.len() >= CUSTOM_LED_LEN,
            out@ =~= Seq::new(i as nat, |k: int| slot_color(b@, k)),
        decreases KEY_SLOTS - i,
    {
        let o = i * 4;
        out.push(Rgb::new(b[o + 1], b[o + 2], b[o + 3]));
        i = i + 1;
    }
    Ok(out)
}

pub fn encode_custom_led(colors: &[Rgb]) -> (b: Vec<u8>)
    ensures
        b@ == Seq::new(CUSTOM_LED_LEN as nat, |j: int| custom_led_byte(colors@, j)),
{
    let mut b = vec![0u8; CUSTOM_LED_LEN];
    let n = if colors.len() < KEY_SLOTS {
        colors.len()
    } else {
        KEY_SLOTS
    };
    let mut i: usize = 0;
    while i < n
        invariant
            n <= KEY_SLOTS,
            n <= colors@.len(),
            n == colors@.len() || n == KEY_SLOTS,
            i <= n,
            b@.len() == CUSTOM_LED_LEN,
            forall|j: int| 0 <= j < i * 4 ==> #[trigger] b@[j] == custom_led_byte(colors@, j),
            forall|j: int| i * 4 <= j < CUSTOM_LED_LEN ==> #[trigger] b@[j] == 0u8,
        decreases n - i,
    {
        let c = colors[i];
        let o = i * 4;
        b.set(o, i as u8);  // LED index
        b.set(o + 1, c.r);
        b.set(o + 2, c.g);
        b.set(o + 3, c.b);
        assert forall|j: int| 0 <= j < (i + 1) * 4 implies #[trigger] b@[j] == custom_led_byte(
            colors@,
            j,
        ) by {
            if j >= o {
                assert(j / 4 == i as int && j % 4 == j - o);
            }
        }
        i = i + 1;
    }
    assert forall|j: int| 0 <= j < CUSTOM_LED_LEN implies #[trigger] b@[j] == custom_led_byte(
        colors@,
        j,
    ) by {
        if j >= n * 4 {
            assert(j / 4 >= n as int);
        }
    }
    assert(b@ =~= Seq::new(CUSTOM_LED_LEN as nat, |j: int| custom_led_byte(colors@, j)));
    b
}

/// A per-key colour table written for `colors` reads back as `colors`, one
/// colour per slot, with unwritten slots black.
pub proof fn lemma_custom_led_round_trip(colors: Seq<Rgb>)
    ensures
        custom_led_from(Seq::new(CUSTOM_LED_LEN as nat, |j: int| custom_led_byte(colors, j)))
            == Ok::<Seq<Rgb>, ProtocolError>(fill_slots(colors, Rgb { r: 0, g: 0, b: 0 })),
{
    let b = Seq::new(CUSTOM_LED_LEN as nat, |j: int| custom_led_byte(colors, j));
    assert forall|i: int| 0 <= i < KEY_SLOTS implies #[trigger] slot_color(b, i) == fill_slots(
        colors,
        Rgb { r: 0, g: 0, b: 0 },
    )[i] by {
        let o = 4 * i;
        assert((o + 1) / 4 == i && (o + 1) % 4 == 1);
        assert((o + 2) / 4 == i && (o + 2) % 4 == 2);
        assert((o + 3) / 4 == i && (o + 3) % 4 == 3);
        assert(b[o + 1] == custom_led_byte(colors, o + 1));
        assert(b[o + 2] == custom_led_byte(colors, o + 2));
        assert(b[o + 3] == custom_led_byte(colors, o + 3));
    }
    assert(Seq::new(KEY_SLOTS as nat, |i: int| slot_color(b, i)) =~= fill_slots(
        colors,
        Rgb { r: 0, g: 0, b: 0 },
    ));
}

/// Slot `i` of the per-key colour table, bytes `4i` to `4i + 3`, holds the
/// LED index `i` and then the red, green and blue of the slot's colour when
/// the slot is written, and four zeros when it is past the colours given.
/// The table is 504 bytes.
pub proof fn lemma_custom_led_layout(colors: Seq<Rgb>, i: int)
    requires
        0 <= i < KEY_SLOTS,
    ensures
        ({
            let b = Seq::new(CUSTOM_LED_LEN as nat, |j: int| custom_led_byte(colors, j));
            &&& b.len() == 504
            &&& i < colors.len() ==> {
                &&& b[4 * i] == i
                &&& b[4 * i + 1] == colors[i].r
                &&& b[4 * i + 2] == colors[i].g
                &&& b[4 * i + 3] == colors[i].b
            }
            &&& i >= colors.len() ==> b[4 * i] == 0 && b[4 * i + 1] == 0 && b[4 * i + 2] == 0
                && b[4 * i + 3] == 0
        }),
{
    let o = 4 * i;
    assert(o / 4 == i && o % 4 == 0);
    assert((o + 1) / 4 == i && (o + 1) % 4 == 1);
    assert((o + 2) / 4 == i && (o + 2) % 4 == 2);
    assert((o + 3) / 4 == i && (o + 3) % 4 == 3);
}

/// Reading the per-key colour table gives one colour per slot `i`, its red,
/// green and blue taken from bytes `4i + 1` to `4i + 3`; a table shorter
/// than 504 bytes is refused as truncated.
pub proof fn lemma_custom_led_fields(b: Seq<u8>)
    ensures
        b.len() < 504 ==> custom_led_from(b) == Err::<Seq<Rgb>, ProtocolError>(
            (ProtocolError::Truncated { got: b.len() as usize, want: 504 }),
        ),
        b.len() >= 504 ==> (custom_led_from(b) matches Ok(t) && t.len() == 126 && forall|i: int|
            0 <= i < 126 ==> {
                &&& (#[trigger] t[i]).r == b[4 * i + 1]
                &&& t[i].g == b[4 * i + 2]
                &&& t[i].b == b[4 * i + 3]
            }),
{
}

// --------------------------------------------------------------- key actions

/// What a key slot does. The firmware stores four bytes per slot; the first
/// selects the page and the rest are page-specific arguments.
#[derive(Debug, Clone, Copy, PartialEq, Eq, Structural)]
pub enum Page {
    Default,
    Mouse,
    Keyboard,
    ConsumerKey,
    SystemKey,
    ExtraFunction,
    Macro,
    Cb,
    Dks,
    Mt,
    Tgl,
    Socd,
    Rs,
    Func,
}

/// The page a selector byte names, if any.
pub open spec fn page_of(v: u8) -> Option<Page> {
        if v == 0 {
            Some(Page::Default)
        } else if v == 1 {
            Some(Page::Mouse)
        } else if v == 2 {
            Some(Page::Keyboard)
        } else if v == 3 {
            Some(Page::ConsumerKey)
        } else if v == 4 {
            Some(Page::SystemKey)
        } else if v == 5 {
            Some(Page::ExtraFunction)
        } else if v == 6 {
            Some(Page::Macro)
        } else if v == 7 {
            Some(Page::Cb)
        } else if v == 8 {
            Some(Page::Dks)
        } else if v == 9 {
            Some(Page::Mt)
        } else if v == 10 {
            Some(Page::Tgl)
        } else if v == 11 {
            Some(Page::Socd)
        } else if v == 12 {
            Some(Page::Rs)
        } else if v == 13 {
            Some(Page::Func)
        } else {
            None
        }
}

impl Page {
    /// The selector byte the firmware stores for this page.
    pub open spec fn code(self) -> u8 {
        match self {
            Page::Default => 0,
            Page::Mouse => 1,
            Page::Keyboard => 2,
            Page::ConsumerKey => 3,
            Page::SystemKey => 4,
            Page::ExtraFunction => 5,
            Page::Macro => 6,
            Page::Cb => 7,
            Page::Dks => 8,
            Page::Mt => 9,
            Page::Tgl => 10,
            Page::Socd => 11,
            Page::Rs => 12,
            Page::Func => 13,
        }
    }

    pub fn raw(self) -> (v: u8)
        ensures
            v == self.code(),
    {
        match self {
            Page::Default => 0,
            Page::Mouse => 1,
            Page::Keyboard => 2,
            Page::ConsumerKey => 3,
            Page::SystemKey => 4,
            Page::ExtraFunction => 5,
            Page::Macro => 6,
            Page::Cb => 7,
            Page::Dks => 8,
            Page::Mt => 9,
            Page::Tgl => 10,
            Page::Socd => 11,
            Page::Rs => 12,
            Page::Func => 13,
        }
    }

    pub fn from_raw(v: u8) -> (p: Option<Page>)
        ensures
            p == page_of(v),
    {
        match v {
            0 => Some(Page::Default),
            1 => Some(Page::Mouse),
            2 => Some(Page::Keyboard),
            3 => Some(Page::ConsumerKey),
            4 => Some(Page::SystemKey),
            5 => Some(Page::ExtraFunction),
            6 => Some(Page::Macro),
            7 => Some(Page::Cb),
            8 => Some(Page::Dks),
            9 => Some(Page::Mt),
            10 => Some(Page::Tgl),
            11 => Some(Page::Socd),
            12 => Some(Page::Rs),
            13 => Some(Page::Func),
            _ => None,
        }
    }
}

/// Every page reads back from its own selector byte.
pub proof fn lemma_page_round_trip(p: Page)
    ensures
        page_of(p.code()) == Some(p),
{
}

#[derive(Debug, Clone, Copy, PartialEq, Eq, Structural)]
pub struct KeyAction {
    pub page: Page,
    pub p1: u8,
    pub p2: u8,
    pub p3: u8,
}

/// A slot that does what its legend says.
pub open spec fn default_action() -> KeyAction {
    KeyAction { page: Page::Default, p1: 0, p2: 0, p3: 0 }
}

impl Default for KeyAction {
    fn default() -> (a: Self)
        ensures
            a == default_action(),
    {
        Self { page: Page::Default, p1: 0, p2: 0, p3: 0 }
    }
}

impl KeyAction {
    /// A plain keystroke: `modifiers` is the HID modifier bitmap, `usage` a
    /// HID Keyboard/Keypad usage ID.
    pub fn keyboard(modifiers: u8, usage: u8) -> (a: Self)
        ensures
            a == (KeyAction { page: Page::Keyboard, p1: modifiers, p2: usage, p3: 0 }),
    {
        Self { page: Page::Keyboard, p1: modifiers, p2: usage, p3: 0 }
    }

    /// A mouse action: function `button` (1 is a button, 3 the wheel) with
    /// argument `value`.
    pub fn mouse(button: u8, value: u8) -> (a: Self)
        ensures
            a == (KeyAction { page: Page::Mouse, p1: button, p2: value, p3: 0 }),
    {
        Self { page: Page::Mouse, p1: button, p2: value, p3: 0 }
    }

    /// A Consumer-page usage, stored little-endian in the two arguments.
    pub fn consumer(usage: u16) -> (a: Self)
        ensures
            a == (KeyAction {
                page: Page::ConsumerKey,
                p1: (usage % 256) as u8,
                p2: (usage / 256) as u8,
                p3: 0,
            }),
    {
        Self { page: Page::ConsumerKey, p1: (usage % 256) as u8, p2: (usage / 256) as u8, p3: 0 }
    }

    pub fn disabled() -> (a: Self)
        ensures
            a == default_action(),
    {
        Self { page: Page::Default, p1: 0, p2: 0, p3: 0 }
    }
}

pub const KEY_TABLE_LEN: usize = 504;

/// The action in slot `i` of the keymap table `b`; an unknown page selector
/// reads as the default page.
pub open spec fn slot_action(b: Seq<u8>, i: int) -> KeyAction {
    KeyAction {
        page: match page_of(b[4 * i]) {
            Some(p) => p,
            None => Page::Default,
        },
        p1: b[4 * i + 1],
        p2: b[4 * i + 2],
        p3: b[4 * i + 3],
    }
}

/// The keymap table `b` holds.
pub open spec fn key_table_from(b: Seq<u8>) -> Result<Seq<KeyAction>, ProtocolError> {
    if b.len() < KEY_TABLE_LEN {
        Err(truncated(b, KEY_TABLE_LEN as nat))
    } else {
        Ok(Seq::new(KEY_SLOTS as nat, |i: int| slot_action(b, i)))
    }
}

/// Byte `j` of the keymap table written for `keys`; slots past the end of
/// `keys` stay zero, which is the default page.
pub open spec fn key_table_byte(keys: Seq<KeyAction>, j: int) -> u8 {
    let i = j / 4;
    let f = j % 4;
    if i >= keys.len() {
        0
    } else if f == 0 {
        keys[i].page.code()
    } else if f == 1 {
        keys[i].p1
    } else if f == 2 {
        keys[i].p2
    } else {
        keys[i].p3
    }
}

pub fn decode_key_table(b: &[u8]) -> (r: Result<Vec<KeyAction>, ProtocolError>)
    ensures
        seq_result(r) == key_table_from(b@),
        r is Ok <==> b@.len() >= KEY_TABLE_LEN,
        r matches Ok(v) ==> v@.len() == KEY_SLOTS && forall|i: int|
            0 <= i < KEY_SLOTS ==> {
                &&& (#[trigger] v@[i]).p1 == b@[4 * i + 1]
                &&& v@[i].p2 == b@[4 * i + 2]
                &&& v@[i].p3 == b@[4 * i + 3]
            },
{
    proof {
        lemma_key_table_fields(b@);
    }
    need(b, KEY_TABLE_LEN)?;
    let mut out: Vec<KeyAction> = Vec::with_capacity(KEY_SLOTS);
    let mut i: usize = 0;
    while i < KEY_SLOTS
        invariant
            i <= KEY_SLOTS,
            b@.len() >= KEY_TABLE_LEN,
            out@ =~= Seq::new(i as nat, |k: int| slot_action(b@, k)),
        decreases KEY_SLOTS - i,
    {
        let o = i * 4;
        let page = match Page::from_raw(b[o]) {
            Some(p) => p,
            None => Page::Default,
        };
        out.push(KeyAction { page, p1: b[o + 1], p2: b[o + 2], p3: b[o + 3] });
        i = i + 1;
    }
    Ok(out)
}

pub fn encode_key_table(keys: &[KeyAction]) -> (b: Vec<u8>)
    ensures
        b@ == Seq::new(KEY_TABLE_LEN as nat, |j: int| key_table_byte(keys@, j)),
        b@.len() == KEY_TABLE_LEN,
{
    let mut b = vec![0u8; KEY_TABLE_LEN];
    let n = if keys.len() < KEY_SLOTS {
        keys.len()
    } else {
        KEY_SLOTS
    };
    let mut i: usize = 0;
    while i < n
        invariant
            n <= KEY_SLOTS,
            n <= keys@.len(),
            n == keys@.len() || n == KEY_SLOTS,
            i <= n,
            b@.len() == KEY_TABLE_LEN,
            forall|j: int| 0 <= j < i * 4 ==> #[trigger] b@[j] == key_table_byte(keys@, j),
            forall|j: int| i * 4 <= j < KEY_TABLE_LEN ==> #[trigger] b@[j] == 0u8,
        decreases n - i,
    {
        let k = keys[i];
        let o = i * 4;
        b.set(o, k.page.raw());
        b.set(o + 1, k.p1);
        b.set(o + 2, k.p2);
        b.set(o + 3, k.p3);
        assert forall|j: int| 0 <= j < (i + 1) * 4 implies #[trigger] b@[j] == key_table_byte(
            keys@,
            j,
        ) by {
            if j >= o {
                assert(j / 4 == i as int && j % 4 == j - o);
            }
        }
        i = i + 1;
    }
    assert forall|j: int| 0 <= j < KEY_TABLE_LEN implies #[trigger] b@[j] == key_table_byte(
        keys@,
        j,
    ) by {
        if j >= n * 4 {
            assert(j / 4 >= n as int);
        }
    }
    assert(b@ =~= Seq::new(KEY_TABLE_LEN as nat, |j: int| key_table_byte(keys@, j)));
    b
}

/// A keymap written for `keys` reads back as `keys`, one action per slot,
/// with unwritten slots on the default page.
pub proof fn lemma_key_table_round_trip(keys: Seq<KeyAction>)
    ensures
        key_table_from(Seq::new(KEY_TABLE_LEN as nat, |j: int| key_table_byte(keys, j)))
            == Ok::<Seq<KeyAction>, ProtocolError>(fill_slots(keys, default_action())),
{
    let b = Seq::new(KEY_TABLE_LEN as nat, |j: int| key_table_byte(keys, j));
    assert forall|i: int| 0 <= i < KEY_SLOTS implies #[trigger] slot_action(b, i) == fill_slots(
        keys,
        default_action(),
    )[i] by {
        let o = 4 * i;
        assert(o / 4 == i && o % 4 == 0);
        assert((o + 1) / 4 == i && (o + 1) % 4 == 1);
        assert((o + 2) / 4 == i && (o + 2) % 4 == 2);
        assert((o + 3) / 4 == i && (o + 3) % 4 == 3);
        assert(b[o] == key_table_byte(keys, o));
        assert(b[o + 1] == key_table_byte(keys, o + 1));
        assert(b[o + 2] == key_table_byte(keys, o + 2));
        assert(b[o + 3] == key_table_byte(keys, o + 3));
        if i < keys.len() {
            lemma_page_round_trip(keys[i].page);
        }
    }
    assert(Seq::new(KEY_SLOTS as nat, |i: int| slot_action(b, i)) =~= fill_slots(
        keys,
        default_action(),
    ));
}

/// Slot `i` of the keymap table, bytes `4i` to `4i + 3`, holds the page
/// selector and then the three page arguments in order when the slot is
/// written, and four zeros, the default page, when it is past the actions
/// given. The table is 504 bytes.
pub proof fn lemma_key_table_layout(keys: Seq<KeyAction>, i: int)
    requires
        0 <= i < KEY_SLOTS,
    ensures
        ({
            let b = Seq::new(KEY_TABLE_LEN as nat, |j: int| key_table_byte(keys, j));
            &&& b.len() == 504
            &&& i < keys.len() ==> {
                &&& b[4 * i] == keys[i].page.code()
                &&& b[4 * i + 1] == keys[i].p1
                &&& b[4 * i + 2] == keys[i].p2
                &&& b[4 * i + 3] == keys[i].p3
            }
            &&& i >= keys.len() ==> b[4 * i] == 0 && b[4 * i + 1] == 0 && b[4 * i + 2] == 0
                && b[4 * i + 3] == 0
        }),
{
    let o = 4 * i;
    assert(o / 4 == i && o % 4 == 0);
    assert((o + 1) / 4 == i && (o + 1) % 4 == 1);
    assert((o + 2) / 4 == i && (o + 2) % 4 == 2);
    assert((o + 3) / 4 == i && (o + 3) % 4 == 3);
}

/// Reading the keymap table gives one action per slot `i`: the page named
/// by byte `4i`, or the default page when that byte names none, and the
/// three arguments from bytes `4i + 1` to `4i + 3`. A table shorter than
/// 504 bytes is refused as truncated.
pub proof fn lemma_key_table_fields(b: Seq<u8>)
    ensures
        b.len() < 504 ==> key_table_from(b) == Err::<Seq<KeyAction>, ProtocolError>(
            (ProtocolError::Truncated { got: b.len() as usize, want: 504 }),
        ),
        b.len() >= 504 ==> (key_table_from(b) matches Ok(t) && t.len() == 126 && forall|i: int|
            0 <= i < 126 ==> {
                &&& (page_of(b[4 * i]) matches Some(p) ==> (#[trigger] t[i]).page == p)
                &&& (page_of(b[4 * i]) is None ==> t[i].page == Page::Default)
                &&& t[i].p1 == b[4 * i + 1]
                &&& t[i].p2 == b[4 * i + 2]
                &&& t[i].p3 == b[4 * i + 3]
            }),
{
}

/// Request body for [`crate::Cmd::GetAllLightsRgb`]: the firmware wants the
/// LED indices it should report on, with the colour bytes left clear.
pub fn all_lights_request_body() -> (b: Vec<u8>)
    ensures
        b@ == Seq::new(
            CUSTOM_LED_LEN as nat,
            |j: int|
                if j % 4 == 0 {
                    (j / 4) as u8
                } else {
                    0u8
                },
        ),
{
    let mut b = vec![0u8; CUSTOM_LED_LEN];
    let mut i: usize = 0;
    while i < KEY_SLOTS
        invariant
            i <= KEY_SLOTS,
            b@.len() == CUSTOM_LED_LEN,
            forall|j: int|
                0 <= j < CUSTOM_LED_LEN ==> #[trigger] b@[j] == if j % 4 == 0 && j / 4 < i {
                    (j / 4) as u8
                } else {
                    0u8
                },
        decreases KEY_SLOTS - i,
    {
        b.set(i * 4, i as u8);
        i = i + 1;
    }
    assert(b@ =~= Seq::new(
        CUSTOM_LED_LEN as nat,
        |j: int|
            if j % 4 == 0 {
                (j / 4) as u8
            } else {
                0u8
            },
    ));
    b
}

/// Live colour of every LED, as the keyboard is currently driving them.
///
/// Unlike [`decode_custom_led`], which reports the stored per-key table, this
/// reflects what the lighting engine is actually displaying right now — the
/// only reliable way to tell whether a write changed anything.
pub fn decode_all_lights(b: &[u8]) -> (r: Result<Vec<Rgb>, ProtocolError>)
    ensures
        seq_result(r) == custom_led_from(b@),
{
    decode_custom_led(b)
}

// -------------------------------------------------- live calibration reports

/// Unsolicited report streamed while calibration or simulation test is on.
/// Carries the live magnetic reading for one key.
#[derive(Debug, Clone, Copy, PartialEq, Eq)]
pub struct KeyTelemetry {
    pub key_index: u8,
    pub calibration_status: u8,
    pub max_value: u16,
    pub min_value: u16,
    pub current_value: u16,
    /// Current travel in hundredths of a millimetre.
    pub key_stroke: u16,
    /// Total travel of the switch, hundredths of a millimetre.
    pub max_stroke: u16,
}

/// The calibration frame `raw` holds, if it is one.
pub open spec fn telemetry_from(raw: Seq<u8>) -> Option<KeyTelemetry> {
    if raw.len() < 14 || raw[0] != crate::RESP_MAGIC || raw[1] != Cmd::MagneticAxisCalibrationData.code() {
        None
    } else {
        Some(
            KeyTelemetry {
                key_index: raw[2],
                calibration_status: raw[3],
                max_value: le16_at(raw, 4),
                // The firmware uses the top bit of the minimum as a flag.
                min_value: (le16_at(raw, 6) % 0x8000) as u16,
                current_value: le16_at(raw, 8),
                key_stroke: le16_at(raw, 10),
                max_stroke: le16_at(raw, 12),
            },
        )
    }
}

/// A report is a calibration frame exactly when it has at least 14 bytes,
/// starts with the response magic 0x55 and answers command 0xFB; its fields
/// then sit at fixed offsets: the key index in byte 2, the calibration
/// status in byte 3, and the maximum, minimum, current reading, stroke and
/// full stroke as little-endian `u16`s from byte 4 on, the minimum without
/// the flag the firmware keeps in its top bit.
pub proof fn lemma_telemetry_fields(raw: Seq<u8>)
    ensures
        telemetry_from(raw) is Some <==> raw.len() >= 14 && raw[0] == 0x55 && raw[1] == 0xFB,
        telemetry_from(raw) matches Some(t) ==> {
            &&& t.key_index == raw[2]
            &&& t.calibration_status == raw[3]
            &&& t.max_value == raw[4] + 256 * raw[5]
            &&& t.min_value == raw[6] + 256 * (raw[7] % 128)
            &&& t.current_value == raw[8] + 256 * raw[9]
            &&& t.key_stroke == raw[10] + 256 * raw[11]
            &&& t.max_stroke == raw[12] + 256 * raw[13]
        },
{
    if raw.len() >= 14 {
        let lo = raw[6];
        let hi = raw[7];
        assert((lo + 256 * hi) % 0x8000 == lo + 256 * (hi % 128)) by (nonlinear_arith)
            requires
                lo < 256,
                hi < 256,
        ;
    }
}

impl KeyTelemetry {
    /// Returns `None` for any report that is not a calibration frame, so the
    /// caller can pass every inbound report through unfiltered.
    pub fn parse(raw: &[u8]) -> (t: Option<Self>)
        ensures
            t == telemetry_from(raw@),
    {
        if raw.len() < 14 || raw[0] != crate::RESP_MAGIC || raw[1]
            != Cmd::MagneticAxisCalibrationData.raw() {
            return None;
        }
        Some(
            Self {
                key_index: raw[2],
                calibration_status: raw[3],
                max_value: le16(raw, 4),
                min_value: le16(raw, 6) % 0x8000,
                current_value: le16(raw, 8),
                key_stroke: le16(raw, 10),
                max_stroke: le16(raw, 12),
            },
        )
    }
}

} // verus!
