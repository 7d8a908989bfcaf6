use vstd::prelude::*;

verus! {

/// Read fan 1 speed, in percent (the read size is 4: a size of 8 makes the
/// driver fault).
pub const R_UW_FANSPEED: u64 = 0x8004EF10;
/// Read fan 2 speed, in percent (read size 4, as for fan 1).
pub const R_UW_FANSPEED2: u64 = 0x8004EF11;
/// Read whether manual fan control is enabled.
pub const R_UW_MODE_ENABLE: u64 = 0x8008EF15;
/// Set fan 1 speed, in percent.
pub const W_UW_FANSPEED: u64 = 0x4008F010;
/// Set fan 2 speed, in percent.
pub const W_UW_FANSPEED2: u64 = 0x4008F011;
/// Enable (1) or disable (0) manual fan control.
pub const W_UW_MODE_ENABLE: u64 = 0x4008F013;
/// Return fan control to the embedded controller; carries no data.
pub const W_UW_FANAUTO: u64 = 0x0000F014;
/// Select the embedded controller's automatic fan profile.
pub const W_UW_PERF_PROF: u64 = 0x4008F018;

/// The `_IOC` direction of a request that carries no data.
pub const IOC_NONE: u64 = 0;
/// The `_IOC` direction of a request that hands data to the driver.
pub const IOC_WRITE: u64 = 1;
/// The `_IOC` direction of a request that takes data from the driver.
pub const IOC_READ: u64 = 2;
/// The type (magic) byte of the Uniwill read requests.
pub const MAGIC_READ_UW: u64 = 0xEF;
/// The type (magic) byte of the Uniwill write requests.
pub const MAGIC_WRITE_UW: u64 = 0xF0;

/// The Linux `_IOC` encoding of a request number: direction in bits 30-31,
/// size in bits 16-29, type in bits 8-15 and command number in bits 0-7.
pub open spec fn ioc(dir: int, size: int, ty: int, nr: int) -> int {
    dir * 0x4000_0000 + size * 0x1_0000 + ty * 0x100 + nr
}

/// The requests this program sends to `/dev/tuxedo_io`.
#[derive(Debug, Clone, Copy, PartialEq, Eq, Structural)]
pub enum EcRequest {
    ReadFanSpeed1,
    ReadFanSpeed2,
    ReadModeEnable,
    WriteFanSpeed1,
    WriteFanSpeed2,
    WriteModeEnable,
    WriteFanAuto,
    WritePerformanceProfile,
}

/// The direction, size, type and command number of each request, as the
/// driver's interface defines them.
pub open spec fn request_fields(r: EcRequest) -> (int, int, int, int) {
    match r {
        EcRequest::ReadFanSpeed1 => (IOC_READ as int, 4, MAGIC_READ_UW as int, 0x10),
        EcRequest::ReadFanSpeed2 => (IOC_READ as int, 4, MAGIC_READ_UW as int, 0x11),
        EcRequest::ReadModeEnable => (IOC_READ as int, 8, MAGIC_READ_UW as int, 0x15),
        EcRequest::WriteFanSpeed1 => (IOC_WRITE as int, 8, MAGIC_WRITE_UW as int, 0x10),
        EcRequest::WriteFanSpeed2 => (IOC_WRITE as int, 8, MAGIC_WRITE_UW as int, 0x11),
        EcRequest::WriteModeEnable => (IOC_WRITE as int, 8, MAGIC_WRITE_UW as int, 0x13),
        EcRequest::WriteFanAuto => (IOC_NONE as int, 0, MAGIC_WRITE_UW as int, 0x14),
        EcRequest::WritePerformanceProfile => (IOC_WRITE as int, 8, MAGIC_WRITE_UW as int, 0x18),
    }
}

/// The request table's shape: the fan-speed reads carry a size of 4 (a
/// size of 8 makes the driver fault), the other reads and the writes with
/// data a size of 8, and the fan-auto request no data; reads use the type
/// byte 0xEF with the read direction, all others 0xF0.
pub proof fn law_request_table(r: EcRequest)
    ensures
        ({
            let f = request_fields(r);
            &&& (r == EcRequest::ReadFanSpeed1 || r == EcRequest::ReadFanSpeed2) ==> f.1 == 4
            &&& r == EcRequest::ReadModeEnable ==> f.1 == 8
            &&& r == EcRequest::WriteFanAuto ==> f.0 == 0 && f.1 == 0
            &&& (f.0 == 1 ==> f.1 == 8)
            &&& (f.0 == 2 <==> f.2 == 0xEF)
            &&& (f.0 != 2 <==> f.2 == 0xF0)
        }),
{
}

impl EcRequest {
    /// The ioctl request number of this request: the `_IOC` encoding of its
    /// direction, size, type and command number.
    pub fn code(self) -> (c: u64)
        ensures
            c == ({
                let f = request_fields(self);
                ioc(f.0, f.1, f.2, f.3)
            }),
    {
        match self {
            EcRequest::ReadFanSpeed1 => R_UW_FANSPEED,
            EcRequest::ReadFanSpeed2 => R_UW_FANSPEED2,
            EcRequest::ReadModeEnable => R_UW_MODE_ENABLE,
            EcRequest::WriteFanSpeed1 => W_UW_FANSPEED,
            EcRequest::WriteFanSpeed2 => W_UW_FANSPEED2,
            EcRequest::WriteModeEnable => W_UW_MODE_ENABLE,
            EcRequest::WriteFanAuto => W_UW_FANAUTO,
            EcRequest::WritePerformanceProfile => W_UW_PERF_PROF,
        }
    }
}

/// The value a read request delivers, from the ioctl's return value `ret`
/// and the 32-bit word the driver filled in: none when the call failed
/// (`ret < 0`), else the word's low byte.
pub fn read_value(ret: i32, word: i32) -> (r: Option<u8>)
    ensures
        r == (if ret < 0 {
            None
        } else {
            Some(word as u8)
        }),
{
    if ret < 0 {
        None
    } else {
        Some(word as u8)
    }
}

/// Whether a write request went through, from the ioctl's return value:
/// any negative value is a failure.
pub fn write_ok(ret: i32) -> (r: bool)
    ensures
        r == (ret >= 0),
{
    ret >= 0
}

/// Whether manual fan control is on, from the byte the mode-enable read
/// delivers: any non-zero value means on.
pub fn mode_enabled(value: u8) -> (r: bool)
    ensures
        r == (value != 0),
{
    value != 0
}

/// Whether the embedded controller drives the fans itself, from the
/// mode-enable reading when there is one.
pub fn ec_auto(manual: Option<bool>) -> (r: Option<bool>)
    ensures
        r == (match manual {
            Some(m) => Some(!m),
            None => None,
        }),
{
    match manual {
        Some(m) => Some(!m),
        None => None,
    }
}

} // verus!
