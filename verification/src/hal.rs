//! The hardware abstraction layer: its error type, the device interfaces,
//! and what is computed from what the kernel reports (framebuffer
//! geometry, input events, block devices).
use vstd::prelude::*;

use std::time::{SystemTime, UNIX_EPOCH};

use crate::num::{decimal, parse_unsigned, parse_u64_max, push_decimal};
use crate::strs::{concat2, has_prefix, owned, starts_with};
use crate::text::{trim, trim_str};

verus! {

// ---------------------------------------------------------------------
// Errors
// ---------------------------------------------------------------------

/// What can go wrong in the HAL.
#[derive(Debug)]
pub enum HalError {
    Io(String),
    NotFound(String),
    PermissionDenied,
    InvalidOperation(String),
    Internal(String),
}

pub type HalResult<T> = Result<T, HalError>;

/// The message of an error.
pub open spec fn hal_error_text(e: HalError) -> Seq<char> {
    match e {
        HalError::Io(m) => "IO error: "@ + m@,
        HalError::NotFound(m) => "Device not found: "@ + m@,
        HalError::PermissionDenied => "Permission denied"@,
        HalError::InvalidOperation(m) => "Invalid operation: "@ + m@,
        HalError::Internal(m) => "Internal error: "@ + m@,
    }
}

impl HalError {
    /// The error's message.
    pub fn message(&self) -> (s: String)
        ensures
            s@ == hal_error_text(*self),
    {
        match self {
            HalError::Io(m) => concat2("IO error: ", m.as_str()),
            HalError::NotFound(m) => concat2("Device not found: ", m.as_str()),
            HalError::PermissionDenied => owned("Permission denied"),
            HalError::InvalidOperation(m) => concat2("Invalid operation: ", m.as_str()),
            HalError::Internal(m) => concat2("Internal error: ", m.as_str()),
        }
    }
}

// ---------------------------------------------------------------------
// Clock and power
// ---------------------------------------------------------------------

#[verifier::external_type_specification]
#[verifier::external_body]
pub struct ExSystemTime(SystemTime);

/// Reads the system clock (`SystemTime::now`); nothing is stated of the
/// time read.
#[verifier::external_body]
fn system_now() -> SystemTime {
    SystemTime::now()
}

/// Whole seconds from the Unix epoch to `t` (`SystemTime::duration_since`
/// with `UNIX_EPOCH`, then `Duration::as_secs`), or the error's message
/// when `t` lies before the epoch; nothing is stated of the value.
#[verifier::external_body]
fn secs_since_epoch(t: &SystemTime) -> Result<u64, String> {
    match t.duration_since(UNIX_EPOCH) {
        Ok(d) => Ok(d.as_secs()),
        Err(e) => Err(e.to_string()),
    }
}

/// A source of wall-clock time.
pub trait Clock {
    /// Seconds since the Unix epoch.
    fn get_time(&self) -> HalResult<u64>;
}

/// The system clock.
pub struct LinuxClock;

impl Clock for LinuxClock {
    /// The system time in seconds; a clock set before the epoch is an
    /// internal error.
    fn get_time(&self) -> (r: HalResult<u64>)
        ensures
            r is Ok || r matches Err(HalError::Internal(_)),
    {
        let now = system_now();
        match secs_since_epoch(&now) {
            Ok(s) => Ok(s),
            Err(m) => Err(HalError::Internal(m)),
        }
    }
}

/// Restarting and powering off the machine.
pub trait Power {
    fn reboot(&self) -> HalResult<()>;
    fn shutdown(&self) -> HalResult<()>;
}

/// Power control; the requests are accepted and nothing is done yet.
pub struct LinuxPower;

impl Power for LinuxPower {
    fn reboot(&self) -> (r: HalResult<()>)
        ensures
            r is Ok,
    {
        Ok(())
    }

    fn shutdown(&self) -> (r: HalResult<()>)
        ensures
            r is Ok,
    {
        Ok(())
    }
}

/// A source of random bytes.
pub trait Random {
    /// Fills `buf` with random bytes.
    fn get_random(&self, buf: &mut [u8]) -> HalResult<()>;
}

// ---------------------------------------------------------------------
// Device discovery
// ---------------------------------------------------------------------

/// A device found under a device class.
pub struct Device {
    pub name: String,
    pub class: String,
    pub path: String,
}

/// Enumerating the devices of the machine.
pub trait Discovery {
    fn scan(&self) -> HalResult<Vec<Device>>;
}

/// The devices listed in the directory of class `class`, given as
/// (name, path) pairs, in listing order.
pub fn class_devices(class: &str, entries: &Vec<(String, String)>) -> (ds: Vec<Device>)
    ensures
        ds@.len() == entries@.len(),
        forall|i: int| 0 <= i < ds@.len() ==> {
            &&& (#[trigger] ds@[i]).name@ == entries@[i].0@
            &&& ds@[i].class@ == class@
            &&& ds@[i].path@ == entries@[i].1@
        },
{
    let mut ds: Vec<Device> = Vec::new();
    let mut i: usize = 0;
    while i < entries.len()
        invariant
            i <= entries@.len(),
            ds@.len() == i,
            forall|k: int| 0 <= k < i ==> {
                &&& (#[trigger] ds@[k]).name@ == entries@[k].0@
                &&& ds@[k].class@ == class@
                &&& ds@[k].path@ == entries@[k].1@
            },
        decreases entries.len() - i,
    {
        let d = Device {
            name: owned(entries[i].0.as_str()),
            class: owned(class),
            path: owned(entries[i].1.as_str()),
        };
        ds.push(d);
        i = i + 1;
    }
    ds
}

// ---------------------------------------------------------------------
// Framebuffer
// ---------------------------------------------------------------------

/// One colour channel's position in a framebuffer pixel.
#[allow(non_camel_case_types)]
pub struct fb_bitfield {
    pub offset: u32,
    pub length: u32,
    pub msb_right: u32,
}

/// The variable screen information the framebuffer driver reports.
#[allow(non_camel_case_types)]
pub struct fb_var_screeninfo {
    pub xres: u32,
    pub yres: u32,
    pub xres_virtual: u32,
    pub yres_virtual: u32,
    pub xoffset: u32,
    pub yoffset: u32,
    pub bits_per_pixel: u32,
    pub grayscale: u32,
    pub red: fb_bitfield,
    pub green: fb_bitfield,
    pub blue: fb_bitfield,
    pub transp: fb_bitfield,
    pub nonstd: u32,
    pub activate: u32,
    pub height: u32,
    pub width: u32,
    pub accel_flags: u32,
    pub pixclock: u32,
    pub left_margin: u32,
    pub right_margin: u32,
    pub upper_margin: u32,
    pub lower_margin: u32,
    pub hsync_len: u32,
    pub vsync_len: u32,
    pub sync: u32,
    pub vmode: u32,
    pub rotate: u32,
    pub colorspace: u32,
    pub reserved: [u32; 4],
}

/// The fixed screen information the framebuffer driver reports.
#[allow(non_camel_case_types)]
pub struct fb_fix_screeninfo {
    pub id: [u8; 16],
    pub smem_start: usize,
    pub smem_len: u32,
    pub type_: u32,
    pub type_aux: u32,
    pub visual: u32,
    pub xpanstep: u16,
    pub ypanstep: u16,
    pub ywrapstep: u16,
    pub line_length: u32,
    pub mmio_start: usize,
    pub mmio_len: u32,
    pub accel: u32,
    pub capabilities: u16,
    pub reserved: [u16; 2],
}

/// The geometry of a display.
#[derive(Debug, Clone, Copy)]
pub struct DisplayInfo {
    pub width: u32,
    pub height: u32,
    pub bpp: u32,
    pub pitch: u32,
}

impl DisplayInfo {
    /// The geometry in the driver's reports: the visible resolution, the
    /// bits per pixel and the length of a line in bytes.
    pub fn from_screeninfo(vinfo: &fb_var_screeninfo, finfo: &fb_fix_screeninfo) -> (d: DisplayInfo)
        ensures
            d.width == vinfo.xres,
            d.height == vinfo.yres,
            d.bpp == vinfo.bits_per_pixel,
            d.pitch == finfo.line_length,
    {
        DisplayInfo { width: vinfo.xres, height: vinfo.yres, bpp: vinfo.bits_per_pixel, pitch: finfo.line_length }
    }

    /// The size of a back buffer for the display: one line per row.
    pub fn buffer_size(&self) -> (n: usize)
        requires
            self.pitch * self.height <= u32::MAX,
        ensures
            n == self.pitch * self.height,
    {
        (self.pitch * self.height) as usize
    }
}

/// A display with a back buffer that is shown by flipping.
pub trait Display {
    fn get_info(&self) -> HalResult<DisplayInfo>;
    fn flip(&mut self) -> HalResult<()>;
    fn get_buffer(&mut self) -> &mut [u8];
}

// ---------------------------------------------------------------------
// Input
// ---------------------------------------------------------------------

/// An input event: a key or button, a relative motion or an absolute
/// position, with the code of the key or axis and the value.
#[derive(Debug, Clone, Copy)]
pub enum InputEvent {
    Key { code: u16, value: i32 },
    Rel { code: u16, value: i32 },
    Abs { code: u16, value: i32 },
}

/// A source of input events.
pub trait InputDevice {
    fn name(&self) -> String;
    fn read_event(&mut self) -> HalResult<InputEvent>;
}

/// The size of a kernel input event record.
pub const INPUT_EVENT_SIZE: usize = 24;

pub open spec fn le16(b0: u8, b1: u8) -> u16 {
    (b0 + 256 * b1) as u16
}

pub open spec fn le32(b0: u8, b1: u8, b2: u8, b3: u8) -> u32 {
    (b0 + 256 * b1 + 65536 * b2 + 16777216 * b3) as u32
}

/// The event a kernel input record holds: two 8-byte time words, then
/// the type, code and value, little-endian; types 1, 2 and 3 are keys,
/// relative and absolute axes, any other type is refused with the message
/// given.
pub open spec fn input_record(raw: Seq<u8>) -> Result<InputEvent, Seq<char>> {
    let t = le16(raw[16], raw[17]);
    let code = le16(raw[18], raw[19]);
    let value = le32(raw[20], raw[21], raw[22], raw[23]) as i32;
    if t == 1 {
        Ok(InputEvent::Key { code, value })
    } else if t == 2 {
        Ok(InputEvent::Rel { code, value })
    } else if t == 3 {
        Ok(InputEvent::Abs { code, value })
    } else {
        Err("Unknown event type: "@ + decimal(t as nat))
    }
}

/// Decodes a kernel input record.
pub fn decode_input_event(raw: &[u8]) -> (r: HalResult<InputEvent>)
    requires
        raw@.len() == INPUT_EVENT_SIZE,
    ensures
        match input_record(raw@) {
            Ok(e) => r matches Ok(a) && a == e,
            Err(m) => r matches Err(HalError::InvalidOperation(s)) && s@ == m,
        },
{
    let t: u16 = (raw[16] as u32 + 256 * raw[17] as u32) as u16;
    let code: u16 = (raw[18] as u32 + 256 * raw[19] as u32) as u16;
    let bits: u32 = raw[20] as u32 + 256 * raw[21] as u32 + 65536 * raw[22] as u32 + 16777216 * raw[23] as u32;
    let value: i32 = bits as i32;
    if t == 1 {
        Ok(InputEvent::Key { code, value })
    } else if t == 2 {
        Ok(InputEvent::Rel { code, value })
    } else if t == 3 {
        Ok(InputEvent::Abs { code, value })
    } else {
        let mut m = owned("Unknown event type: ");
        push_decimal(&mut m, t as u64);
        Err(HalError::InvalidOperation(m))
    }
}

/// The name of the event device at `path`.
pub fn evdev_name(path: &str) -> (n: String)
    ensures
        n@ == "Linux Evdev: "@ + path@,
{
    concat2("Linux Evdev: ", path)
}

// ---------------------------------------------------------------------
// Storage
// ---------------------------------------------------------------------

/// A block device.
pub struct StorageDevice {
    pub name: String,
    pub size: u64,
    pub removable: bool,
}

/// Listing the block devices.
pub trait Storage {
    fn list_devices(&self) -> HalResult<Vec<StorageDevice>>;
}

/// Loop and RAM disks are not storage devices.
pub open spec fn is_virtual_block(name: Seq<char>) -> bool {
    has_prefix(name, "loop"@) || has_prefix(name, "ram"@)
}

/// The sector count in the text of a `size` attribute (0 when missing or
/// unreadable).
pub open spec fn sector_count(text: Option<Seq<char>>) -> nat {
    match text {
        Some(t) => match parse_unsigned(trim(t), u64::MAX as nat) {
            Some(v) => v,
            None => 0,
        },
        None => 0,
    }
}

/// Whether the text of a `removable` attribute says 1 (read as a `u8`).
pub open spec fn removable_flag(text: Option<Seq<char>>) -> bool {
    match text {
        Some(t) => parse_unsigned(trim(t), 255) == Some(1nat),
        None => false,
    }
}

pub open spec fn opt_view(t: Option<String>) -> Option<Seq<char>> {
    match t {
        Some(s) => Some(s@),
        None => None,
    }
}

/// The block device `name` with the texts of its `size` (in 512-byte
/// sectors) and `removable` attributes, where they could be read; `None`
/// for loop and RAM disks.
pub fn storage_device(name: String, size_text: Option<String>, removable_text: Option<String>) -> (r: Option<StorageDevice>)
    requires
        !is_virtual_block(name@) ==> sector_count(opt_view(size_text)) * 512 <= u64::MAX,
    ensures
        is_virtual_block(name@) ==> r is None,
        !is_virtual_block(name@) ==> (r matches Some(d) && d.name@ == name@
            && d.size == sector_count(opt_view(size_text)) * 512
            && d.removable == removable_flag(opt_view(removable_text))),
{
    if starts_with(name.as_str(), "loop") || starts_with(name.as_str(), "ram") {
        return None;
    }
    let sectors: u64 = match &size_text {
        Some(t) => {
            let tt = trim_str(t.as_str());
            match parse_u64_max(tt.as_str(), u64::MAX) {
                Some(v) => v,
                None => 0,
            }
        },
        None => 0,
    };
    let removable = match &removable_text {
        Some(t) => {
            let tt = trim_str(t.as_str());
            match parse_u64_max(tt.as_str(), 255) {
                Some(v) => v == 1,
                None => false,
            }
        },
        None => false,
    };
    Some(StorageDevice { name, size: sectors * 512, removable })
}

} // verus!
