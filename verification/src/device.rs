//! The shared device record and its tick interval.
use vstd::prelude::*;

verus! {

pub const MS_PER_SECOND: u64 = 1000;
pub const DEFAULT_DEVICE_FPS: u32 = 60;

/// What a configured device drives.
#[derive(Clone, Copy, Debug, PartialEq, Eq, Structural)]
pub enum DeviceKind {
    Unknown,
    Serial,
    Usb,
    Sound,
}

impl DeviceKind {
    /// The device-type number the configuration uses.
    pub open spec fn spec_code(self) -> i32 {
        match self {
            DeviceKind::Unknown => 0,
            DeviceKind::Serial => 1,
            DeviceKind::Usb => 2,
            DeviceKind::Sound => 3,
        }
    }

    /// The device-type number the configuration uses.
    pub fn code(self) -> (r: i32)
        ensures
            r == self.spec_code(),
    {
        match self {
            DeviceKind::Unknown => 0,
            DeviceKind::Serial => 1,
            DeviceKind::Usb => 2,
            DeviceKind::Sound => 3,
        }
    }
}

/// Milliseconds between ticks: `1000 / fps`, with 60 fps standing in for zero.
pub open spec fn spec_tick_interval_ms(fps: u32) -> u64 {
    let f = if fps == 0 { DEFAULT_DEVICE_FPS } else { fps };
    (MS_PER_SECOND / (f as u64)) as u64
}

/// Integer `1000 / fps` milliseconds; at 60 fps, and for 0 fps, 16 ms.
pub fn tick_interval_ms(fps: u32) -> (r: u64)
    ensures
        r == spec_tick_interval_ms(fps),
        r <= MS_PER_SECOND,
        fps <= MS_PER_SECOND ==> r >= 1,
{
    let f: u32 = if fps == 0 { DEFAULT_DEVICE_FPS } else { fps };
    let r = MS_PER_SECOND / (f as u64);
    assert(f <= MS_PER_SECOND ==> r >= 1) by (nonlinear_arith)
        requires
            r == 1000u64 / (f as u64),
            f >= 1,
    ;
    r
}

/// One configured device: its id, rate, kind, and whether it came up.
#[derive(Clone, Debug)]
pub struct SimDevice {
    id: i32,
    fps: u32,
    initialized: bool,
    config_file: Option<String>,
    kind: DeviceKind,
}

impl SimDevice {
    pub closed spec fn spec_id(&self) -> i32 {
        self.id
    }

    pub closed spec fn spec_fps(&self) -> u32 {
        self.fps
    }

    pub closed spec fn spec_kind(&self) -> DeviceKind {
        self.kind
    }

    pub closed spec fn spec_initialized(&self) -> bool {
        self.initialized
    }

    /// The device's configuration file, as text.
    pub closed spec fn spec_config_file(&self) -> Option<Seq<char>> {
        match self.config_file {
            Some(s) => Some(s@),
            None => None,
        }
    }

    /// A device that has not been initialized and has no configuration file.
    pub fn new(id: i32, fps: u32, kind: DeviceKind) -> (d: Self)
        ensures
            d.spec_id() == id,
            d.spec_fps() == fps,
            d.spec_kind() == kind,
            !d.spec_initialized(),
            d.spec_config_file() is None,
    {
        SimDevice { id, fps, initialized: false, config_file: None, kind }
    }

    pub fn id(&self) -> (r: i32)
        ensures
            r == self.spec_id(),
    {
        self.id
    }

    pub fn fps(&self) -> (r: u32)
        ensures
            r == self.spec_fps(),
    {
        self.fps
    }

    pub fn kind(&self) -> (r: DeviceKind)
        ensures
            r == self.spec_kind(),
    {
        self.kind
    }

    pub fn initialized(&self) -> (r: bool)
        ensures
            r == self.spec_initialized(),
    {
        self.initialized
    }

    pub fn set_initialized(&mut self, initialized: bool)
        ensures
            final(self).spec_initialized() == initialized,
            final(self).spec_id() == old(self).spec_id(),
            final(self).spec_fps() == old(self).spec_fps(),
            final(self).spec_kind() == old(self).spec_kind(),
            final(self).spec_config_file() == old(self).spec_config_file(),
    {
        self.initialized = initialized;
    }

    pub fn config_file(&self) -> (r: Option<&str>)
        ensures
            match r {
                Some(s) => self.spec_config_file() == Some(s@),
                None => self.spec_config_file() is None,
            },
    {
        match &self.config_file {
            Some(s) => Some(s.as_str()),
            None => None,
        }
    }

    pub fn set_config_file(&mut self, path: Option<String>)
        ensures
            final(self).spec_config_file() == (match path {
                Some(s) => Some(s@),
                None => None::<Seq<char>>,
            }),
            final(self).spec_initialized() == old(self).spec_initialized(),
            final(self).spec_id() == old(self).spec_id(),
            final(self).spec_fps() == old(self).spec_fps(),
            final(self).spec_kind() == old(self).spec_kind(),
    {
        self.config_file = path;
    }

    /// Integer `1000 / fps` milliseconds. At 60 fps the interval is 16 ms.
    pub fn interval_ms(&self) -> (r: u64)
        ensures
            r == spec_tick_interval_ms(self.spec_fps()),
    {
        tick_interval_ms(self.fps)
    }
}

} // verus!
