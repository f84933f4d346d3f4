//! Recording transports for HID, serial, sysfs and PulseAudio: each call is
//! logged by the name of the library call it stands for, so device code can be checked without
//! hardware. The context outcome of a real Pulse connection is decided here too.
use vstd::prelude::*;
use vstd::string::StrSliceExecFns;
use crate::text::{dec, hex2, push_hex2, push_str, push_u64, string_of};

verus! {

pub const PULSE_APP_NAME: &'static str = "cargopit";
pub const PULSE_HOST_APP_NAME: &'static str = "Cargopit";
pub const PULSE_CONTEXT_UNCONNECTED: i32 = 0;
pub const PULSE_CONTEXT_CONNECTING: i32 = 1;
pub const PULSE_CONTEXT_AUTHORIZING: i32 = 2;
pub const PULSE_CONTEXT_SETTING_NAME: i32 = 3;
pub const PULSE_CONTEXT_READY: i32 = 4;
pub const PULSE_CONTEXT_FAILED: i32 = 5;
pub const PULSE_CONTEXT_TERMINATED: i32 = 6;

/// Why a transport call did not happen.
#[derive(Clone, Copy, Debug, PartialEq, Eq, Structural)]
pub enum TransportError {
    Unavailable,
    Failed,
}

/// One logged transport call: the library function, its detail, and the bytes written.
#[derive(Clone, Debug, PartialEq, Eq)]
pub struct IoRecord {
    pub op: &'static str,
    pub detail: String,
    pub bytes: Vec<u8>,
}

/// A logged call as texts and bytes.
pub open spec fn record_of(r: IoRecord) -> (Seq<char>, Seq<char>, Seq<u8>) {
    (r.op@, r.detail@, r.bytes@)
}

/// The log as texts and bytes.
pub open spec fn log_of(log: Seq<IoRecord>) -> Seq<(Seq<char>, Seq<char>, Seq<u8>)> {
    Seq::new(log.len(), |i: int| record_of(log[i]))
}

proof fn lemma_log_push(log: Seq<IoRecord>, r: IoRecord)
    ensures
        log_of(log.push(r)) == log_of(log).push(record_of(r)),
{
    assert(log_of(log.push(r)) =~= log_of(log).push(record_of(r)));
}

fn copy_bytes(data: &[u8]) -> (r: Vec<u8>)
    ensures
        r@ == data@,
{
    let mut r: Vec<u8> = Vec::new();
    let mut i: usize = 0;
    while i < data.len()
        invariant
            i <= data@.len(),
            r@ == data@.subrange(0, i as int),
        decreases data@.len() - i,
    {
        r.push(data[i]);
        i += 1;
        assert(r@ =~= data@.subrange(0, i as int));
    }
    assert(data@.subrange(0, data@.len() as int) =~= data@);
    r
}

fn push_record(log: &mut Vec<IoRecord>, op: &'static str, detail: String, bytes: Vec<u8>)
    ensures
        log_of(final(log)@) == log_of(old(log)@).push((op@, detail@, bytes@)),
{
    let r = IoRecord { op, detail, bytes };
    proof { lemma_log_push(log@, r); }
    log.push(r);
}

/// `0x` and four lower-case hexadecimal digits, as `{:#06x}` writes a `u16`.
pub open spec fn hex4(v: u16) -> Seq<char> {
    "0x"@ + hex2((v / 256) as u8) + hex2((v % 256) as u8)
}

pub(crate) fn push_hex4(s: &mut String, v: u16)
    ensures
        final(s)@ == old(s)@ + hex4(v),
{
    push_str(s, "0x");
    push_hex2(s, (v / 256) as u8);
    push_hex2(s, (v % 256) as u8);
}

/// The device an open HID handle reaches.
#[derive(Clone, Copy, Debug, PartialEq, Eq, Structural)]
struct HidEndpoint {
    id: u32,
    vendor: u16,
    product: u16,
}

/// A HID transport that logs `hid_open`, `hid_write`, `hid_send_feature_report`
/// and `hid_close`, numbering the handles it opens from 1.
#[derive(Clone, Debug)]
pub struct FakeHid {
    next_id: u32,
    open: Option<HidEndpoint>,
    pub log: Vec<IoRecord>,
}

impl FakeHid {
    /// The calls logged so far.
    pub closed spec fn spec_log(&self) -> Seq<IoRecord> {
        self.log@
    }

    /// The handle number of the open device, if one is open.
    pub closed spec fn open_id(&self) -> Option<u32> {
        match self.open {
            Some(e) => Some(e.id),
            None => None,
        }
    }

    /// The number the next handle gets, less one.
    pub closed spec fn last_id(&self) -> u32 {
        self.next_id
    }

    /// Nothing open, nothing logged.
    pub fn new() -> (h: Self)
        ensures
            h.open_id() is None,
            h.last_id() == 0,
            h.spec_log().len() == 0,
    {
        FakeHid { next_id: 0, open: None, log: Vec::new() }
    }

    /// Opens the device with this vendor and product under the next handle number.
    pub fn open(&mut self, vendor: u16, product: u16) -> (r: Result<(), TransportError>)
        ensures
            r is Ok,
            final(self).last_id() == (if old(self).last_id() == u32::MAX { u32::MAX } else { (old(self).last_id() + 1) as u32 }),
            final(self).open_id() == Some(final(self).last_id()),
            log_of(final(self).spec_log()) == log_of(old(self).spec_log()).push(
                (
                    "hid_open"@,
                    "id="@ + dec(final(self).last_id() as nat) + " vid="@ + hex4(vendor) + " pid="@ + hex4(product),
                    Seq::empty(),
                ),
            ),
    {
        self.next_id = if self.next_id == u32::MAX { u32::MAX } else { self.next_id + 1 };
        let endpoint = HidEndpoint { id: self.next_id, vendor, product };
        self.open = Some(endpoint);
        let mut detail = string_of("id=");
        push_u64(&mut detail, endpoint.id as u64);
        push_str(&mut detail, " vid=");
        push_hex4(&mut detail, vendor);
        push_str(&mut detail, " pid=");
        push_hex4(&mut detail, product);
        push_record(&mut self.log, "hid_open", detail, Vec::new());
        Ok(())
    }

    fn logged_write(&mut self, op: &'static str, data: &[u8]) -> (r: Result<usize, TransportError>)
        ensures
            final(self).open_id() == old(self).open_id(),
            final(self).last_id() == old(self).last_id(),
            match old(self).open_id() {
                None => r == Err::<usize, TransportError>(TransportError::Unavailable) && final(self).spec_log() == old(self).spec_log(),
                Some(id) => r == Ok::<usize, TransportError>(data@.len() as usize) && log_of(final(self).spec_log()) == log_of(
                    old(self).spec_log(),
                ).push((op@, "id="@ + dec(id as nat), data@)),
            },
    {
        let endpoint = match self.open {
            None => return Err(TransportError::Unavailable),
            Some(e) => e,
        };
        let mut detail = string_of("id=");
        push_u64(&mut detail, endpoint.id as u64);
        push_record(&mut self.log, op, detail, copy_bytes(data));
        Ok(data.len())
    }

    /// Writes a report to the open device; unavailable when none is open.
    pub fn write(&mut self, data: &[u8]) -> (r: Result<usize, TransportError>)
        ensures
            final(self).open_id() == old(self).open_id(),
            final(self).last_id() == old(self).last_id(),
            match old(self).open_id() {
                None => r == Err::<usize, TransportError>(TransportError::Unavailable) && final(self).spec_log() == old(self).spec_log(),
                Some(id) => r == Ok::<usize, TransportError>(data@.len() as usize) && log_of(final(self).spec_log()) == log_of(
                    old(self).spec_log(),
                ).push(("hid_write"@, "id="@ + dec(id as nat), data@)),
            },
    {
        self.logged_write("hid_write", data)
    }

    /// Sends a feature report to the open device; unavailable when none is open.
    pub fn send_feature(&mut self, data: &[u8]) -> (r: Result<usize, TransportError>)
        ensures
            final(self).open_id() == old(self).open_id(),
            final(self).last_id() == old(self).last_id(),
            match old(self).open_id() {
                None => r == Err::<usize, TransportError>(TransportError::Unavailable) && final(self).spec_log() == old(self).spec_log(),
                Some(id) => r == Ok::<usize, TransportError>(data@.len() as usize) && log_of(final(self).spec_log()) == log_of(
                    old(self).spec_log(),
                ).push(("hid_send_feature_report"@, "id="@ + dec(id as nat), data@)),
            },
    {
        self.logged_write("hid_send_feature_report", data)
    }

    /// Closes the open device, logging it; nothing when none is open.
    pub fn close(&mut self)
        ensures
            final(self).open_id() is None,
            final(self).last_id() == old(self).last_id(),
            match old(self).open_id() {
                None => final(self).spec_log() == old(self).spec_log(),
                Some(id) => log_of(final(self).spec_log()) == log_of(old(self).spec_log()).push(
                    ("hid_close"@, "id="@ + dec(id as nat), Seq::empty()),
                ),
            },
    {
        if let Some(endpoint) = self.open {
            self.open = None;
            let mut detail = string_of("id=");
            push_u64(&mut detail, endpoint.id as u64);
            push_record(&mut self.log, "hid_close", detail, Vec::new());
        }
    }
}

impl Default for FakeHid {
    fn default() -> (h: Self)
        ensures
            h.open_id() is None,
            h.last_id() == 0,
            h.spec_log().len() == 0,
    {
        Self::new()
    }
}

/// A serial transport that logs `serial_open` and `serial_write`.
#[derive(Clone, Debug)]
pub struct FakeSerial {
    pub log: Vec<IoRecord>,
    open: bool,
}

impl FakeSerial {
    /// The calls logged so far.
    pub closed spec fn spec_log(&self) -> Seq<IoRecord> {
        self.log@
    }

    pub closed spec fn is_open(&self) -> bool {
        self.open
    }

    pub fn new() -> (p: Self)
        ensures
            !p.is_open(),
            p.spec_log().len() == 0,
    {
        FakeSerial { log: Vec::new(), open: false }
    }

    /// Opens the port at `baud`; unavailable for an empty path.
    pub fn open(&mut self, path: &str, baud: u32) -> (r: Result<(), TransportError>)
        ensures
            path@.len() == 0 ==> r == Err::<(), TransportError>(TransportError::Unavailable) && final(self).spec_log() == old(self).spec_log() && final(self).is_open() == old(self).is_open(),
            path@.len() > 0 ==> r is Ok && final(self).is_open() && log_of(final(self).spec_log()) == log_of(old(self).spec_log()).push(
                ("serial_open"@, path@ + " baud="@ + dec(baud as nat), Seq::empty()),
            ),
    {
        if path.unicode_len() == 0 {
            return Err(TransportError::Unavailable);
        }
        self.open = true;
        let mut detail = string_of(path);
        push_str(&mut detail, " baud=");
        push_u64(&mut detail, baud as u64);
        push_record(&mut self.log, "serial_open", detail, Vec::new());
        Ok(())
    }

    /// Writes to the open port; unavailable before it is opened.
    pub fn write(&mut self, data: &[u8]) -> (r: Result<usize, TransportError>)
        ensures
            final(self).is_open() == old(self).is_open(),
            !old(self).is_open() ==> r == Err::<usize, TransportError>(TransportError::Unavailable) && final(self).spec_log()
                == old(self).spec_log(),
            old(self).is_open() ==> r == Ok::<usize, TransportError>(data@.len() as usize) && log_of(final(self).spec_log())
                == log_of(old(self).spec_log()).push(("serial_write"@, "len="@ + dec(data@.len()), data@)),
    {
        if !self.open {
            return Err(TransportError::Unavailable);
        }
        let mut detail = string_of("len=");
        push_u64(&mut detail, data.len() as u64);
        push_record(&mut self.log, "serial_write", detail, copy_bytes(data));
        Ok(data.len())
    }
}

impl Default for FakeSerial {
    fn default() -> (p: Self)
        ensures
            !p.is_open(),
            p.spec_log().len() == 0,
    {
        Self::new()
    }
}

/// What could not be changed when sharing a serial port with other programs.
#[derive(Clone, Copy, Debug, PartialEq, Eq, Structural)]
pub enum ShareWarning {
    NativeHandle,
    Exclusive,
    Hupcl,
}

/// A sysfs writer that logs `sysfs_write`.
#[derive(Clone, Debug)]
pub struct FakeSysfs {
    pub log: Vec<IoRecord>,
}

impl FakeSysfs {
    /// The calls logged so far.
    pub closed spec fn spec_log(&self) -> Seq<IoRecord> {
        self.log@
    }

    pub fn new() -> (f: Self)
        ensures
            f.spec_log().len() == 0,
    {
        FakeSysfs { log: Vec::new() }
    }

    /// Writes to a sysfs file; unavailable for an empty path.
    pub fn write(&mut self, path: &str, data: &[u8]) -> (r: Result<(), TransportError>)
        ensures
            path@.len() == 0 ==> r == Err::<(), TransportError>(TransportError::Unavailable) && final(self).spec_log() == old(self).spec_log(),
            path@.len() > 0 ==> r is Ok && log_of(final(self).spec_log()) == log_of(old(self).spec_log()).push(
                ("sysfs_write"@, path@, data@),
            ),
    {
        if path.unicode_len() == 0 {
            return Err(TransportError::Unavailable);
        }
        push_record(&mut self.log, "sysfs_write", string_of(path), copy_bytes(data));
        Ok(())
    }
}

impl Default for FakeSysfs {
    fn default() -> (f: Self)
        ensures
            f.spec_log().len() == 0,
    {
        Self::new()
    }
}

/// A Pulse connection that logs context creation, mainloop locking, mute and
/// stream writes; writes need the context open and the mainloop locked.
#[derive(Clone, Debug)]
pub struct FakePulse {
    pub log: Vec<IoRecord>,
    locked: bool,
    open: bool,
}

impl FakePulse {
    /// The calls logged so far.
    pub closed spec fn spec_log(&self) -> Seq<IoRecord> {
        self.log@
    }

    pub closed spec fn is_open(&self) -> bool {
        self.open
    }

    pub closed spec fn is_locked(&self) -> bool {
        self.locked
    }

    pub fn new() -> (p: Self)
        ensures
            !p.is_open(),
            !p.is_locked(),
            p.spec_log().len() == 0,
    {
        FakePulse { log: Vec::new(), locked: false, open: false }
    }

    /// Creates the context.
    pub fn open(&mut self) -> (r: Result<(), TransportError>)
        ensures
            r is Ok,
            final(self).is_open(),
            final(self).is_locked() == old(self).is_locked(),
            log_of(final(self).spec_log()) == log_of(old(self).spec_log()).push(("pa_context_new"@, PULSE_APP_NAME@, Seq::empty())),
    {
        self.open = true;
        push_record(&mut self.log, "pa_context_new", string_of(PULSE_APP_NAME), Vec::new());
        Ok(())
    }

    /// Locks the mainloop.
    pub fn lock(&mut self)
        ensures
            final(self).is_locked(),
            final(self).is_open() == old(self).is_open(),
            log_of(final(self).spec_log()) == log_of(old(self).spec_log()).push(
                ("pa_threaded_mainloop_lock"@, Seq::empty(), Seq::empty()),
            ),
    {
        self.locked = true;
        push_record(&mut self.log, "pa_threaded_mainloop_lock", String::new(), Vec::new());
    }

    /// Unlocks the mainloop.
    pub fn unlock(&mut self)
        ensures
            !final(self).is_locked(),
            final(self).is_open() == old(self).is_open(),
            log_of(final(self).spec_log()) == log_of(old(self).spec_log()).push(
                ("pa_threaded_mainloop_unlock"@, Seq::empty(), Seq::empty()),
            ),
    {
        self.locked = false;
        push_record(&mut self.log, "pa_threaded_mainloop_unlock", String::new(), Vec::new());
    }

    /// Mutes or unmutes the sink input; unavailable without a context.
    pub fn set_mute(&mut self, muted: bool) -> (r: Result<(), TransportError>)
        ensures
            final(self).is_open() == old(self).is_open(),
            final(self).is_locked() == old(self).is_locked(),
            !old(self).is_open() ==> r == Err::<(), TransportError>(TransportError::Unavailable) && final(self).spec_log()
                == old(self).spec_log(),
            old(self).is_open() ==> r is Ok && log_of(final(self).spec_log()) == log_of(old(self).spec_log()).push(
                ("pa_context_set_sink_input_mute"@, "mute="@ + (if muted { "true"@ } else { "false"@ }), Seq::empty()),
            ),
    {
        if !self.open {
            return Err(TransportError::Unavailable);
        }
        let mut detail = string_of("mute=");
        push_str(&mut detail, if muted { "true" } else { "false" });
        push_record(&mut self.log, "pa_context_set_sink_input_mute", detail, Vec::new());
        Ok(())
    }

    /// Writes samples; fails unless the context is open and the mainloop locked.
    pub fn write(&mut self, pcm: &[u8]) -> (r: Result<usize, TransportError>)
        ensures
            final(self).is_open() == old(self).is_open(),
            final(self).is_locked() == old(self).is_locked(),
            !(old(self).is_open() && old(self).is_locked()) ==> r == Err::<usize, TransportError>(TransportError::Failed)
                && final(self).spec_log() == old(self).spec_log(),
            old(self).is_open() && old(self).is_locked() ==> r == Ok::<usize, TransportError>(pcm@.len() as usize)
                && log_of(final(self).spec_log()) == log_of(old(self).spec_log()).push(("pa_stream_write"@, "len="@ + dec(pcm@.len()), pcm@)),
    {
        if !self.open || !self.locked {
            return Err(TransportError::Failed);
        }
        let mut detail = string_of("len=");
        push_u64(&mut detail, pcm.len() as u64);
        push_record(&mut self.log, "pa_stream_write", detail, copy_bytes(pcm));
        Ok(pcm.len())
    }
}

impl Default for FakePulse {
    fn default() -> (p: Self)
        ensures
            !p.is_open(),
            !p.is_locked(),
            p.spec_log().len() == 0,
    {
        Self::new()
    }
}

/// How connecting to the Pulse server ended.
#[derive(Clone, Copy, Debug, PartialEq, Eq, Structural)]
pub enum PulseOutcome {
    Ready,
    ConnectFailed,
    ContextFailed { state: i32 },
    NotCreated,
}

/// The outcome of a context that settled in `state` (a `PULSE_CONTEXT_*`
/// code), or never settled: ready, failed or terminated with its state, and
/// a connect failure otherwise.
pub fn pulse_outcome(state: Option<i32>) -> (r: PulseOutcome)
    ensures
        r == (match state {
            None => PulseOutcome::ConnectFailed,
            Some(s) => if s == PULSE_CONTEXT_READY {
                PulseOutcome::Ready
            } else if s == PULSE_CONTEXT_FAILED || s == PULSE_CONTEXT_TERMINATED {
                PulseOutcome::ContextFailed { state: s }
            } else {
                PulseOutcome::ConnectFailed
            },
        }),
{
    match state {
        None => PulseOutcome::ConnectFailed,
        Some(s) => {
            if s == PULSE_CONTEXT_READY {
                PulseOutcome::Ready
            } else if s == PULSE_CONTEXT_FAILED || s == PULSE_CONTEXT_TERMINATED {
                PulseOutcome::ContextFailed { state: s }
            } else {
                PulseOutcome::ConnectFailed
            }
        },
    }
}

} // verus!
