//! The trace a capture run writes: every call a device driver makes to the
//! outside world, one line each, stamped with the frame number and the
//! virtual clock's milliseconds. Serial ports are shared by name and closed
//! when their last user closes them; a strip asked for its LED count
//! answers "8\r".
use vstd::prelude::*;
use crate::clock::{sat_add, sat_mul_1000, Clock, VirtualClock, US_PER_MS};
use crate::text::{dec, dec_int, eq_ascii_ci, hex_bytes, push_hex_bytes, push_i64, push_str, push_u64, str_is_ascii_ci, string_of};
use crate::transport::{hex4, push_hex4};
use crate::serial::{parse_simled_count, simled_count_query, SimLedCount, LED_FIRST, SIMLED_QUERY_WAIT_MS};
use crate::serial_laws::{dec_bytes, simled_count_reply_reads_back};

verus! {

/// The virtual clock starts one second in.
pub const CAPTURE_ORIGIN_US: u64 = 1_000_000;
/// Frames are 16 ms apart.
pub const CAPTURE_TICK_US: u64 = 16_000;
/// The serial port every capture opens.
pub const CAPTURE_PORT: &'static str = "/dev/ttyPARITY0";
/// The sink the sound captures play to.
pub const CAPTURE_SINK: &'static str = "parity-shaker";
/// The client name of the sound captures.
pub const CAPTURE_APP: &'static str = "Cargopit";

/// The bytes of the LED-count query's tag.
pub open spec fn ledsc_tag() -> Seq<u8> {
    seq![0x6cu8, 0x65, 0x64, 0x73, 0x63]
}

/// The strip's answer to the LED-count query.
pub open spec fn count_reply() -> Seq<u8> {
    seq![0x38u8, 0x0d]
}

/// One trace line.
pub open spec fn op_line(tick: u32, ms: u64, name: Seq<char>, detail: Seq<char>) -> Seq<char> {
    "tick "@ + dec(tick as nat) + " t_ms "@ + dec(ms as nat) + " "@ + name + " "@ + detail + "\n"@
}

/// The bytes hold the LED-count query's tag somewhere.
pub open spec fn has_ledsc(data: Seq<u8>) -> bool {
    exists|i: int| 0 <= i && i + 5 <= data.len() && #[trigger] data.subrange(i, i + 5) == ledsc_tag()
}

/// A serial port of the trace: its name, whether a reply waits to be read,
/// and how many users hold it open.
pub struct CapturePort {
    pub name: String,
    pub reply_ready: bool,
    pub refs: u32,
}

/// A port as its name, reply flag and users.
pub open spec fn port_view(p: Option<CapturePort>) -> Option<(Seq<char>, bool, u32)> {
    match p {
        Some(q) => Some((q.name@, q.reply_ready, q.refs)),
        None => None,
    }
}

/// The name of a port slot.
pub open spec fn slot_name(slot: Option<(Seq<char>, bool, u32)>) -> Seq<char> {
    match slot {
        Some(p) => p.0,
        None => Seq::empty(),
    }
}

/// Whether a port slot has a reply ready.
pub open spec fn slot_ready(slot: Option<(Seq<char>, bool, u32)>) -> bool {
    match slot {
        Some(p) => p.1,
        None => false,
    }
}

/// The users of a port slot.
pub open spec fn slot_refs(slot: Option<(Seq<char>, bool, u32)>) -> u32 {
    match slot {
        Some(p) => p.2,
        None => 0,
    }
}

/// The first port from `i` on that is open under `name`, ignoring ASCII case.
pub open spec fn first_open(ports: Seq<Option<(Seq<char>, bool, u32)>>, name: Seq<char>, i: int) -> Option<usize>
    decreases ports.len() - i,
{
    if i < 0 || i >= ports.len() {
        None
    } else if ports[i] matches Some(p) && p.2 > 0 && eq_ascii_ci(name, p.0) {
        Some(i as usize)
    } else {
        first_open(ports, name, i + 1)
    }
}

/// The trace of a capture run.
pub struct CaptureLog {
    tick: u32,
    lines: String,
    clock: VirtualClock,
    ports: Vec<Option<CapturePort>>,
    hid_id: u32,
}

impl CaptureLog {
    /// The frame number the lines are stamped with.
    pub closed spec fn tick_of(&self) -> u32 {
        self.tick
    }

    /// The trace so far.
    pub closed spec fn text_of(&self) -> Seq<char> {
        self.lines@
    }

    /// The virtual clock.
    pub closed spec fn clock_of(&self) -> VirtualClock {
        self.clock
    }

    /// The serial ports, by number.
    pub closed spec fn ports_of(&self) -> Seq<Option<(Seq<char>, bool, u32)>> {
        self.ports@.map_values(|p: Option<CapturePort>| port_view(p))
    }

    /// The number of the last HID handle opened.
    pub closed spec fn hid_of(&self) -> u32 {
        self.hid_id
    }

    /// The milliseconds the lines are stamped with.
    pub open spec fn ms_of(&self) -> u64 {
        self.clock_of().spec_us() / US_PER_MS
    }

    /// The trace with one more line stamped with the current frame and time.
    pub open spec fn with_line(&self, name: Seq<char>, detail: Seq<char>) -> Seq<char> {
        self.text_of() + op_line(self.tick_of(), self.ms_of(), name, detail)
    }

    /// Everything but the trace is as in `other`.
    pub open spec fn same_state(&self, other: &Self) -> bool {
        &&& self.tick_of() == other.tick_of()
        &&& self.clock_of() == other.clock_of()
        &&& self.ports_of() == other.ports_of()
        &&& self.hid_of() == other.hid_of()
    }

    /// An empty trace at frame 0, the clock one second in, no ports, no HID handles.
    pub fn new() -> (log: Self)
        ensures
            log.tick_of() == 0,
            log.text_of() == Seq::<char>::empty(),
            log.clock_of().spec_us() == CAPTURE_ORIGIN_US,
            log.clock_of().spec_wall_ms() == CAPTURE_ORIGIN_US / US_PER_MS,
            log.ports_of() == Seq::<Option<(Seq<char>, bool, u32)>>::empty(),
            log.hid_of() == 0,
    {
        let mut clock = VirtualClock::new();
        clock.advance_us(CAPTURE_ORIGIN_US);
        let ports: Vec<Option<CapturePort>> = Vec::new();
        let log = CaptureLog { tick: 0, lines: String::new(), clock, ports, hid_id: 0 };
        assert(log.ports_of() =~= Seq::<Option<(Seq<char>, bool, u32)>>::empty());
        log
    }

    /// The trace so far.
    pub fn text(&self) -> (s: String)
        ensures
            s@ == self.text_of(),
    {
        self.lines.clone()
    }

    /// Stamps the next lines with frame `tick`.
    pub fn set_tick(&mut self, tick: u32)
        ensures
            final(self).tick_of() == tick,
            final(self).text_of() == old(self).text_of(),
            final(self).clock_of() == old(self).clock_of(),
            final(self).ports_of() == old(self).ports_of(),
            final(self).hid_of() == old(self).hid_of(),
    {
        self.tick = tick;
    }

    /// Moves the clock on by one frame.
    pub fn advance_tick(&mut self)
        ensures
            final(self).clock_of().spec_us() == sat_add(old(self).clock_of().spec_us() as int, CAPTURE_TICK_US as int),
            final(self).clock_of().spec_wall_ms() == sat_add(
                old(self).clock_of().spec_wall_ms() as int,
                (CAPTURE_TICK_US / US_PER_MS) as int,
            ),
            final(self).tick_of() == old(self).tick_of(),
            final(self).text_of() == old(self).text_of(),
            final(self).ports_of() == old(self).ports_of(),
            final(self).hid_of() == old(self).hid_of(),
    {
        self.clock.advance_us(CAPTURE_TICK_US);
    }

    /// Writes the line `tick T t_ms MS name detail`.
    pub fn op(&mut self, name: &str, detail: &str)
        ensures
            final(self).text_of() == old(self).with_line(name@, detail@),
            final(self).same_state(&*old(self)),
    {
        let ms = self.clock.monotonic_ms();
        push_str(&mut self.lines, "tick ");
        push_u64(&mut self.lines, self.tick as u64);
        push_str(&mut self.lines, " t_ms ");
        push_u64(&mut self.lines, ms);
        push_str(&mut self.lines, " ");
        push_str(&mut self.lines, name);
        push_str(&mut self.lines, " ");
        push_str(&mut self.lines, detail);
        push_str(&mut self.lines, "\n");
        assert(self.lines@ =~= old(self).with_line(name@, detail@));
    }

    /// Writes a line whose detail is the bytes in hexadecimal.
    pub fn bytes(&mut self, name: &str, data: &[u8])
        ensures
            final(self).text_of() == old(self).with_line(name@, hex_bytes(data@)),
            final(self).same_state(&*old(self)),
    {
        let mut hex = String::new();
        push_hex_bytes(&mut hex, data);
        self.op(name, hex.as_str());
    }

    /// The clock's milliseconds, without a trace line.
    pub fn monotonic_ms(&self) -> (r: u64)
        ensures
            r == self.ms_of(),
    {
        self.clock.monotonic_ms()
    }

    /// The clock's microseconds, without a trace line.
    pub fn monotonic_us(&self) -> (r: u64)
        ensures
            r == self.clock_of().spec_us(),
    {
        self.clock.monotonic_us()
    }

    /// The clock's wall milliseconds, without a trace line.
    pub fn wall_ms(&self) -> (r: u64)
        ensures
            r == self.clock_of().spec_wall_ms(),
    {
        self.clock.wall_ms()
    }

    /// The clock's nanoseconds, traced as a `clock_gettime` call.
    pub fn traced_monotonic_ns(&mut self) -> (r: u64)
        ensures
            r == sat_mul_1000(old(self).clock_of().spec_us()),
            final(self).text_of() == old(self).with_line("clock_gettime"@, "clk=1 ns="@ + dec(r as nat)),
            final(self).same_state(&*old(self)),
    {
        let ns = self.clock.monotonic_ns();
        let mut detail = string_of("clk=1 ns=");
        push_u64(&mut detail, ns);
        self.op("clock_gettime", detail.as_str());
        ns
    }

    /// The clock's wall milliseconds, traced as a `gettimeofday` call.
    pub fn traced_wall_ms(&mut self) -> (r: u64)
        ensures
            r == old(self).clock_of().spec_wall_ms(),
            final(self).text_of() == old(self).with_line("gettimeofday"@, "virtual"@),
            final(self).same_state(&*old(self)),
    {
        self.op("gettimeofday", "virtual");
        self.clock.wall_ms()
    }

    /// Opens a HID device: `hid_init`, then `hid_open` with the next handle
    /// number and the ids in hexadecimal.
    pub fn hid_open(&mut self, vid: u16, pid: u16) -> (id: u32)
        ensures
            id == (if old(self).hid_of() == u32::MAX { u32::MAX } else { (old(self).hid_of() + 1) as u32 }),
            final(self).hid_of() == id,
            final(self).text_of() == old(self).with_line("hid_init"@, ""@) + op_line(
                old(self).tick_of(),
                old(self).ms_of(),
                "hid_open"@,
                "id="@ + dec(id as nat) + " vid="@ + hex4(vid) + " pid="@ + hex4(pid),
            ),
            final(self).tick_of() == old(self).tick_of(),
            final(self).clock_of() == old(self).clock_of(),
            final(self).ports_of() == old(self).ports_of(),
    {
        self.op("hid_init", "");
        self.hid_id = if self.hid_id == u32::MAX { u32::MAX } else { self.hid_id + 1 };
        let id = self.hid_id;
        let mut detail = string_of("id=");
        push_u64(&mut detail, id as u64);
        push_str(&mut detail, " vid=");
        push_hex4(&mut detail, vid);
        push_str(&mut detail, " pid=");
        push_hex4(&mut detail, pid);
        self.op("hid_open", detail.as_str());
        id
    }

    /// A `hid_write` of the bytes to handle `id`.
    pub fn hid_write(&mut self, id: u32, data: &[u8])
        ensures
            final(self).text_of() == old(self).with_line("hid_write id="@ + dec(id as nat), hex_bytes(data@)),
            final(self).same_state(&*old(self)),
    {
        let mut name = string_of("hid_write id=");
        push_u64(&mut name, id as u64);
        self.bytes(name.as_str(), data);
    }

    /// A `hid_send_feature_report` of the bytes to handle `id`.
    pub fn hid_feature(&mut self, id: u32, data: &[u8])
        ensures
            final(self).text_of() == old(self).with_line(
                "hid_send_feature_report id="@ + dec(id as nat),
                hex_bytes(data@),
            ),
            final(self).same_state(&*old(self)),
    {
        let mut name = string_of("hid_send_feature_report id=");
        push_u64(&mut name, id as u64);
        self.bytes(name.as_str(), data);
    }

    /// Closes handle `id`: `hid_close`, then `hid_exit`.
    pub fn hid_close(&mut self, id: u32)
        ensures
            final(self).text_of() == old(self).with_line("hid_close"@, "id="@ + dec(id as nat)) + op_line(
                old(self).tick_of(),
                old(self).ms_of(),
                "hid_exit"@,
                ""@,
            ),
            final(self).same_state(&*old(self)),
    {
        let mut detail = string_of("id=");
        push_u64(&mut detail, id as u64);
        self.op("hid_close", detail.as_str());
        self.op("hid_exit", "");
    }

    /// The number of the first port open under `name`, ignoring ASCII case.
    pub fn find_open(&self, name: &str) -> (r: Option<usize>)
        ensures
            r == first_open(self.ports_of(), name@, 0),
    {
        let mut i: usize = 0;
        while i < self.ports.len()
            invariant
                i <= self.ports@.len(),
                first_open(self.ports_of(), name@, i as int) == first_open(self.ports_of(), name@, 0),
            decreases self.ports@.len() - i,
        {
            assert(self.ports_of()[i as int] == port_view(self.ports@[i as int]));
            match &self.ports[i] {
                Some(port) => {
                    if port.refs > 0 && str_is_ascii_ci(name, port.name.as_str()) {
                        return Some(i);
                    }
                },
                None => {},
            }
            i += 1;
        }
        None
    }

    /// Opens a serial port: a port already open under that name gets one
    /// more user; else the port is looked up, opened and set to `baud`, and
    /// it takes the next number.
    pub fn open_port(&mut self, name: &str, baud: i32) -> (id: usize)
        requires
            forall|i: int| 0 <= i < old(self).ports_of().len() ==> (#[trigger] old(self).ports_of()[i] matches Some(p)
                ==> p.2 < u32::MAX),
        ensures
            match first_open(old(self).ports_of(), name@, 0) {
                Some(j) => {
                    &&& id == j
                    &&& final(self).ports_of() == old(self).ports_of().update(
                        j as int,
                        Some(
                            (
                                slot_name(old(self).ports_of()[j as int]),
                                slot_ready(old(self).ports_of()[j as int]),
                                (slot_refs(old(self).ports_of()[j as int]) + 1) as u32,
                            ),
                        ),
                    )
                    &&& final(self).text_of() == old(self).text_of()
                },
                None => {
                    &&& id == old(self).ports_of().len()
                    &&& final(self).ports_of() == old(self).ports_of().push(Some((name@, false, 1u32)))
                    &&& final(self).text_of() == old(self).with_line("sp_get_port_by_name"@, name@) + op_line(
                        old(self).tick_of(),
                        old(self).ms_of(),
                        "sp_open"@,
                        "port="@ + name@,
                    ) + op_line(
                        old(self).tick_of(),
                        old(self).ms_of(),
                        "sp_set_baudrate"@,
                        "port="@ + name@ + " baud="@ + dec_int(baud as int),
                    )
                },
            },
            final(self).tick_of() == old(self).tick_of(),
            final(self).clock_of() == old(self).clock_of(),
            final(self).hid_of() == old(self).hid_of(),
    {
        match self.find_open(name) {
            Some(j) => {
                proof {
                    assert(self.ports@.len() == self.ports.len());
                    assert(self.ports_of().len() == self.ports@.len());
                    lemma_first_open_found(self.ports_of(), name@, 0);
                }
                assert(self.ports_of()[j as int] == port_view(self.ports@[j as int]));
                let mut slot = None;
                std::mem::swap(&mut slot, &mut self.ports[j]);
                let mut port = match slot {
                    Some(p) => p,
                    None => {
                        assert(false);
                        CapturePort { name: String::new(), reply_ready: false, refs: 0 }
                    },
                };
                port.refs = port.refs + 1;
                self.ports.set(j, Some(port));
                assert(self.ports_of() =~= old(self).ports_of().update(
                    j as int,
                    Some(
                        (
                            slot_name(old(self).ports_of()[j as int]),
                            slot_ready(old(self).ports_of()[j as int]),
                            (slot_refs(old(self).ports_of()[j as int]) + 1) as u32,
                        ),
                    ),
                ));
                j
            },
            None => {
                self.op("sp_get_port_by_name", name);
                let mut open = string_of("port=");
                push_str(&mut open, name);
                self.op("sp_open", open.as_str());
                let mut rate = string_of("port=");
                push_str(&mut rate, name);
                push_str(&mut rate, " baud=");
                push_i64(&mut rate, baud as i64);
                self.op("sp_set_baudrate", rate.as_str());
                let port = CapturePort { name: string_of(name), reply_ready: false, refs: 1 };
                self.ports.push(Some(port));
                assert(self.ports_of() =~= old(self).ports_of().push(Some((name@, false, 1u32))));
                assert(self.text_of() =~= old(self).with_line("sp_get_port_by_name"@, name@) + op_line(
                    old(self).tick_of(),
                    old(self).ms_of(),
                    "sp_open"@,
                    "port="@ + name@,
                ) + op_line(
                    old(self).tick_of(),
                    old(self).ms_of(),
                    "sp_set_baudrate"@,
                    "port="@ + name@ + " baud="@ + dec_int(baud as int),
                ));
                self.ports.len() - 1
            },
        }
    }

    /// A blocking write of the bytes to port `id`; a port asked for its
    /// LED count has a reply ready.
    pub fn write_port(&mut self, id: usize, data: &[u8])
        requires
            id < old(self).ports_of().len(),
            old(self).ports_of()[id as int] is Some,
        ensures
            final(self).text_of() == old(self).with_line(
                "sp_blocking_write port="@ + slot_name(old(self).ports_of()[id as int]),
                hex_bytes(data@),
            ),
            final(self).ports_of() == (if has_ledsc(data@) {
                old(self).ports_of().update(
                    id as int,
                    Some((slot_name(old(self).ports_of()[id as int]), true, slot_refs(old(self).ports_of()[id as int]))),
                )
            } else {
                old(self).ports_of()
            }),
            final(self).tick_of() == old(self).tick_of(),
            final(self).clock_of() == old(self).clock_of(),
            final(self).hid_of() == old(self).hid_of(),
    {
        assert(self.ports_of()[id as int] == port_view(self.ports@[id as int]));
        let mut name = string_of("sp_blocking_write port=");
        match &self.ports[id] {
            Some(port) => push_str(&mut name, port.name.as_str()),
            None => {},
        }
        self.bytes(name.as_str(), data);
        if contains_ledsc(data) {
            let mut slot = None;
            std::mem::swap(&mut slot, &mut self.ports[id]);
            match slot {
                Some(mut port) => {
                    port.reply_ready = true;
                    self.ports.set(id, Some(port));
                },
                None => {},
            }
            assert(self.ports_of() =~= old(self).ports_of().update(
                id as int,
                Some((slot_name(old(self).ports_of()[id as int]), true, slot_refs(old(self).ports_of()[id as int]))),
            ));
        }
    }

    /// A wait on the port for up to `timeout_ms`.
    pub fn wait_port(&mut self, timeout_ms: u32)
        ensures
            final(self).text_of() == old(self).with_line("sp_wait"@, "timeout_ms="@ + dec(timeout_ms as nat)),
            final(self).same_state(&*old(self)),
    {
        let mut detail = string_of("timeout_ms=");
        push_u64(&mut detail, timeout_ms as u64);
        self.op("sp_wait", detail.as_str());
    }

    /// A blocking read of port `id`: the LED count "8\r" when a reply is
    /// ready, and the port has none after it; else nothing.
    pub fn read_port(&mut self, id: usize) -> (r: Vec<u8>)
        requires
            id < old(self).ports_of().len(),
            old(self).ports_of()[id as int] is Some,
        ensures
            slot_ready(old(self).ports_of()[id as int]) ==> {
                &&& r@ == count_reply()
                &&& final(self).text_of() == old(self).with_line("sp_blocking_read"@, hex_bytes(count_reply()))
                &&& final(self).ports_of() == old(self).ports_of().update(
                    id as int,
                    Some((slot_name(old(self).ports_of()[id as int]), false, slot_refs(old(self).ports_of()[id as int]))),
                )
            },
            !slot_ready(old(self).ports_of()[id as int]) ==> {
                &&& r@ == Seq::<u8>::empty()
                &&& final(self).text_of() == old(self).with_line("sp_blocking_read"@, "empty"@)
                &&& final(self).ports_of() == old(self).ports_of()
            },
            final(self).tick_of() == old(self).tick_of(),
            final(self).clock_of() == old(self).clock_of(),
            final(self).hid_of() == old(self).hid_of(),
    {
        assert(self.ports_of()[id as int] == port_view(self.ports@[id as int]));
        let ready = match &self.ports[id] {
            Some(port) => port.reply_ready,
            None => false,
        };
        if !ready {
            self.op("sp_blocking_read", "empty");
            return Vec::new();
        }
        let mut slot = None;
        std::mem::swap(&mut slot, &mut self.ports[id]);
        match slot {
            Some(mut port) => {
                port.reply_ready = false;
                self.ports.set(id, Some(port));
            },
            None => {},
        }
        assert(self.ports_of() =~= old(self).ports_of().update(
            id as int,
            Some((slot_name(old(self).ports_of()[id as int]), false, slot_refs(old(self).ports_of()[id as int]))),
        ));
        let mut reply: Vec<u8> = Vec::new();
        reply.push(0x38);
        reply.push(0x0d);
        assert(reply@ =~= count_reply());
        self.bytes("sp_blocking_read", reply.as_slice());
        reply
    }

    /// One user lets go of port `id`; the last one closes and frees it,
    /// keeping its number.
    pub fn close_port(&mut self, id: usize)
        requires
            id < old(self).ports_of().len(),
        ensures
            match old(self).ports_of()[id as int] {
                Some(p) => if p.2 == 0 {
                    final(self).ports_of() == old(self).ports_of() && final(self).text_of() == old(self).text_of()
                } else if p.2 > 1 {
                    &&& final(self).ports_of() == old(self).ports_of().update(id as int, Some((p.0, p.1, (p.2 - 1) as u32)))
                    &&& final(self).text_of() == old(self).text_of()
                } else {
                    &&& final(self).ports_of() == old(self).ports_of().update(id as int, Some((p.0, false, 0u32)))
                    &&& final(self).text_of() == old(self).with_line("sp_close"@, p.0) + op_line(
                        old(self).tick_of(),
                        old(self).ms_of(),
                        "sp_free_port"@,
                        p.0,
                    )
                },
                None => final(self).ports_of() == old(self).ports_of() && final(self).text_of() == old(self).text_of(),
            },
            final(self).ports_of() == old(self).ports_of().update(id as int, released(old(self).ports_of()[id as int])),
            !frees(old(self).ports_of()[id as int]) ==> final(self).text_of() == old(self).text_of(),
            final(self).tick_of() == old(self).tick_of(),
            final(self).clock_of() == old(self).clock_of(),
            final(self).hid_of() == old(self).hid_of(),
    {
        assert(self.ports_of()[id as int] == port_view(self.ports@[id as int]));
        let mut slot = None;
        std::mem::swap(&mut slot, &mut self.ports[id]);
        let mut port = match slot {
            None => {
                self.ports.set(id, None);
                assert(self.ports_of() =~= old(self).ports_of());
                return;
            },
            Some(p) => p,
        };
        if port.refs == 0 {
            self.ports.set(id, Some(port));
            assert(self.ports_of() =~= old(self).ports_of());
            return;
        }
        port.refs = port.refs - 1;
        if port.refs > 0 {
            self.ports.set(id, Some(port));
            assert(self.ports_of() =~= old(self).ports_of().update(
                id as int,
                Some((slot_name(old(self).ports_of()[id as int]), slot_ready(old(self).ports_of()[id as int]), port.refs)),
            ));
            return;
        }
        port.reply_ready = false;
        let name = port.name.clone();
        self.ports.set(id, Some(port));
        assert(self.ports_of() =~= old(self).ports_of().update(
            id as int,
            Some((slot_name(old(self).ports_of()[id as int]), false, 0u32)),
        ));
        self.op("sp_close", name.as_str());
        self.op("sp_free_port", name.as_str());
    }

    /// Opens a playback stream: mainloop, context, connection, the stream
    /// on `sink`, and the sink input unmuted.
    pub fn pa_open(&mut self, stream: &str, sink: &str)
        ensures
            final(self).text_of() == old(self).text_of() + pa_open_lines(
                old(self).tick_of(),
                old(self).ms_of(),
                stream@,
                sink@,
            ),
            final(self).same_state(&*old(self)),
    {
        self.op("pa_threaded_mainloop_new", "");
        self.op("pa_context_new", CAPTURE_APP);
        self.op("pa_threaded_mainloop_start", "");
        self.op("pa_context_connect", "");
        self.op("pa_stream_new", stream);
        self.op("pa_stream_connect_playback", sink);
        self.op("pa_context_set_sink_input_mute", "index=1 mute=0");
        proof { reveal_strlit("Cargopit"); }
        assert(self.text_of() =~= old(self).text_of() + pa_open_lines(old(self).tick_of(), old(self).ms_of(), stream@, sink@));
    }

    /// Writes samples to the stream.
    pub fn pa_write(&mut self, data: &[u8])
        ensures
            final(self).text_of() == old(self).with_line("pa_stream_write"@, hex_bytes(data@)),
            final(self).same_state(&*old(self)),
    {
        self.bytes("pa_stream_write", data);
    }

    /// Disconnects the stream and frees the context and the mainloop.
    pub fn pa_close(&mut self)
        ensures
            final(self).text_of() == old(self).with_line("pa_stream_disconnect"@, ""@) + op_line(
                old(self).tick_of(),
                old(self).ms_of(),
                "pa_context_unref"@,
                ""@,
            ) + op_line(old(self).tick_of(), old(self).ms_of(), "pa_threaded_mainloop_free"@, ""@),
            final(self).same_state(&*old(self)),
    {
        self.op("pa_stream_disconnect", "");
        self.op("pa_context_unref", "");
        self.op("pa_threaded_mainloop_free", "");
    }
}

/// The LED-count query the simled strips are asked, as `simled_count_query` builds it.
pub open spec fn count_query() -> Seq<u8> {
    seq![0xffu8, 0xff, 0xff, 0xff, 0xff, 0xff, 0x6c, 0x65, 0x64, 0x73, 0x63]
}

/// Asks the strip on port `id` for its LED count: a wait, the query, a
/// wait, and a read. The virtual strip answers 8.
pub fn query_led_count(log: &mut CaptureLog, id: usize) -> (r: Option<i32>)
    requires
        id < old(log).ports_of().len(),
        old(log).ports_of()[id as int] is Some,
    ensures
        r == Some(8i32),
        final(log).text_of() == old(log).with_line("sp_wait"@, "timeout_ms=5000"@) + op_line(
            old(log).tick_of(),
            old(log).ms_of(),
            "sp_blocking_write port="@ + slot_name(old(log).ports_of()[id as int]),
            hex_bytes(count_query()),
        ) + op_line(old(log).tick_of(), old(log).ms_of(), "sp_wait"@, "timeout_ms=5000"@) + op_line(
            old(log).tick_of(),
            old(log).ms_of(),
            "sp_blocking_read"@,
            hex_bytes(count_reply()),
        ),
        final(log).ports_of() == old(log).ports_of().update(
            id as int,
            Some((slot_name(old(log).ports_of()[id as int]), false, slot_refs(old(log).ports_of()[id as int]))),
        ),
        final(log).tick_of() == old(log).tick_of(),
        final(log).clock_of() == old(log).clock_of(),
        final(log).hid_of() == old(log).hid_of(),
{
    log.wait_port(SIMLED_QUERY_WAIT_MS);
    let query = simled_count_query();
    proof {
        let w: int = 6;
        assert(query@.subrange(w, w + 5) =~= ledsc_tag());
        assert(0 <= w && w + 5 <= query@.len() && query@.subrange(w, w + 5) == ledsc_tag());
    }
    assert(has_ledsc(query@));
    log.write_port(id, query.as_slice());
    log.wait_port(SIMLED_QUERY_WAIT_MS);
    let reply = log.read_port(id);
    proof {
        simled_count_reply_reads_back(8, seq![0x0du8]);
        assert(dec_bytes(8) + seq![0x0du8] =~= count_reply());
        assert("timeout_ms="@ + dec(SIMLED_QUERY_WAIT_MS as nat) =~= "timeout_ms=5000"@) by {
            reveal_strlit("timeout_ms=5000");
            reveal_strlit("timeout_ms=");
            reveal_with_fuel(dec, 5);
        }
    }
    let parsed = parse_simled_count(reply.as_slice());
    match parsed {
        SimLedCount::Count(count) => {
            if count < LED_FIRST {
                return None;
            }
            Some(count)
        },
        _ => None,
    }
}

/// The lines of opening a playback stream.
pub open spec fn pa_open_lines(tick: u32, ms: u64, stream: Seq<char>, sink: Seq<char>) -> Seq<char> {
    op_line(tick, ms, "pa_threaded_mainloop_new"@, ""@) + op_line(tick, ms, "pa_context_new"@, "Cargopit"@) + op_line(
        tick,
        ms,
        "pa_threaded_mainloop_start"@,
        ""@,
    ) + op_line(tick, ms, "pa_context_connect"@, ""@) + op_line(tick, ms, "pa_stream_new"@, stream) + op_line(
        tick,
        ms,
        "pa_stream_connect_playback"@,
        sink,
    ) + op_line(tick, ms, "pa_context_set_sink_input_mute"@, "index=1 mute=0"@)
}

proof fn lemma_first_open_found(ports: Seq<Option<(Seq<char>, bool, u32)>>, name: Seq<char>, i: int)
    requires
        0 <= i,
        ports.len() <= usize::MAX,
    ensures
        first_open(ports, name, i) matches Some(j) ==> i <= j < ports.len() && ports[j as int] is Some,
    decreases ports.len() - i,
{
    if i < ports.len() {
        lemma_first_open_found(ports, name, i + 1);
    }
}

/// The bytes hold the LED-count query's tag.
fn contains_ledsc(data: &[u8]) -> (r: bool)
    ensures
        r == has_ledsc(data@),
{
    if data.len() < 5 {
        assert(!has_ledsc(data@)) by {
            assert forall|i: int| 0 <= i && i + 5 <= data@.len() implies #[trigger] data@.subrange(i, i + 5) != ledsc_tag() by {}
        }
        return false;
    }
    let mut i: usize = 0;
    while i <= data.len() - 5
        invariant
            data@.len() >= 5,
            i <= data@.len() - 4,
            forall|k: int| 0 <= k < i ==> #[trigger] data@.subrange(k, k + 5) != ledsc_tag(),
        decreases data@.len() - i,
    {
        if data[i] == 0x6c && data[i + 1] == 0x65 && data[i + 2] == 0x64 && data[i + 3] == 0x73 && data[i + 4] == 0x63 {
            assert(data@.subrange(i as int, i as int + 5) =~= ledsc_tag());
            return true;
        }
        assert(data@.subrange(i as int, i as int + 5) != ledsc_tag()) by {
            if data@.subrange(i as int, i as int + 5) == ledsc_tag() {
                assert(data@.subrange(i as int, i as int + 5)[0] == data@[i as int]);
                assert(data@.subrange(i as int, i as int + 5)[1] == data@[i as int + 1]);
                assert(data@.subrange(i as int, i as int + 5)[2] == data@[i as int + 2]);
                assert(data@.subrange(i as int, i as int + 5)[3] == data@[i as int + 3]);
                assert(data@.subrange(i as int, i as int + 5)[4] == data@[i as int + 4]);
            }
        }
        i += 1;
    }
    assert(!has_ledsc(data@));
    false
}


/// A port slot after one release: one reference fewer, closed (not ready,
/// no references) at the last; an empty or unreferenced slot stays.
pub open spec fn released(p: Option<(Seq<char>, bool, u32)>) -> Option<(Seq<char>, bool, u32)> {
    match p {
        Some(q) => if q.2 == 0 {
            p
        } else if q.2 > 1 {
            Some((q.0, q.1, (q.2 - 1) as u32))
        } else {
            Some((q.0, false, 0u32))
        },
        None => None,
    }
}

/// Releasing this slot frees the port, writing the close lines.
pub open spec fn frees(p: Option<(Seq<char>, bool, u32)>) -> bool {
    p matches Some(q) && q.2 == 1
}

/// A slot after `n` releases.
pub open spec fn released_n(p: Option<(Seq<char>, bool, u32)>, n: nat) -> Option<(Seq<char>, bool, u32)>
    decreases n,
{
    if n == 0 { p } else { released(released_n(p, (n - 1) as nat)) }
}

/// A port opened `k` times is freed by the `k`-th release and by no other:
/// the releases before it only drop a reference, and those after it find the
/// port closed and leave it so.
pub proof fn port_frees_on_the_last_release(p: (Seq<char>, bool, u32), j: nat)
    requires
        p.2 >= 1,
    ensures
        frees(released_n(Some(p), j)) <==> j == p.2 - 1,
        j < p.2 ==> released_n(Some(p), j) == Some((p.0, p.1, (p.2 - j) as u32)),
        j >= p.2 ==> released_n(Some(p), j) == Some((p.0, false, 0u32)),
    decreases j,
{
    if j > 0 {
        port_frees_on_the_last_release(p, (j - 1) as nat);
    }
}

} // verus!
