//! The Assetto Corsa Rally 48-byte `ACRM` UDP bridge: which packets it takes and
//! when the physics shared memory is blank.
use vstd::prelude::*;
use crate::simdata::{
    u32_bytes, u64_bytes, write_at, OFF_IDLERPM, OFF_MAXRPM, OFF_MTICK, OFF_RPMS, OFF_SIMAPI, OFF_SIMEXE, OFF_SIMON,
    OFF_SIMSTATUS,
};
use crate::telemetry::Telemetry;

verus! {

pub const PACKET_BYTES: usize = 48;
pub const SIMEXE_ACR: u64 = 3_917_090;
pub const UDP_PORT: u16 = 20999;
pub const PHYSICS_PROBE_BYTES: usize = 64;
pub const PHYSICS_SHM_PATH: &'static str = "/dev/shm/acpmf_physics";
pub const SIMEXE_DIRT_RALLY_2: u64 = 690_790;
/// The redline a packet without one gets.
pub const REDLINE_FLOOR: u32 = 5000;
/// The idle rpm a packet without one gets.
pub const IDLE_DEFAULT: u32 = 900;
pub const STATUS_ACTIVE: u32 = 2;
pub const SIM_ASSETTO_CORSA: u8 = 1;

/// The packet magic, `ACRM`.
pub open spec fn acr_magic() -> Seq<u8> {
    seq![0x41u8, 0x43u8, 0x52u8, 0x4du8]
}

/// A packet of the bridge: at least 48 bytes, starting with `ACRM`.
pub open spec fn spec_packet_ok(buf: Seq<u8>) -> bool {
    buf.len() >= PACKET_BYTES && buf.subrange(0, 4) == acr_magic()
}

/// The packet is an `ACRM` bridge packet.
pub fn packet_ok(buf: &[u8]) -> (r: bool)
    ensures
        r == spec_packet_ok(buf@),
{
    if buf.len() < PACKET_BYTES {
        return false;
    }
    let r = buf[0] == 0x41 && buf[1] == 0x43 && buf[2] == 0x52 && buf[3] == 0x4d;
    assert(r == (buf@.subrange(0, 4) =~= acr_magic()));
    r
}

/// Missing, empty, or zero in its first 64 bytes.
pub open spec fn spec_physics_shm_is_blank(bytes: Option<Seq<u8>>) -> bool {
    match bytes {
        None => true,
        Some(buf) => zero_prefix(buf),
    }
}

/// The first 64 bytes, or all of them when there are fewer, are zero.
pub open spec fn zero_prefix(buf: Seq<u8>) -> bool {
    forall|i: int| 0 <= i < buf.len() && i < PHYSICS_PROBE_BYTES ==> #[trigger] buf[i] == 0
}

/// The view of an optional byte slice.
pub open spec fn opt_bytes(bytes: Option<&[u8]>) -> Option<Seq<u8>> {
    match bytes {
        None => None,
        Some(b) => Some(b@),
    }
}

/// The physics shared memory is missing, empty, or zero where it is probed.
pub fn physics_shm_is_blank(bytes: Option<&[u8]>) -> (r: bool)
    ensures
        r == spec_physics_shm_is_blank(opt_bytes(bytes)),
{
    let buf = match bytes {
        None => return true,
        Some(buf) => buf,
    };
    let probe = if buf.len() < PHYSICS_PROBE_BYTES { buf.len() } else { PHYSICS_PROBE_BYTES };
    let mut i: usize = 0;
    while i < probe
        invariant
            opt_bytes(bytes) == Some(buf@),
            probe <= buf@.len(),
            probe == (if buf@.len() < PHYSICS_PROBE_BYTES { buf@.len() as int } else { PHYSICS_PROBE_BYTES as int }),
            i <= probe,
            forall|j: int| 0 <= j < i ==> buf@[j] == 0,
        decreases probe - i,
    {
        if buf[i] != 0 {
            let ghost s = buf@;
            assert(0 <= i < s.len() && i < PHYSICS_PROBE_BYTES && s[i as int] != 0);
            assert(!zero_prefix(s));
            return false;
        }
        i += 1;
    }
    true
}

/// Assetto Corsa Rally whose physics memory is blank needs the UDP bridge.
pub fn needs_udp_bridge(simexe: u64, physics: Option<&[u8]>) -> (r: bool)
    ensures
        r == (simexe == SIMEXE_ACR && spec_physics_shm_is_blank(opt_bytes(physics))),
{
    simexe == SIMEXE_ACR && physics_shm_is_blank(physics)
}

/// A frame after the engine part of a packet: the tick, the rpm, the redline
/// (5000 when the packet has none), the idle rpm (900 when none), and the
/// frame marked as Assetto Corsa Rally in active play.
pub open spec fn engine_bytes(b: Seq<u8>, rpm: u32, redline: u32, idle: u32, now_ms: u64) -> Seq<u8> {
    let b = write_at(b, OFF_MTICK as int, u64_bytes(now_ms));
    let b = write_at(b, OFF_RPMS as int, u32_bytes(rpm));
    let b = write_at(b, OFF_MAXRPM as int, u32_bytes(if redline == 0 { REDLINE_FLOOR } else { redline }));
    let b = write_at(b, OFF_IDLERPM as int, u32_bytes(if idle == 0 { IDLE_DEFAULT } else { idle }));
    let b = b.update(OFF_SIMON as int, 1u8);
    let b = write_at(b, OFF_SIMSTATUS as int, u32_bytes(STATUS_ACTIVE));
    let b = b.update(OFF_SIMAPI as int, SIM_ASSETTO_CORSA);
    write_at(b, OFF_SIMEXE as int, u64_bytes(SIMEXE_ACR))
}

/// Writes the engine part of a packet, its rpms already rounded to whole
/// numbers; the pedals and brake temperatures are floating point and are the
/// caller's.
pub fn apply_engine(sim: &mut Telemetry, rpm: u32, redline: u32, idle: u32, now_ms: u64)
    ensures
        final(sim)@ == engine_bytes(old(sim)@, rpm, redline, idle, now_ms),
{
    let maxrpm = if redline == 0 { REDLINE_FLOOR } else { redline };
    let idlerpm = if idle == 0 { IDLE_DEFAULT } else { idle };
    sim.set_mtick(now_ms);
    sim.set_rpms(rpm);
    sim.set_maxrpm(maxrpm);
    sim.set_idlerpm(idlerpm);
    sim.set_simon(true);
    sim.set_simstatus(STATUS_ACTIVE);
    sim.set_simapi(SIM_ASSETTO_CORSA);
    sim.set_simexe(SIMEXE_ACR);
}

} // verus!
