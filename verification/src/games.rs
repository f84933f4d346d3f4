//! Game-path decisions that stay in the host: UDP ports, stale simd, the ACR
//! bridge, the play loop's next step, and the host's log messages.
use vstd::prelude::*;
use crate::acr;
use crate::usb;
use crate::scheduler::{clamp_fps, spec_clamp_fps};
use crate::paths::{join, join_spec};
use crate::text::{dec, dec_int, hex2, push_hex2, push_i64, push_str, push_u64, string_of};
use vstd::string::StrSliceExecFns;

verus! {

pub const DAEMON_PROBE_US: u64 = 50_000;
pub const DR2_GAME_PORT: u16 = 20779;
pub const DR2_BIND_PORT: u16 = 20777;
pub const STATE_SEARCHING: &'static str = "searching";
pub const STATE_MAPPING: &'static str = "mapping";
pub const STATE_EXITING: &'static str = "exiting";
pub const MAP_API_SIMD: i32 = 0;
pub const STATUS_MENU: i32 = 1;
pub const STATUS_ACTIVE_PLAY: i32 = 2;
pub const CHECK_INTERVAL_MS: u64 = 1000;
pub const SIM_NOT_DETECTED: &'static str = "None Detected";
pub const QUIT_KEY: u8 = 0x71;
pub const MSG_USER_STOP: &'static str = "User requested stop, releasing devices";
pub const MSG_STOPPED_MAPPING: &'static str = "stopped mapping data, press q again to quit";
pub const MSG_SEARCHING: &'static str = "Searching for sim data... Press q to quit...";
pub const MSG_EXITING: &'static str = "Cargopit is exiting...";
pub const MSG_RELEASE_LOOP: &'static str = "release loop";
pub const MSG_RELEASING_DEVICES: &'static str = "releasing devices, please wait";
pub const MSG_RESTART_CHECK: &'static str = "restarting checking for data...";
pub const MSG_RELOAD: &'static str = "reload requested, releasing devices to load the saved profile";
pub const MSG_APPLYING_SETTINGS: &'static str = "applying settings";
pub const MSG_SETTINGS_APPLIED: &'static str = "settings applied";
pub const MSG_CHECKING_DIAMETERS: &'static str = "checking for diameters config";
pub const MSG_OPENED_CONFIG: &'static str = "Opened and validated cargopit configuration file";
pub const MSG_GAMELOOP_MODE: &'static str = "running cargopit in gameloop mode..";
pub const MSG_TEST_MODE_BANNER: &'static str = "running cargopit in test mode...";
pub const MSG_TEST_INDEX: &'static str = "Could not resolve config index for test";
pub const ERROR_NONE: i32 = 0;
pub const ERROR_UNKNOWN: i32 = 1;
pub const USB_INIT_LUA_FAILED: i32 = -1;
pub const USB_INIT_CSL_PERMISSION: i32 = 2;
pub const ERROR_INVALID_DEV: i32 = 3;
pub const ERROR_SIMD_REQUIRED: i32 = 7;
pub const CONFIG_CHECK_START: i32 = 0;
pub const CONFIG_IO_FILE: &'static str = "(null)";
pub const CONFIG_IO_LINE: i32 = 0;
pub const CONFIG_IO_TEXT: &'static str = "file I/O error";
pub const CONFIG_SYNTAX_TEXT: &'static str = "syntax error";
pub const MSG_PULSE_CONNECTING: &'static str = "connecting pulseaudio...";
pub const MSG_PULSE_CONNECTED: &'static str = "successfully connected pulseaudio...";
pub const MSG_PULSE_CONNECT_FAILED: &'static str = "pulseaudio connect failed";
pub const MSG_PULSE_CONTEXT_FREED: &'static str = "freed pulseaudio context";
pub const MSG_PARSING_CONFIG: &'static str = "Parsing config file";
pub const MSG_SKIP_AUDIO: &'static str = "skipping configured sound device due to disable_audio being specified...";
pub const SIMULATOR_API_NONE: i32 = 0;
pub const SIMULATOR_API_ASSETTO_CORSA: i32 = 1;
pub const MAPPING_START_MS: u64 = 2000;
pub const MIN_MAP_INTERVAL_MS: u64 = 1;
pub const UDP_BIND_ADDRESS: &'static str = "0.0.0.0";
pub const UDP_RECV_BYTES: usize = 65536;
pub const MSG_INIT_USB: &'static str = "initializing usb device...";
pub const MSG_INIT_WHEEL: &'static str = "initializing wheel or pedals device...";
pub const MSG_G29_ATTEMPT: &'static str = "Attempting to initialize Logitech G29";
pub const MSG_G29_INIT: &'static str = "initializing Logitech G29 wheel...";
pub const MSG_G29_FOUND: &'static str = "Found Logitech G29 Wheel...";
pub const MSG_G29_MISSING: &'static str = "Could not find attached Logitech G29 Wheel";
pub const MSG_C5_ATTEMPT: &'static str = "Attempting to initialize cammus C5";
pub const MSG_C5_INIT: &'static str = "initializing cammus c5 wheel...";
pub const MSG_C5_FOUND: &'static str = "Found Cammus C5 Wheel...";
pub const MSG_C5_MISSING: &'static str = "Could not find attached Cammus C5 Wheel";
pub const MSG_C12_ATTEMPT: &'static str = "Attempting to initialize cammus C12";
pub const MSG_C12_INIT: &'static str = "initializing cammus c12 wheel...";
pub const MSG_C12_FOUND: &'static str = "Found Cammus C12 Wheel...";
pub const MSG_C12_MISSING: &'static str = "Could not find attached Cammus C12 Wheel";
pub const MSG_C12_LUA: &'static str = "Using lua file for cammus c12 device";
pub const MSG_C12_LUA_ISSUE: &'static str = "There is an issue with your lua script";
pub const MSG_C12_LUA_CLOSE: &'static str = "closing lua";
pub const MSG_GT_ATTEMPT: &'static str = "Attempting to initialize Simagic GT Neo";
pub const MSG_GT_INIT: &'static str = "initializing Simagic GT Neo wheel...";
pub const MSG_GT_FOUND: &'static str = "Found Simagic GT Neo Wheel...";
pub const MSG_GT_MISSING: &'static str = "Could not find attached GT Neo Wheel";
pub const MSG_GT_LUA: &'static str = "Using lua file";
pub const MSG_GT_NEEDS_CONFIG: &'static str = "Simagic GT Neo requires lua config file to function";
pub const MSG_GT_FEATURE_FAILED: &'static str = "Failed to send HID feature report";
pub const MSG_GT_FEATURE_CHUNK_FAILED: &'static str = "Failed to send HID feature report chunk";
pub const MSG_USB_NO_HAPTICS: &'static str = "This sim does not support haptic effects";
pub const MSG_CSL_ATTEMPT: &'static str = "Attempting to initialize CSL Elite V3 Pedals";
pub const MSG_CSL_INIT: &'static str = "initializing CSL Elite V3 Pedals...";
pub const MSG_CSL_FOUND: &'static str = "CSL Elite V3 Pedals Successfully initialized...";
pub const MSG_CSL_MISSING: &'static str = "Could not find attached Club Sport Elite V3 Pedals";
pub const MSG_CSL_PERMISSION: &'static str = "Permissions issue finding Club Sport Elite V3 Pedals";
pub const MSG_CSL_OPEN: &'static str = "Could not open pedal device...";
pub const P1000_DEVICE_NAME: &'static str = "SIMAGIC P1000 Pedals";
pub const MSG_INIT_TACH: &'static str = "initializing tachometer device...";
pub const MSG_INIT_REVBURNER: &'static str = "initializing revburner tachometer...";
pub const MSG_REVBURNER_MISSING: &'static str = "Could not find attached RevBurner tachometer";
pub const DEVICE_NAME_MISSING: &'static str = "(null)";
pub const MSG_SIMNET_INIT: &'static str = "initializing simnet pedals...";
pub const MSG_SIMNET_MISSING: &'static str = "Could not find attached Simnet Pedals";
pub const SIMNET_CAPTURED_HANDLE: i32 = 0;
pub const MSG_TACH_CONFIG_NONE: &'static str = "config set to none";
pub const MSG_TACH_CONFIG_REQUIRED: &'static str = "Tachometer must have a device specific config file!";
pub const MSG_TACH_XML_INVALID: &'static str = "Invalid rev burner xml";
pub const MSG_TACH_XML_EMPTY: &'static str = "Rev burner XML contains no settings";
pub const MSG_TACH_GRANULARITY_INVALID: &'static str = "No or invalid valid set for tachometer granularity, setting to 1";
pub const MSG_TACH_GETTING_PULSES: &'static str = "Getting pulses for current tachometer revs";
pub const MSG_REVBURNER_NO_HANDLE: &'static str = "no handle";
pub const SERIAL_OPEN_ERROR: i32 = -1;
pub const UNSUPPORTED_SIM_FEATURE: i32 = 6;
pub const MSG_SHIFTLIGHTS_INIT: &'static str = "Initializing arduino device for shiftlights.";
pub const MSG_SERIAL_HAPTIC_INIT: &'static str = "Initializing arduino device for haptic effects.";
pub const MSG_SIMLED_INIT: &'static str = "Initializing arduino device for simled.";
pub const MSG_SIMLED_CUSTOM_INIT: &'static str = "Initializing arduino device for custom simled.";
pub const MSG_ARDUINO_CUSTOM_INIT: &'static str = "Initializing custom arduino device.";
pub const MSG_SIMLED_COUNT_ATTEMPT: &'static str = "Attempting to retrieve num lights from port...";
pub const MSG_SIMLED_COUNT_SEND: &'static str = "Sending message to get num lights";
pub const MSG_SIMLED_LUA_INIT: &'static str = "LUA config specified for this device... initializing...";
pub const MSG_SIMLED_LUA_OK: &'static str = "LUA config setup successful.";
pub const MSG_SERIAL_HAPTIC_UPDATING: &'static str = "arduino haptic device updating";
pub const MSG_SERIAL_HAPTIC_ZERO: &'static str = "set zero to arduino device";
pub const MSG_MOZA_NEW_INIT: &'static str = "Initializing new firmware Moza serial wheel device.";
pub const MSG_SERIAL_START: &'static str = "Starting serial device initialization";
pub const MSG_SERIAL_NO_EXISTING: &'static str = "no existing connections found, looking to create new";
pub const MSG_SERIAL_OPENING: &'static str = "opening physical serial device...";
pub const MSG_SERIAL_OPEN_ERROR: &'static str = "Error opening serial port";
pub const MSG_SERIAL_PORT_OPENED: &'static str = "Opening port";
pub const MSG_SERIAL_SETUP_OK: &'static str = "Successfully setup cargopit serial device...";
pub const MSG_MOZA_ARM_FAILED: &'static str = "Moza R9 telemetry arm failed";
pub const MSG_MOZA_ARMED: &'static str = "Moza R9 telemetry mode armed";
pub const MSG_MOZA_RPM_FAILED: &'static str = "Moza R9 RPM bitmask write failed";
pub const MSG_SHARE_HANDLE: &'static str = "could not get native serial handle to share port";
pub const MSG_SHARE_EXCLUSIVE: &'static str = "TIOCNXCL failed; Boxflat may still contend for the wheel";
pub const MSG_SHARE_HUPCL: &'static str = "could not clear HUPCL on Moza serial";
pub const VIBRATION_ENGINE: &'static str = "engine vibrations.";
pub const VIBRATION_GEAR: &'static str = "gear shift vibrations.";
pub const VIBRATION_SLIP: &'static str = "tyre slip vibrations.";
pub const VIBRATION_LOCK: &'static str = "tyre lock vibrations.";
pub const VIBRATION_ABS: &'static str = "abs vibrations.";
pub const VIBRATION_SUSPENSION: &'static str = "suspension vibrations.";
pub const MSG_SOUND_SKIP_HAPTICS: &'static str = "Skipping sound effect setup because sim does not support haptic effects";
pub const MSG_SOUND_STANDALONE: &'static str = "initializing standalone sound device...";
pub const SOUND_DEFAULT_SINK: &'static str = "the default sink";

/// Where live telemetry is read from.
#[derive(Clone, Copy, Debug, PartialEq, Eq, Structural)]
pub enum TelemetrySource {
    Shm,
    Udp,
    Auto,
}

/// What becomes of a UDP packet.
#[derive(Clone, Copy, Debug, PartialEq, Eq, Structural)]
pub enum PacketRoute {
    Ignore,
    Acr,
    Datamap,
}

/// Empty packets are dropped, `ACRM` packets go to the bridge, the rest to simapi.
pub fn route_udp(packet: &[u8]) -> (r: PacketRoute)
    ensures
        r == (if packet@.len() == 0 {
            PacketRoute::Ignore
        } else if acr::spec_packet_ok(packet@) {
            PacketRoute::Acr
        } else {
            PacketRoute::Datamap
        }),
{
    if packet.len() == 0 {
        return PacketRoute::Ignore;
    }
    if acr::packet_ok(packet) {
        return PacketRoute::Acr;
    }
    PacketRoute::Datamap
}

/// DiRT Rally 2 sends to 20779 but the native host listens on 20777.
pub fn bind_port(requested: u16) -> (r: u16)
    ensures
        r == (if requested == DR2_GAME_PORT { DR2_BIND_PORT } else { requested }),
{
    if requested == DR2_GAME_PORT {
        return DR2_BIND_PORT;
    }
    requested
}

/// The daemon has not moved its tick between two samples.
pub fn daemon_is_stale(before_mtick: u64, after_mtick: u64) -> (r: bool)
    ensures
        r == (before_mtick == after_mtick),
{
    before_mtick == after_mtick
}

/// What the play loop saw of the sim in one sample.
#[derive(Clone, Copy, Debug, PartialEq, Eq, Structural)]
pub struct SeenSim {
    pub is_sim_on: bool,
    pub sim_status: i32,
    pub map_api: i32,
    pub simulator_api: i32,
    pub uses_udp: bool,
    pub sim_exe: u64,
}

/// Where the play loop is.
#[derive(Clone, Copy, Debug, PartialEq, Eq, Structural)]
pub enum PlayPhase {
    Searching,
    Mapping,
    Exiting,
}

/// The play loop's next step.
#[derive(Clone, Copy, Debug, PartialEq, Eq, Structural)]
pub enum PlayAction {
    Wait,
    StartMapping { use_udp: bool },
    Release,
}

/// A simd mapping whose daemon has stopped advancing needs a direct remap.
pub fn simd_map_is_stale(map_api: i32, daemon_advancing: bool) -> (r: bool)
    ensures
        r == (map_api == MAP_API_SIMD && !daemon_advancing),
{
    map_api == MAP_API_SIMD && !daemon_advancing
}

/// The sample the bridge stands in for: a running Assetto Corsa in active play over UDP.
pub fn bridged_acr(seen: SeenSim) -> (r: SeenSim)
    ensures
        r == (SeenSim {
            is_sim_on: true,
            sim_status: STATUS_ACTIVE_PLAY,
            uses_udp: true,
            simulator_api: SIMULATOR_API_ASSETTO_CORSA,
            ..seen
        }),
{
    SeenSim {
        is_sim_on: true,
        sim_status: STATUS_ACTIVE_PLAY,
        uses_udp: true,
        simulator_api: SIMULATOR_API_ASSETTO_CORSA,
        ..seen
    }
}

/// The simapi code to look a sim's name up by: none while exiting, for no sim,
/// or for a code past `u32`.
pub fn sim_name_code(sim_exe: u64, exiting: bool) -> (r: Option<u32>)
    ensures
        r == (if exiting || sim_exe == 0 || sim_exe > u32::MAX { None } else { Some(sim_exe as u32) }),
{
    if exiting || sim_exe == 0 || sim_exe > u32::MAX as u64 {
        return None;
    }
    Some(sim_exe as u32)
}

/// The name to show for the sim, given the name simapi has for its code
/// (`native_name`): that name when there is one to look up and it is not
/// empty, else "None Detected".
pub fn sim_display_name(sim_exe: u64, exiting: bool, native_name: Option<&str>) -> (s: String)
    ensures
        s@ == (match (if exiting || sim_exe == 0 || sim_exe > u32::MAX { None } else { native_name }) {
            Some(n) => if n@.len() > 0 { n@ } else { SIM_NOT_DETECTED@ },
            None => SIM_NOT_DETECTED@,
        }),
{
    match sim_name_code(sim_exe, exiting) {
        None => string_of(SIM_NOT_DETECTED),
        Some(_) => match native_name {
            Some(n) => {
                if n.unicode_len() > 0 {
                    string_of(n)
                } else {
                    string_of(SIM_NOT_DETECTED)
                }
            },
            None => string_of(SIM_NOT_DETECTED),
        },
    }
}

/// Searching: start mapping once the sim is on and in active play, over UDP
/// when forced or when the sim uses it; wait otherwise or after a user stop.
pub fn search_tick(seen: SeenSim, force_udp: bool, user_stopped: bool) -> (r: PlayAction)
    ensures
        r == (if user_stopped || !seen.is_sim_on || seen.sim_status < STATUS_ACTIVE_PLAY {
            PlayAction::Wait
        } else {
            PlayAction::StartMapping { use_udp: force_udp || seen.uses_udp }
        }),
{
    if user_stopped || !seen.is_sim_on || seen.sim_status < STATUS_ACTIVE_PLAY {
        return PlayAction::Wait;
    }
    PlayAction::StartMapping { use_udp: force_udp || seen.uses_udp }
}

/// `1000 / fps` rounded to the nearest millisecond, at the clamped rate.
pub open spec fn spec_map_interval_ms(fps: i32) -> u64 {
    let f = spec_clamp_fps(fps) as int;
    ((2000 + f) / (2 * f)) as u64
}

/// The mapping period: `1000 / fps` milliseconds rounded half up, at a rate
/// held to `1..=1000`, and never zero.
pub fn map_interval_ms(fps: i32) -> (r: u64)
    ensures
        r == spec_map_interval_ms(fps),
        1 <= r <= 1000,
{
    let f = clamp_fps(fps) as u64;
    let interval = (2000 + f) / (2 * f);
    assert(1 <= interval <= 1000) by (nonlinear_arith)
        requires
            1 <= f <= 1000,
            interval == (2000 + f) / (2 * f),
    ;
    if interval == 0 {
        return MIN_MAP_INTERVAL_MS;
    }
    interval
}

/// What a key press or a signal asks of the play loop.
#[derive(Clone, Copy, Debug, PartialEq, Eq, Structural)]
pub enum QuitAction {
    Continue,
    Release,
    Exit,
}

/// Why no device profile can be loaded.
#[derive(Clone, Copy, Debug, PartialEq, Eq, Structural)]
pub enum ProfileLoadFault {
    NoProfiles,
    IndexOutOfRange { configs: i32 },
}

/// A signal exits; `q` releases while mapping and exits while searching; other keys continue.
pub fn quit_action(key: Option<u8>, signalled: bool, mapping: bool) -> (r: QuitAction)
    ensures
        r == (if signalled {
            QuitAction::Exit
        } else if key != Some(QUIT_KEY) {
            QuitAction::Continue
        } else if mapping {
            QuitAction::Release
        } else {
            QuitAction::Exit
        }),
{
    if signalled {
        return QuitAction::Exit;
    }
    let is_quit = match key {
        Some(k) => k == QUIT_KEY,
        None => false,
    };
    if !is_quit {
        return QuitAction::Continue;
    }
    if mapping {
        return QuitAction::Release;
    }
    QuitAction::Exit
}

/// Why the requested profile cannot be loaded, if it cannot.
pub fn profile_load_fault(profile_count: i32, requested: i32) -> (r: Option<ProfileLoadFault>)
    ensures
        r == (if profile_count <= 0 {
            Some(ProfileLoadFault::NoProfiles)
        } else if requested < 0 {
            None
        } else if requested >= profile_count {
            Some(ProfileLoadFault::IndexOutOfRange { configs: profile_count })
        } else {
            None
        }),
{
    if profile_count <= 0 {
        return Some(ProfileLoadFault::NoProfiles);
    }
    if requested < 0 {
        return None;
    }
    if requested >= profile_count {
        return Some(ProfileLoadFault::IndexOutOfRange { configs: profile_count });
    }
    None
}

/// Mapping stops when the sim is off or back in a menu.
pub fn mapping_should_stop(seen: SeenSim) -> (r: bool)
    ensures
        r == (!seen.is_sim_on || seen.sim_status <= STATUS_MENU),
{
    !seen.is_sim_on || seen.sim_status <= STATUS_MENU
}

/// While mapping, only a simd session whose sim went off is released.
pub fn mapping_tick(seen: SeenSim) -> (r: PlayAction)
    ensures
        r == (if seen.map_api == MAP_API_SIMD && !seen.is_sim_on { PlayAction::Release } else { PlayAction::Wait }),
{
    if seen.map_api != MAP_API_SIMD {
        return PlayAction::Wait;
    }
    if !seen.is_sim_on {
        return PlayAction::Release;
    }
    PlayAction::Wait
}

/// The last published telemetry frame and how many frames were published.
#[derive(Clone, Debug)]
pub struct FrameSnapshot {
    frame: Vec<u8>,
    sequence: u64,
}

impl FrameSnapshot {
    pub closed spec fn spec_frame(&self) -> Seq<u8> {
        self.frame@
    }

    pub closed spec fn spec_sequence(&self) -> u64 {
        self.sequence
    }

    /// No frame yet, sequence zero.
    pub fn new() -> (s: Self)
        ensures
            s.spec_frame() == Seq::<u8>::empty(),
            s.spec_sequence() == 0,
    {
        FrameSnapshot { frame: Vec::new(), sequence: 0 }
    }

    /// Replaces the frame with a copy of `frame` and bumps the sequence, wrapping.
    pub fn publish(&mut self, frame: &[u8])
        ensures
            final(self).spec_frame() == frame@,
            final(self).spec_sequence() == (if old(self).spec_sequence() == u64::MAX { 0 } else { (old(self).spec_sequence() + 1) as u64 }),
    {
        let mut copy: Vec<u8> = Vec::new();
        let mut i: usize = 0;
        while i < frame.len()
            invariant
                i <= frame@.len(),
                copy@ == frame@.subrange(0, i as int),
            decreases frame@.len() - i,
        {
            copy.push(frame[i]);
            i += 1;
            assert(copy@ =~= frame@.subrange(0, i as int));
        }
        assert(frame@.subrange(0, frame@.len() as int) =~= frame@);
        self.frame = copy;
        self.sequence = if self.sequence == u64::MAX { 0 } else { self.sequence + 1 };
    }

    pub fn sequence(&self) -> (r: u64)
        ensures
            r == self.spec_sequence(),
    {
        self.sequence
    }

    pub fn frame(&self) -> (r: &[u8])
        ensures
            r@ == self.spec_frame(),
    {
        self.frame.as_slice()
    }
}

impl Default for FrameSnapshot {
    fn default() -> (s: Self)
        ensures
            s.spec_frame() == Seq::<u8>::empty(),
            s.spec_sequence() == 0,
    {
        Self::new()
    }
}

/// Assetto Corsa Rally takes the UDP bridge when UDP is forced, or on `Auto`
/// when its physics memory is blank; never on `Shm`, never for another sim.
pub fn use_acr_bridge(simexe: u64, source: TelemetrySource, physics: Option<&[u8]>) -> (r: bool)
    ensures
        r == (simexe == acr::SIMEXE_ACR && source != TelemetrySource::Shm
            && (source == TelemetrySource::Udp || acr::spec_physics_shm_is_blank(acr::opt_bytes(physics)))),
{
    if simexe != acr::SIMEXE_ACR {
        return false;
    }
    match source {
        TelemetrySource::Shm => false,
        TelemetrySource::Udp => true,
        TelemetrySource::Auto => acr::physics_shm_is_blank(physics),
    }
}

/// Byte `i` of a report, or zero past its end.
pub open spec fn byte_or_zero(report: Seq<u8>, i: int) -> u8 {
    if 0 <= i < report.len() { report[i] } else { 0 }
}

fn report_byte(report: &[u8], i: usize) -> (r: u8)
    ensures
        r == byte_or_zero(report@, i as int),
{
    if i < report.len() { report[i] } else { 0 }
}

/// Appends `x` and the two hexadecimal digits of each byte, as `x%02x` does.
fn push_x_bytes(s: &mut String, report: &[u8], indices: &[usize])
    ensures
        final(s)@ == old(s)@ + x_bytes(report@, indices@),
{
    let ghost start = s@;
    let mut k: usize = 0;
    while k < indices.len()
        invariant
            k <= indices@.len(),
            s@ == start + x_bytes(report@, indices@.subrange(0, k as int)),
        decreases indices@.len() - k,
    {
        push_str(s, "x");
        push_hex2(s, report_byte(report, indices[k]));
        proof {
            let next = indices@.subrange(0, k as int + 1);
            assert(next.drop_last() =~= indices@.subrange(0, k as int));
        }
        k += 1;
    }
    assert(indices@.subrange(0, indices@.len() as int) =~= indices@);
}

/// `x` and two hexadecimal digits for the report byte at each index.
pub open spec fn x_bytes(report: Seq<u8>, indices: Seq<usize>) -> Seq<char>
    decreases indices.len(),
{
    if indices.len() == 0 {
        Seq::empty()
    } else {
        x_bytes(report, indices.drop_last()) + "x"@ + hex2(byte_or_zero(report, indices.last() as int))
    }
}

pub fn signal_stop_message(signum: i32) -> (s: String)
    ensures
        s@ == "signal "@ + dec_int(signum as int) + " received, stopping"@,
{
    let mut s = string_of("signal ");
    push_i64(&mut s, signum as i64);
    push_str(&mut s, " received, stopping");
    s
}

pub fn loading_profile_message(path: &str, config_index: i32) -> (s: String)
    ensures
        s@ == "loading device profile from "@ + path@ + " (config-index "@ + dec_int(config_index as int) + ")"@,
{
    let mut s = string_of("loading device profile from ");
    push_str(&mut s, path);
    push_str(&mut s, " (config-index ");
    push_i64(&mut s, config_index as i64);
    push_str(&mut s, ")");
    s
}

pub fn no_profiles_message(path: &str) -> (s: String)
    ensures
        s@ == "no device profiles in "@ + path@,
{
    let mut s = string_of("no device profiles in ");
    push_str(&mut s, path);
    s
}

pub fn config_index_range_message(index: i32, configs: i32) -> (s: String)
    ensures
        s@ == "config-index "@ + dec_int(index as int) + " is out of range ("@ + dec_int(configs as int) + " configs)"@,
{
    let mut s = string_of("config-index ");
    push_i64(&mut s, index as i64);
    push_str(&mut s, " is out of range (");
    push_i64(&mut s, configs as i64);
    push_str(&mut s, " configs)");
    s
}

pub fn no_profile_message(config_index: i32) -> (s: String)
    ensures
        s@ == "no device profile to load (config-index "@ + dec_int(config_index as int) + ")"@,
{
    let mut s = string_of("no device profile to load (config-index ");
    push_i64(&mut s, config_index as i64);
    push_str(&mut s, ")");
    s
}

pub fn testing_config_message(path: &str) -> (s: String)
    ensures
        s@ == "Testing cargopit config file: "@ + path@,
{
    let mut s = string_of("Testing cargopit config file: ");
    push_str(&mut s, path);
    s
}

pub fn diameters_debug_message(path: &str, config_check: i32) -> (s: String)
    ensures
        s@ == "using diameters file "@ + path@ + " "@ + dec_int(config_check as int),
{
    let mut s = string_of("using diameters file ");
    push_str(&mut s, path);
    push_str(&mut s, " ");
    push_i64(&mut s, config_check as i64);
    s
}

pub fn config_issue_message(file: &str, line: i32, text: &str) -> (s: String)
    ensures
        s@ == "Issue with cargopit config file: "@ + file@ + ":"@ + dec_int(line as int) + " - "@ + text@,
{
    let mut s = string_of("Issue with cargopit config file: ");
    push_str(&mut s, file);
    push_str(&mut s, ":");
    push_i64(&mut s, line as i64);
    push_str(&mut s, " - ");
    push_str(&mut s, text);
    s
}

pub fn game_loop_exit_message(code: i32) -> (s: String)
    ensures
        s@ == "Game loop exited succesfully with error code: "@ + dec_int(code as int),
{
    let mut s = string_of("Game loop exited succesfully with error code: ");
    push_i64(&mut s, code as i64);
    s
}

pub fn game_loop_fail_message(code: i32) -> (s: String)
    ensures
        s@ == "Game loop exited with error code: "@ + dec_int(code as int),
{
    let mut s = string_of("Game loop exited with error code: ");
    push_i64(&mut s, code as i64);
    s
}

pub fn test_exit_message(code: i32) -> (s: String)
    ensures
        s@ == "Test exited succesfully with error code: "@ + dec_int(code as int),
{
    let mut s = string_of("Test exited succesfully with error code: ");
    push_i64(&mut s, code as i64);
    s
}

pub fn test_fail_message(code: i32) -> (s: String)
    ensures
        s@ == "Test exited with error code: "@ + dec_int(code as int),
{
    let mut s = string_of("Test exited with error code: ");
    push_i64(&mut s, code as i64);
    s
}

pub fn pulse_context_failed_message(state: i32) -> (s: String)
    ensures
        s@ == "pulseaudio context failed (state "@ + dec_int(state as int) + ")"@,
{
    let mut s = string_of("pulseaudio context failed (state ");
    push_i64(&mut s, state as i64);
    push_str(&mut s, ")");
    s
}

pub fn loading_confignum_message(confignum: i32, devices: i32) -> (s: String)
    ensures
        s@ == "loading confignum "@ + dec_int(confignum as int) + ", with "@ + dec_int(devices as int) + " devices."@,
{
    let mut s = string_of("loading confignum ");
    push_i64(&mut s, confignum as i64);
    push_str(&mut s, ", with ");
    push_i64(&mut s, devices as i64);
    push_str(&mut s, " devices.");
    s
}

pub fn initializing_simdevices_message(simulator_api: i32) -> (s: String)
    ensures
        s@ == "initializing simdevices for simapi "@ + dec_int(simulator_api as int) + "..."@,
{
    let mut s = string_of("initializing simdevices for simapi ");
    push_i64(&mut s, simulator_api as i64);
    push_str(&mut s, "...");
    s
}

pub fn skipping_disabled_message(index: i32) -> (s: String)
    ensures
        s@ == "skipping disabled device at index "@ + dec_int(index as int),
{
    let mut s = string_of("skipping disabled device at index ");
    push_i64(&mut s, index as i64);
    s
}

pub fn lua_load_failed_message(detail: &str) -> (s: String)
    ensures
        s@ == "Couldn't load file: "@ + detail@,
{
    let mut s = string_of("Couldn't load file: ");
    push_str(&mut s, detail);
    s
}

pub fn lua_call_failed_message(detail: &str) -> (s: String)
    ensures
        s@ == "Error calling Lua script: "@ + detail@,
{
    let mut s = string_of("Error calling Lua script: ");
    push_str(&mut s, detail);
    s
}

pub fn p1000_init_message() -> (s: String)
    ensures
        s@ == "initializing "@ + P1000_DEVICE_NAME@ + "..."@,
{
    let mut s = string_of("initializing ");
    push_str(&mut s, P1000_DEVICE_NAME);
    push_str(&mut s, "...");
    s
}

pub fn p1000_missing_message() -> (s: String)
    ensures
        s@ == "Could not find attached "@ + P1000_DEVICE_NAME@,
{
    let mut s = string_of("Could not find attached ");
    push_str(&mut s, P1000_DEVICE_NAME);
    s
}

pub fn p1000_found_message() -> (s: String)
    ensures
        s@ == "Found "@ + P1000_DEVICE_NAME@ + "..."@,
{
    let mut s = string_of("Found ");
    push_str(&mut s, P1000_DEVICE_NAME);
    push_str(&mut s, "...");
    s
}

pub fn p1000_problem_message() -> (s: String)
    ensures
        s@ == "Problem with initialization of "@ + P1000_DEVICE_NAME@,
{
    let mut s = string_of("Problem with initialization of ");
    push_str(&mut s, P1000_DEVICE_NAME);
    s
}

pub fn p1000_sent_message(nbytes: i32) -> (s: String)
    ensures
        s@ == "sent "@ + dec_int(nbytes as int) + " bytes to "@ + P1000_DEVICE_NAME@,
{
    let mut s = string_of("sent ");
    push_i64(&mut s, nbytes as i64);
    push_str(&mut s, " bytes to ");
    push_str(&mut s, P1000_DEVICE_NAME);
    s
}

pub fn p1000_init_result_message(code: i32) -> (s: String)
    ensures
        s@ == "Initialization returned "@ + dec_int(code as int),
{
    let mut s = string_of("Initialization returned ");
    push_i64(&mut s, code as i64);
    s
}

pub fn simnet_found_message(handle: i32) -> (s: String)
    ensures
        s@ == "Found Simnet Pedals handle "@ + dec_int(handle as int) + "..."@,
{
    let mut s = string_of("Found Simnet Pedals handle ");
    push_i64(&mut s, handle as i64);
    push_str(&mut s, "...");
    s
}

/// How many bytes of a Simnet report the log shows.
pub const SIMNET_TRACE_LEN: usize = 9;

/// `x` and the two hexadecimal digits of each of the first `n` bytes, zero
/// past the end of the report.
pub open spec fn simnet_trace(report: Seq<u8>, n: nat) -> Seq<char>
    decreases n,
{
    if n == 0 {
        Seq::empty()
    } else {
        let i = n - 1;
        simnet_trace(report, i as nat) + "x"@ + hex2(if i < report.len() { report[i as int] } else { 0u8 })
    }
}

/// The log line of a Simnet write: its first nine bytes in hexadecimal.
pub fn simnet_write_message(report: &[u8]) -> (s: String)
    ensures
        s@ == "writing bytes "@ + simnet_trace(report@, SIMNET_TRACE_LEN as nat),
{
    let mut s = string_of("writing bytes ");
    let mut i: usize = 0;
    while i < SIMNET_TRACE_LEN
        invariant
            i <= SIMNET_TRACE_LEN,
            s@ == "writing bytes "@ + simnet_trace(report@, i as nat),
        decreases SIMNET_TRACE_LEN - i,
    {
        let byte = if i < report.len() { report[i] } else { 0 };
        push_str(&mut s, "x");
        push_hex2(&mut s, byte);
        i += 1;
        assert(s@ =~= "writing bytes "@ + simnet_trace(report@, i as nat));
    }
    s
}

pub fn usb_init_error_message(code: i32) -> (s: String)
    ensures
        s@ == "Did not initialize usb device due to error code "@ + dec_int(code as int),
{
    let mut s = string_of("Did not initialize usb device due to error code ");
    push_i64(&mut s, code as i64);
    s
}

pub fn could_not_initialize_message(class_name: &str) -> (s: String)
    ensures
        s@ == "Could not initialize "@ + class_name@ + " device"@,
{
    let mut s = string_of("Could not initialize ");
    push_str(&mut s, class_name);
    push_str(&mut s, " device");
    s
}

pub fn initialized_devices_message(count: i32) -> (s: String)
    ensures
        s@ == "initialized "@ + dec_int(count as int) + " devices"@,
{
    let mut s = string_of("initialized ");
    push_i64(&mut s, count as i64);
    push_str(&mut s, " devices");
    s
}

pub fn serial_init_error_message(code: i32) -> (s: String)
    ensures
        s@ == "Did not initialize serial device due to error code "@ + dec_int(code as int),
{
    let mut s = string_of("Did not initialize serial device due to error code ");
    push_i64(&mut s, code as i64);
    s
}

pub fn serial_subtype_message(subtype: i32) -> (s: String)
    ensures
        s@ == "Attempting to configure arduino device with subtype: "@ + dec_int(subtype as int),
{
    let mut s = string_of("Attempting to configure arduino device with subtype: ");
    push_i64(&mut s, subtype as i64);
    s
}

pub fn serial_init_port_message(path: &str, baud: i64) -> (s: String)
    ensures
        s@ == "initializing serial device on port "@ + path@ + " to "@ + dec_int(baud as int) + "..."@,
{
    let mut s = string_of("initializing serial device on port ");
    push_str(&mut s, path);
    push_str(&mut s, " to ");
    push_i64(&mut s, baud as i64);
    push_str(&mut s, "...");
    s
}

pub fn serial_looking_message(path: &str) -> (s: String)
    ensures
        s@ == "looking to open physical serialdevice "@ + path@,
{
    let mut s = string_of("looking to open physical serialdevice ");
    push_str(&mut s, path);
    s
}

pub fn serial_looking_for_port_message(path: &str) -> (s: String)
    ensures
        s@ == "Looking for port "@ + path@,
{
    let mut s = string_of("Looking for port ");
    push_str(&mut s, path);
    s
}

pub fn serial_baud_message(baud: u32) -> (s: String)
    ensures
        s@ == "Setting port to "@ + dec(baud as nat) + " 8N1, no flow control"@,
{
    let mut s = string_of("Setting port to ");
    push_u64(&mut s, baud as u64);
    push_str(&mut s, " 8N1, no flow control");
    s
}

pub fn moza_opened_message(path: &str) -> (s: String)
    ensures
        s@ == "Moza R9 wheel opened on "@ + path@,
{
    let mut s = string_of("Moza R9 wheel opened on ");
    push_str(&mut s, path);
    s
}

pub fn moza_arm_retry_message(path: &str) -> (s: String)
    ensures
        s@ == "Moza R9 opened on "@ + path@ + " but telemetry arm will retry"@,
{
    let mut s = string_of("Moza R9 opened on ");
    push_str(&mut s, path);
    push_str(&mut s, " but telemetry arm will retry");
    s
}

pub fn haptic_effect_message(phrase: &str) -> (s: String)
    ensures
        s@ == "Initializing haptic effect for "@ + phrase@,
{
    let mut s = string_of("Initializing haptic effect for ");
    push_str(&mut s, phrase);
    s
}

pub fn unknown_haptic_message(effect: i32) -> (s: String)
    ensures
        s@ == "Initializing unknown haptic effect type "@ + dec_int(effect as int) + "."@,
{
    let mut s = string_of("Initializing unknown haptic effect type ");
    push_i64(&mut s, effect as i64);
    push_str(&mut s, ".");
    s
}

pub fn haptic_summary_message(effect: i32, tyre: i32) -> (s: String)
    ensures
        s@ == "Haptic effect: "@ + dec_int(effect as int) + " "@ + dec_int(effect as int) + ", tyre "@ + dec_int(tyre as int) + " "@ + dec_int(tyre as int),
{
    let mut s = string_of("Haptic effect: ");
    push_i64(&mut s, effect as i64);
    push_str(&mut s, " ");
    push_i64(&mut s, effect as i64);
    push_str(&mut s, ", tyre ");
    push_i64(&mut s, tyre as i64);
    push_str(&mut s, " ");
    push_i64(&mut s, tyre as i64);
    s
}

pub fn haptic_frequency_message(frequency: i64) -> (s: String)
    ensures
        s@ == "haptic base frequency: "@ + dec_int(frequency as int),
{
    let mut s = string_of("haptic base frequency: ");
    push_i64(&mut s, frequency as i64);
    s
}

pub fn haptic_amplitude_message(amplitude: i64) -> (s: String)
    ensures
        s@ == "haptic base amplitude: "@ + dec_int(amplitude as int),
{
    let mut s = string_of("haptic base amplitude: ");
    push_i64(&mut s, amplitude as i64);
    s
}

pub fn haptic_motor_message(motor: i64) -> (s: String)
    ensures
        s@ == "haptic motorposition: "@ + dec_int(motor as int),
{
    let mut s = string_of("haptic motorposition: ");
    push_i64(&mut s, motor as i64);
    s
}

pub fn sound_subtype_message(effect: i32) -> (s: String)
    ensures
        s@ == "Attempting to configure sound device with subtype: "@ + dec_int(effect as int),
{
    let mut s = string_of("Attempting to configure sound device with subtype: ");
    push_i64(&mut s, effect as i64);
    s
}

pub fn sound_effect_message(phrase: &str) -> (s: String)
    ensures
        s@ == "Initializing sound device for "@ + phrase@,
{
    let mut s = string_of("Initializing sound device for ");
    push_str(&mut s, phrase);
    s
}

pub fn sound_use_message(path: &str) -> (s: String)
    ensures
        s@ == "Attempting to use sound device "@ + path@,
{
    let mut s = string_of("Attempting to use sound device ");
    push_str(&mut s, path);
    s
}

pub fn sound_volume_message(volume: i64) -> (s: String)
    ensures
        s@ == "pipewire stream volume is: "@ + dec_int(volume as int),
{
    let mut s = string_of("pipewire stream volume is: ");
    push_i64(&mut s, volume as i64);
    s
}

pub fn sound_channel_mask_message(mask: u32) -> (s: String)
    ensures
        s@ == "channel mask is: "@ + dec(mask as nat),
{
    let mut s = string_of("channel mask is: ");
    push_u64(&mut s, mask as u64);
    s
}

pub fn sound_channels_message(channels: i64) -> (s: String)
    ensures
        s@ == "channels is: "@ + dec_int(channels as int),
{
    let mut s = string_of("channels is: ");
    push_i64(&mut s, channels as i64);
    s
}

pub fn sound_noise_message(noise: i64) -> (s: String)
    ensures
        s@ == "noise is: "@ + dec_int(noise as int),
{
    let mut s = string_of("noise is: ");
    push_i64(&mut s, noise as i64);
    s
}

pub fn sound_node_message(name: &str) -> (s: String)
    ensures
        s@ == "sound stream node name is: "@ + name@,
{
    let mut s = string_of("sound stream node name is: ");
    push_str(&mut s, name);
    s
}

pub fn sound_describe_error(effect: i32) -> (s: String)
    ensures
        s@ == "could not describe sound stream for effect "@ + dec_int(effect as int),
{
    let mut s = string_of("could not describe sound stream for effect ");
    push_i64(&mut s, effect as i64);
    s
}

pub fn serial_free_message(path: &str) -> (s: String)
    ensures
        s@ == "freeing physical device "@ + path@,
{
    let mut s = string_of("freeing physical device ");
    push_str(&mut s, path);
    s
}

pub fn shiftlights_lit_message(lit: i32) -> (s: String)
    ensures
        s@ == "Updating arduino device lights to "@ + dec_int(lit as int),
{
    let mut s = string_of("Updating arduino device lights to ");
    push_i64(&mut s, lit as i64);
    s
}

pub fn simled_count_message(count: i32) -> (s: String)
    ensures
        s@ == "numlights is "@ + dec_int(count as int) + "\n"@,
{
    let mut s = string_of("numlights is ");
    push_i64(&mut s, count as i64);
    push_str(&mut s, "\n");
    s
}

pub fn simled_count_invalid_message(text: &str) -> (s: String)
    ensures
        s@ == "Invalid LED count received from serial device: "@ + text@,
{
    let mut s = string_of("Invalid LED count received from serial device: ");
    push_str(&mut s, text);
    s
}

pub fn simled_count_wait_message(code: i32) -> (s: String)
    ensures
        s@ == "Error getting bytes available from serial port: "@ + dec_int(code as int),
{
    let mut s = string_of("Error getting bytes available from serial port: ");
    push_i64(&mut s, code as i64);
    s
}

pub fn simled_custom_wrote_message(size: i32) -> (s: String)
    ensures
        s@ == "custom led wrote "@ + dec_int(size as int) + " bytes"@,
{
    let mut s = string_of("custom led wrote ");
    push_i64(&mut s, size as i64);
    push_str(&mut s, " bytes");
    s
}

pub fn arduino_custom_wrote_message(message: &str, size: i32) -> (s: String)
    ensures
        s@ == "custom arduino wrote message "@ + message@ + " of "@ + dec_int(size as int) + " bytes"@,
{
    let mut s = string_of("custom arduino wrote message ");
    push_str(&mut s, message);
    push_str(&mut s, " of ");
    push_i64(&mut s, size as i64);
    push_str(&mut s, " bytes");
    s
}

pub fn arduino_copy_message(size: i32) -> (s: String)
    ensures
        s@ == "copying "@ + dec_int(size as int) + " bytes to arduino device"@,
{
    let mut s = string_of("copying ");
    push_i64(&mut s, size as i64);
    push_str(&mut s, " bytes to arduino device");
    s
}

pub fn simwind_speed_message(mph: i32) -> (s: String)
    ensures
        s@ == "Updating arduino device speed to "@ + dec_int(mph as int),
{
    let mut s = string_of("Updating arduino device speed to ");
    push_i64(&mut s, mph as i64);
    s
}

pub fn tach_config_load_message(path: &str) -> (s: String)
    ensures
        s@ == "will try to load config file at "@ + path@,
{
    let mut s = string_of("will try to load config file at ");
    push_str(&mut s, path);
    s
}

pub fn tach_xml_read_message(path: &str) -> (s: String)
    ensures
        s@ == "Could not read revburner xml config file "@ + path@,
{
    let mut s = string_of("Could not read revburner xml config file ");
    push_str(&mut s, path);
    s
}

pub fn tach_granularity_message(granularity: i64) -> (s: String)
    ensures
        s@ == "Tachometer granularity set to "@ + dec_int(granularity as int),
{
    let mut s = string_of("Tachometer granularity set to ");
    push_i64(&mut s, granularity as i64);
    s
}

pub fn tach_settings_size_message(size: i32) -> (s: String)
    ensures
        s@ == "Tach settings size "@ + dec_int(size as int),
{
    let mut s = string_of("Tach settings size ");
    push_i64(&mut s, size as i64);
    s
}

pub fn tach_element_message(element: i32) -> (s: String)
    ensures
        s@ == "Retrieveing element "@ + dec_int(element as int),
{
    let mut s = string_of("Retrieveing element ");
    push_i64(&mut s, element as i64);
    s
}

pub fn tach_pulses_message(pulses: u32) -> (s: String)
    ensures
        s@ == "Settings tachometer pulses to "@ + dec(pulses as nat),
{
    let mut s = string_of("Settings tachometer pulses to ");
    push_u64(&mut s, pulses as u64);
    s
}

pub fn starting_device_message(device_type: i32, id: i32, fps: u32) -> (s: String)
    ensures
        s@ == "starting device type "@ + dec_int(device_type as int) + " at id "@ + dec_int(id as int) + " on its own thread at "@ + dec(fps as nat) + " fps"@,
{
    let mut s = string_of("starting device type ");
    push_i64(&mut s, device_type as i64);
    push_str(&mut s, " at id ");
    push_i64(&mut s, id as i64);
    push_str(&mut s, " on its own thread at ");
    push_u64(&mut s, fps as u64);
    push_str(&mut s, " fps");
    s
}

pub fn device_runner_message(index: i32, updates: u64, overruns: u64) -> (s: String)
    ensures
        s@ == "device "@ + dec_int(index as int) + ": "@ + dec(updates as nat) + " updates, "@ + dec(overruns as nat) + " overruns"@,
{
    let mut s = string_of("device ");
    push_i64(&mut s, index as i64);
    push_str(&mut s, ": ");
    push_u64(&mut s, updates as u64);
    push_str(&mut s, " updates, ");
    push_u64(&mut s, overruns as u64);
    push_str(&mut s, " overruns");
    s
}

/// `writing bytes` and the G29 report bytes, then the rpm.
pub fn g29_write_message(report: &[u8], rpm: i32) -> (s: String)
    ensures
        s@ == "writing bytes "@ + x_bytes(report@, seq![usb::G29_BYTE_REPORT, usb::G29_BYTE_CMD, usb::G29_BYTE_LEDS, usb::G29_BYTE_PAD, usb::G29_BYTE_TAIL])
            + " from rpm "@ + dec_int(rpm as int),
{
    let idx: [usize; 5] = [usb::G29_BYTE_REPORT, usb::G29_BYTE_CMD, usb::G29_BYTE_LEDS, usb::G29_BYTE_PAD, usb::G29_BYTE_TAIL];
    assert(idx@ =~= seq![usb::G29_BYTE_REPORT, usb::G29_BYTE_CMD, usb::G29_BYTE_LEDS, usb::G29_BYTE_PAD, usb::G29_BYTE_TAIL]);
    let mut s = string_of("writing bytes ");
    push_x_bytes(&mut s, report, &idx);
    push_str(&mut s, " from rpm ");
    push_i64(&mut s, rpm as i64);
    s
}

/// `writing bytes` and the C5 report bytes, then rpm, velocity and gear.
pub fn c5_write_message(report: &[u8], rpm: i32, velocity: i32, gear: i32) -> (s: String)
    ensures
        s@ == "writing bytes "@ + x_bytes(report@, seq![usb::C5_BYTE_REPORT, usb::C5_BYTE_LEDS, usb::C5_BYTE_VELOCITY_HIGH, usb::C5_BYTE_VELOCITY_LOW, usb::C5_BYTE_GEAR])
            + " from rpm "@ + dec_int(rpm as int) + " velocity "@ + dec_int(velocity as int) + " gear "@
            + dec_int(gear as int),
{
    let idx: [usize; 5] = [usb::C5_BYTE_REPORT, usb::C5_BYTE_LEDS, usb::C5_BYTE_VELOCITY_HIGH, usb::C5_BYTE_VELOCITY_LOW, usb::C5_BYTE_GEAR];
    assert(idx@ =~= seq![usb::C5_BYTE_REPORT, usb::C5_BYTE_LEDS, usb::C5_BYTE_VELOCITY_HIGH, usb::C5_BYTE_VELOCITY_LOW, usb::C5_BYTE_GEAR]);
    let mut s = string_of("writing bytes ");
    push_x_bytes(&mut s, report, &idx);
    push_str(&mut s, " from rpm ");
    push_i64(&mut s, rpm as i64);
    push_str(&mut s, " velocity ");
    push_i64(&mut s, velocity as i64);
    push_str(&mut s, " gear ");
    push_i64(&mut s, gear as i64);
    s
}

/// `writing bytes` and a C12 LED packet, then its red, green and blue.
pub fn c12_led_message(report: &[u8]) -> (s: String)
    ensures
        s@ == "writing bytes "@ + x_bytes(report@, seq![usb::C12_BYTE_MARK0, usb::C12_BYTE_MARK1, usb::C12_BYTE_MARK2, usb::C12_BYTE_LED, usb::C12_BYTE_RED, usb::C12_BYTE_GREEN, usb::C12_BYTE_BLUE])
            + " from red "@ + dec(byte_or_zero(report@, usb::C12_BYTE_RED as int) as nat) + " green "@
            + dec(byte_or_zero(report@, usb::C12_BYTE_GREEN as int) as nat) + " blue "@
            + dec(byte_or_zero(report@, usb::C12_BYTE_BLUE as int) as nat),
{
    let idx: [usize; 7] = [usb::C12_BYTE_MARK0, usb::C12_BYTE_MARK1, usb::C12_BYTE_MARK2, usb::C12_BYTE_LED, usb::C12_BYTE_RED, usb::C12_BYTE_GREEN, usb::C12_BYTE_BLUE];
    assert(idx@ =~= seq![usb::C12_BYTE_MARK0, usb::C12_BYTE_MARK1, usb::C12_BYTE_MARK2, usb::C12_BYTE_LED, usb::C12_BYTE_RED, usb::C12_BYTE_GREEN, usb::C12_BYTE_BLUE]);
    let mut s = string_of("writing bytes ");
    push_x_bytes(&mut s, report, &idx);
    push_str(&mut s, " from red ");
    push_u64(&mut s, report_byte(report, usb::C12_BYTE_RED) as u64);
    push_str(&mut s, " green ");
    push_u64(&mut s, report_byte(report, usb::C12_BYTE_GREEN) as u64);
    push_str(&mut s, " blue ");
    push_u64(&mut s, report_byte(report, usb::C12_BYTE_BLUE) as u64);
    s
}

/// `writing bytes` and the C12 report bytes, then rpm, velocity and gear.
pub fn c12_write_message(report: &[u8], rpm: i32, velocity: i32, gear: i32) -> (s: String)
    ensures
        s@ == "writing bytes "@ + x_bytes(report@, seq![usb::C12_BYTE_MARK0, usb::C12_BYTE_MARK1, usb::C12_BYTE_MARK2, usb::C12_BYTE_PERCENT, usb::C12_BYTE_VELOCITY_LOW, usb::C12_BYTE_VELOCITY_HIGH, usb::C12_BYTE_GEAR])
            + " from rpm "@ + dec_int(rpm as int) + " velocity "@ + dec_int(velocity as int) + " gear "@
            + dec_int(gear as int),
{
    let idx: [usize; 7] = [usb::C12_BYTE_MARK0, usb::C12_BYTE_MARK1, usb::C12_BYTE_MARK2, usb::C12_BYTE_PERCENT, usb::C12_BYTE_VELOCITY_LOW, usb::C12_BYTE_VELOCITY_HIGH, usb::C12_BYTE_GEAR];
    assert(idx@ =~= seq![usb::C12_BYTE_MARK0, usb::C12_BYTE_MARK1, usb::C12_BYTE_MARK2, usb::C12_BYTE_PERCENT, usb::C12_BYTE_VELOCITY_LOW, usb::C12_BYTE_VELOCITY_HIGH, usb::C12_BYTE_GEAR]);
    let mut s = string_of("writing bytes ");
    push_x_bytes(&mut s, report, &idx);
    push_str(&mut s, " from rpm ");
    push_i64(&mut s, rpm as i64);
    push_str(&mut s, " velocity ");
    push_i64(&mut s, velocity as i64);
    push_str(&mut s, " gear ");
    push_i64(&mut s, gear as i64);
    s
}

/// `sent bytes` and the first seven P1000 report bytes, in hexadecimal, space separated.
pub fn p1000_bytes_message(report: &[u8]) -> (s: String)
    ensures
        s@ == "sent bytes "@ + hex2(byte_or_zero(report@, 0)) + " "@ + hex2(byte_or_zero(report@, 1)) + " "@
            + hex2(byte_or_zero(report@, 2)) + " "@ + hex2(byte_or_zero(report@, 3)) + " "@
            + hex2(byte_or_zero(report@, 4)) + " "@ + hex2(byte_or_zero(report@, 5)) + " "@
            + hex2(byte_or_zero(report@, 6)),
{
    let mut s = string_of("sent bytes ");
    push_hex2(&mut s, report_byte(report, usb::P1000_BYTE_MARK));
    push_str(&mut s, " ");
    push_hex2(&mut s, report_byte(report, usb::P1000_BYTE_CMD));
    push_str(&mut s, " ");
    push_hex2(&mut s, report_byte(report, usb::P1000_BYTE_KIND));
    push_str(&mut s, " ");
    push_hex2(&mut s, report_byte(report, usb::P1000_BYTE_FLAG0));
    push_str(&mut s, " ");
    push_hex2(&mut s, report_byte(report, usb::P1000_BYTE_FLAG1));
    push_str(&mut s, " ");
    push_hex2(&mut s, report_byte(report, usb::P1000_BYTE_FLAG2));
    push_str(&mut s, " ");
    push_hex2(&mut s, report_byte(report, usb::P1000_BYTE_INIT0));
    s
}

/// A stream that could not be connected; an empty sink is the default sink.
pub fn sound_connect_error(node: &str, sink: &str, err: &str) -> (s: String)
    ensures
        s@ == "could not connect sound stream "@ + node@ + " to "@
            + (if sink@.len() == 0 { SOUND_DEFAULT_SINK@ } else { sink@ }) + ": "@ + err@,
{
    let label = if sink.unicode_len() == 0 { SOUND_DEFAULT_SINK } else { sink };
    let mut s = string_of("could not connect sound stream ");
    push_str(&mut s, node);
    push_str(&mut s, " to ");
    push_str(&mut s, label);
    push_str(&mut s, ": ");
    push_str(&mut s, err);
    s
}


/// `~/.config/cargopit/<name>`.
pub fn home_config_file(env: &crate::paths::XdgEnv, name: &str) -> (r: String)
    ensures
        r@ == join_spec(join_spec(join_spec(crate::paths::home_spec(*env), crate::paths::XDG_CONFIG_FALLBACK@), crate::paths::CONFIG_DIR_NAME@), name@),
{
    let home = crate::paths::home_dir(env);
    let a = join(home.as_str(), crate::paths::XDG_CONFIG_FALLBACK);
    let b = join(a.as_str(), crate::paths::CONFIG_DIR_NAME);
    join(b.as_str(), name)
}

/// The configuration file to use: the given file when it is a file, else
/// `cargopit.config` in the given directory when it is a directory, else
/// `~/.config/cargopit/cargopit.config`. `file_is_file` and `dir_is_dir` are
/// what the file system says of the two.
pub fn config_path_for(
    config_file: Option<&str>,
    file_is_file: bool,
    config_dir: Option<&str>,
    dir_is_dir: bool,
    env: &crate::paths::XdgEnv,
) -> (r: String)
    ensures
        r@ == (match config_file {
            Some(f) if file_is_file => f@,
            _ => match config_dir {
                Some(d) if dir_is_dir => join_spec(d@, crate::paths::CONFIG_FILE_NAME@),
                _ => join_spec(join_spec(join_spec(crate::paths::home_spec(*env), crate::paths::XDG_CONFIG_FALLBACK@), crate::paths::CONFIG_DIR_NAME@), crate::paths::CONFIG_FILE_NAME@),
            },
        }),
{
    if let Some(path) = config_file {
        if file_is_file {
            return string_of(path);
        }
    }
    if let Some(dir) = config_dir {
        if dir_is_dir {
            return join(dir, crate::paths::CONFIG_FILE_NAME);
        }
    }
    home_config_file(env, crate::paths::CONFIG_FILE_NAME)
}

/// Why a configuration file could not be used.
#[derive(Clone, Debug)]
pub struct ConfigIssue {
    pub file: String,
    pub line: i32,
    pub text: String,
}

/// The issue reported when the file cannot be read.
pub fn config_io_issue() -> (r: ConfigIssue)
    ensures
        r.file@ == CONFIG_IO_FILE@,
        r.line == CONFIG_IO_LINE,
        r.text@ == CONFIG_IO_TEXT@,
{
    ConfigIssue { file: string_of(CONFIG_IO_FILE), line: CONFIG_IO_LINE, text: string_of(CONFIG_IO_TEXT) }
}

/// The issue reported for a syntax error at `line` of `file`; a line past
/// `i32::MAX` is reported as `i32::MAX`.
pub fn config_syntax_issue(file: &str, line: u64) -> (r: ConfigIssue)
    ensures
        r.file@ == file@,
        r.line == (if line > i32::MAX { i32::MAX as int } else { line as int }),
        r.text@ == CONFIG_SYNTAX_TEXT@,
{
    let l: i32 = if line > 0x7fff_ffff { 0x7fff_ffff } else { line as i32 };
    ConfigIssue { file: string_of(file), line: l, text: string_of(CONFIG_SYNTAX_TEXT) }
}

} // verus!
