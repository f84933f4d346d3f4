//! The play loop's decisions. Each poll the host samples the sim, reads the
//! quit key and signals, and serves the control socket; these functions say
//! what the loop becomes and what the host must do, in the poll's order:
//! quit handling, then the control request, then the search or mapping step.
use vstd::prelude::*;
use crate::control::ControlEffect;
use crate::games::{
    spec_map_interval_ms, map_interval_ms, mapping_should_stop, mapping_tick, search_tick, PlayAction,
    PlayPhase, QuitAction, SeenSim, CHECK_INTERVAL_MS, MAPPING_START_MS, MAP_API_SIMD, STATUS_ACTIVE_PLAY,
    STATUS_MENU,
};

verus! {

/// Where the play loop stands between two polls.
#[derive(Clone, Copy, Debug, PartialEq, Eq, Structural)]
pub struct PlayLoop {
    pub phase: PlayPhase,
    pub use_udp: bool,
    pub map_api: i32,
    pub wait_ms: u64,
    pub user_stopped: bool,
    pub releasing: bool,
    pub sim_exe: u64,
}

/// What quit handling asks of the host.
#[derive(Clone, Copy, Debug, PartialEq, Eq, Structural)]
pub enum QuitOutcome {
    /// Nothing was asked.
    Continue,
    /// The loop exits; `release_devices` when configured devices were mapping.
    Exit { release_devices: bool },
    /// The user stopped mapping: announce it and release the devices.
    Release,
}

/// What a control request asks of the host.
#[derive(Clone, Copy, Debug, PartialEq, Eq, Structural)]
pub enum ControlOutcome {
    /// No request, or one with no effect.
    Nothing,
    /// The loop exits; `release_devices` when configured devices were mapping.
    Stop { release_devices: bool },
    /// Release the devices and load the profile again on the next mapping;
    /// `was_mapping` says whether the release is announced.
    Reload { was_mapping: bool },
}

/// What the search or mapping step asks of the host.
#[derive(Clone, Copy, Debug, PartialEq, Eq, Structural)]
pub enum Advance {
    /// Nothing to do this poll.
    Idle,
    /// A release was pending: clear the session and release the devices;
    /// `log_stopped` when the user asked for it.
    FinishRelease { log_stopped: bool },
    /// Keep searching.
    Wait,
    /// Start mapping: mark the devices for loading, open the publishing map
    /// when the sim is not served by simd, and over UDP bind the socket.
    BeginMapping { open_publish: bool, use_udp: bool },
    /// Mapping ended: clear the session, release the devices, and log that
    /// the user stopped it (`user_stopped`) or that searching restarts.
    StopMapping { user_stopped: bool },
    /// Keep mapping from UDP packets, then tick the devices.
    ReceiveUdp,
    /// Keep mapping from the live shared memory, then tick the devices.
    MapLive,
}

/// Everything one poll asks of the host, stage by stage.
#[derive(Clone, Copy, Debug, PartialEq, Eq, Structural)]
pub struct PlayOutcome {
    pub quit: QuitOutcome,
    pub control: ControlOutcome,
    pub advance: Advance,
}

/// The loop before the first poll: searching, at the check interval.
pub open spec fn spec_initial(force_udp: bool) -> PlayLoop {
    PlayLoop {
        phase: PlayPhase::Searching,
        use_udp: force_udp,
        map_api: MAP_API_SIMD,
        wait_ms: CHECK_INTERVAL_MS,
        user_stopped: false,
        releasing: false,
        sim_exe: 0,
    }
}

/// Back to searching at the check interval, with no release pending.
pub open spec fn spec_searching(p: PlayLoop) -> PlayLoop {
    PlayLoop { phase: PlayPhase::Searching, wait_ms: CHECK_INTERVAL_MS, releasing: false, ..p }
}

/// Configured devices are released on exit only while they map.
pub open spec fn releases_on_exit(p: PlayLoop, device_count: usize) -> bool {
    p.phase == PlayPhase::Mapping && device_count > 0 && !p.releasing
}

/// Quit handling.
pub open spec fn spec_quit_step(p: PlayLoop, quit: QuitAction, device_count: usize) -> (PlayLoop, QuitOutcome) {
    match quit {
        QuitAction::Continue => (p, QuitOutcome::Continue),
        QuitAction::Exit => (
            PlayLoop { phase: PlayPhase::Exiting, ..p },
            QuitOutcome::Exit { release_devices: releases_on_exit(p, device_count) },
        ),
        QuitAction::Release => (PlayLoop { user_stopped: true, releasing: true, ..p }, QuitOutcome::Release),
    }
}

/// The control request's step.
pub open spec fn spec_control_step(
    p: PlayLoop,
    effect: Option<ControlEffect>,
    device_count: usize,
) -> (PlayLoop, ControlOutcome) {
    match effect {
        Some(ControlEffect::Stop) => (
            PlayLoop { phase: PlayPhase::Exiting, ..p },
            ControlOutcome::Stop { release_devices: releases_on_exit(p, device_count) },
        ),
        Some(ControlEffect::Reload) => (
            spec_searching(PlayLoop { user_stopped: false, ..p }),
            ControlOutcome::Reload { was_mapping: p.phase == PlayPhase::Mapping },
        ),
        _ => (p, ControlOutcome::Nothing),
    }
}

/// The mapping state a sample starts.
pub open spec fn spec_begin_mapping(seen: SeenSim, use_udp: bool) -> PlayLoop {
    PlayLoop {
        phase: PlayPhase::Mapping,
        use_udp,
        map_api: seen.map_api,
        wait_ms: if use_udp { CHECK_INTERVAL_MS } else { MAPPING_START_MS },
        user_stopped: false,
        releasing: false,
        sim_exe: seen.sim_exe,
    }
}

/// Mapping ends when a simd sim went off, or the sim is off or in a menu.
pub open spec fn mapping_ends(seen: SeenSim) -> bool {
    (seen.map_api == MAP_API_SIMD && !seen.is_sim_on) || !seen.is_sim_on || seen.sim_status <= STATUS_MENU
}

/// The search or mapping step.
pub open spec fn spec_advance_step(p: PlayLoop, seen: SeenSim, force_udp: bool, fps: i32) -> (PlayLoop, Advance) {
    if p.releasing {
        (spec_searching(p), Advance::FinishRelease { log_stopped: p.user_stopped })
    } else {
        match p.phase {
            PlayPhase::Searching => {
                if p.user_stopped || !seen.is_sim_on || seen.sim_status < STATUS_ACTIVE_PLAY {
                    (spec_searching(p), Advance::Wait)
                } else {
                    let udp = force_udp || seen.uses_udp;
                    (
                        spec_begin_mapping(seen, udp),
                        Advance::BeginMapping { open_publish: seen.map_api != MAP_API_SIMD, use_udp: udp },
                    )
                }
            },
            PlayPhase::Mapping => {
                if mapping_ends(seen) {
                    (spec_searching(p), Advance::StopMapping { user_stopped: p.user_stopped })
                } else if p.use_udp {
                    (PlayLoop { wait_ms: CHECK_INTERVAL_MS, ..p }, Advance::ReceiveUdp)
                } else {
                    (PlayLoop { wait_ms: spec_map_interval_ms(fps), ..p }, Advance::MapLive)
                }
            },
            PlayPhase::Exiting => (p, Advance::Idle),
        }
    }
}

/// One poll: note the sim, then quit handling, the control request and the
/// search or mapping step, each skipped once the loop exits.
pub open spec fn spec_play_step(
    p: PlayLoop,
    seen: SeenSim,
    quit: QuitAction,
    control: Option<ControlEffect>,
    device_count: usize,
    force_udp: bool,
    fps: i32,
) -> (PlayLoop, PlayOutcome) {
    let noted = PlayLoop { sim_exe: seen.sim_exe, ..p };
    let (q, qo) = spec_quit_step(noted, quit, device_count);
    if q.phase == PlayPhase::Exiting {
        (q, PlayOutcome { quit: qo, control: ControlOutcome::Nothing, advance: Advance::Idle })
    } else {
        let (c, co) = spec_control_step(q, control, device_count);
        if c.phase == PlayPhase::Exiting {
            (c, PlayOutcome { quit: qo, control: co, advance: Advance::Idle })
        } else {
            let (a, ao) = spec_advance_step(c, seen, force_udp, fps);
            (a, PlayOutcome { quit: qo, control: co, advance: ao })
        }
    }
}

impl PlayLoop {
    /// The loop before the first poll.
    pub fn new(force_udp: bool) -> (p: Self)
        ensures
            p == spec_initial(force_udp),
    {
        PlayLoop {
            phase: PlayPhase::Searching,
            use_udp: force_udp,
            map_api: MAP_API_SIMD,
            wait_ms: CHECK_INTERVAL_MS,
            user_stopped: false,
            releasing: false,
            sim_exe: 0,
        }
    }
}

fn searching(p: PlayLoop) -> (r: PlayLoop)
    ensures
        r == spec_searching(p),
{
    PlayLoop { phase: PlayPhase::Searching, wait_ms: CHECK_INTERVAL_MS, releasing: false, ..p }
}

/// Quit handling: a quit exits, releasing mapped devices; a user stop while
/// mapping marks a release.
pub fn quit_step(p: PlayLoop, quit: QuitAction, device_count: usize) -> (r: (PlayLoop, QuitOutcome))
    ensures
        r == spec_quit_step(p, quit, device_count),
{
    match quit {
        QuitAction::Continue => (p, QuitOutcome::Continue),
        QuitAction::Exit => {
            let release_devices = p.phase == PlayPhase::Mapping && device_count > 0 && !p.releasing;
            (PlayLoop { phase: PlayPhase::Exiting, ..p }, QuitOutcome::Exit { release_devices })
        },
        QuitAction::Release => (PlayLoop { user_stopped: true, releasing: true, ..p }, QuitOutcome::Release),
    }
}

/// The control request's step: a stop exits, a reload goes back to searching
/// with the devices released and marked for loading.
pub fn control_step(p: PlayLoop, effect: Option<ControlEffect>, device_count: usize) -> (r: (PlayLoop, ControlOutcome))
    ensures
        r == spec_control_step(p, effect, device_count),
{
    match effect {
        Some(ControlEffect::Stop) => {
            let release_devices = p.phase == PlayPhase::Mapping && device_count > 0 && !p.releasing;
            (PlayLoop { phase: PlayPhase::Exiting, ..p }, ControlOutcome::Stop { release_devices })
        },
        Some(ControlEffect::Reload) => {
            let was_mapping = p.phase == PlayPhase::Mapping;
            (searching(PlayLoop { user_stopped: false, ..p }), ControlOutcome::Reload { was_mapping })
        },
        _ => (p, ControlOutcome::Nothing),
    }
}

/// The search or mapping step: a pending release finishes; searching starts
/// mapping once the sim plays; mapping stops when the sim leaves, else maps on.
pub fn advance_step(p: PlayLoop, seen: SeenSim, force_udp: bool, fps: i32) -> (r: (PlayLoop, Advance))
    ensures
        r == spec_advance_step(p, seen, force_udp, fps),
{
    if p.releasing {
        return (searching(p), Advance::FinishRelease { log_stopped: p.user_stopped });
    }
    match p.phase {
        PlayPhase::Searching => match search_tick(seen, force_udp, p.user_stopped) {
            PlayAction::StartMapping { use_udp } => {
                let next = PlayLoop {
                    phase: PlayPhase::Mapping,
                    use_udp,
                    map_api: seen.map_api,
                    wait_ms: if use_udp { CHECK_INTERVAL_MS } else { MAPPING_START_MS },
                    user_stopped: false,
                    releasing: false,
                    sim_exe: seen.sim_exe,
                };
                (next, Advance::BeginMapping { open_publish: seen.map_api != MAP_API_SIMD, use_udp })
            },
            _ => (searching(p), Advance::Wait),
        },
        PlayPhase::Mapping => {
            let release = match mapping_tick(seen) {
                PlayAction::Release => true,
                _ => false,
            };
            if release || mapping_should_stop(seen) {
                return (searching(p), Advance::StopMapping { user_stopped: p.user_stopped });
            }
            if p.use_udp {
                return (PlayLoop { wait_ms: CHECK_INTERVAL_MS, ..p }, Advance::ReceiveUdp);
            }
            (PlayLoop { wait_ms: map_interval_ms(fps), ..p }, Advance::MapLive)
        },
        PlayPhase::Exiting => (p, Advance::Idle),
    }
}

/// One poll of the play loop. `control` is the request served after quit
/// handling, with the status of the loop as quit handling left it.
pub fn play_step(
    p: PlayLoop,
    seen: SeenSim,
    quit: QuitAction,
    control: Option<ControlEffect>,
    device_count: usize,
    force_udp: bool,
    fps: i32,
) -> (r: (PlayLoop, PlayOutcome))
    ensures
        r == spec_play_step(p, seen, quit, control, device_count, force_udp, fps),
{
    let noted = PlayLoop { sim_exe: seen.sim_exe, ..p };
    let (q, qo) = quit_step(noted, quit, device_count);
    if q.phase == PlayPhase::Exiting {
        return (q, PlayOutcome { quit: qo, control: ControlOutcome::Nothing, advance: Advance::Idle });
    }
    let (c, co) = control_step(q, control, device_count);
    if c.phase == PlayPhase::Exiting {
        return (c, PlayOutcome { quit: qo, control: co, advance: Advance::Idle });
    }
    let (a, ao) = advance_step(c, seen, force_udp, fps);
    (a, PlayOutcome { quit: qo, control: co, advance: ao })
}

/// A release never outlives the poll that asked for it: unless the loop
/// exits, it polls again with no release pending.
pub proof fn release_finishes_within_the_poll(
    p: PlayLoop,
    seen: SeenSim,
    quit: QuitAction,
    control: Option<ControlEffect>,
    device_count: usize,
    force_udp: bool,
    fps: i32,
)
    requires
        p.phase != PlayPhase::Exiting,
    ensures
        ({
            let r = spec_play_step(p, seen, quit, control, device_count, force_udp, fps);
            r.0.phase != PlayPhase::Exiting ==> !r.0.releasing
        }),
{
}

/// The loop exits exactly when a quit or a control stop asks for it.
pub proof fn exits_only_when_asked(
    p: PlayLoop,
    seen: SeenSim,
    quit: QuitAction,
    control: Option<ControlEffect>,
    device_count: usize,
    force_udp: bool,
    fps: i32,
)
    requires
        p.phase != PlayPhase::Exiting,
    ensures
        ({
            let r = spec_play_step(p, seen, quit, control, device_count, force_udp, fps);
            (r.0.phase == PlayPhase::Exiting) <==> (r.1.quit is Exit || r.1.control is Stop)
        }),
{
}

/// After a user stop the loop keeps searching, whatever the sim does, until
/// a reload clears the stop.
pub proof fn user_stop_holds_searching(
    p: PlayLoop,
    seen: SeenSim,
    quit: QuitAction,
    control: Option<ControlEffect>,
    device_count: usize,
    force_udp: bool,
    fps: i32,
)
    requires
        p.phase == PlayPhase::Searching,
        p.user_stopped,
        control != Some(ControlEffect::Reload),
    ensures
        ({
            let r = spec_play_step(p, seen, quit, control, device_count, force_udp, fps);
            r.0.phase != PlayPhase::Mapping && r.0.user_stopped
        }),
{
}

} // verus!
