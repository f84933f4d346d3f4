use cargopit::devices::{
    class_label, moza_lookup_notices, moza_ready_notices, moza_step_notices, share_notice, skip_message,
    tach_trace_notices, telemetry_i32, DeviceSkip,
};
use cargopit::device::DeviceKind;
use cargopit::serial::MozaNewStep;
use cargopit::transport::ShareWarning;
use cargopit::acr;
use cargopit::cli::{parse, ProgramAction};
use cargopit::control::{effect, reply, socket_path, ControlEffect, SessionStatus, CMD_RELOAD, CMD_STATUS, CMD_STOP, REPLY_OK, REPLY_UNKNOWN};
use cargopit::games::{
    bind_port, bridged_acr, c5_write_message, config_index_range_message, config_io_issue, config_issue_message,
    config_path_for, config_syntax_issue, daemon_is_stale, g29_write_message, home_config_file,
    loading_profile_message, map_interval_ms, mapping_should_stop, mapping_tick, no_profile_message,
    no_profiles_message, p1000_bytes_message, profile_load_fault, quit_action, route_udp, search_tick,
    signal_stop_message, sim_display_name, simd_map_is_stale, use_acr_bridge, FrameSnapshot, PacketRoute,
    PlayAction, ProfileLoadFault, QuitAction, SeenSim, TelemetrySource, CONFIG_IO_FILE, CONFIG_IO_LINE,
    CONFIG_IO_TEXT, CONFIG_SYNTAX_TEXT, DAEMON_PROBE_US, DR2_BIND_PORT, DR2_GAME_PORT, MAPPING_START_MS,
    MAP_API_SIMD, MSG_STOPPED_MAPPING, MSG_USER_STOP, QUIT_KEY, SIMULATOR_API_ASSETTO_CORSA, SIM_NOT_DETECTED,
    STATUS_ACTIVE_PLAY, STATUS_MENU, UDP_BIND_ADDRESS, UDP_RECV_BYTES,
};
use cargopit::clock::WallStamp;
use cargopit::log::{dated_name, emit, Level, COLOR_GREEN, COLOR_RESET};
use cargopit::paths::XdgEnv;
use cargopit::scheduler::{clamp_fps, Scheduler, TimerKind, FPS_MAX, FPS_MIN};
use cargopit::device::tick_interval_ms;
use cargopit::names;
use cargopit::simd::{
    binary_candidates, ensure_step, find_from_candidates, is_executable_mode, is_simd_entry, path_candidates,
    split_path, start_polls, EnsurePhase, EnsureStatus,
};
use cargopit::sound_host::{channel_mask, configured_channels, configured_tyre, configured_volume, stream_node_name};
use cargopit::tach::{parse_tach_xml, rpm_targets, write_xml, TachNode};
use cargopit::testmode::{embedded_tick_ms, is_quit_key, preparing, tick_count, QUIT_KEY_ESC, QUIT_KEY_UPPER, TICK_US};
use cargopit::tyres::{
    config_path_present, device_needs_tyre_diameter, entry_matches, sim_needs_tyre_diameter, stored_sim,
    TyreCheckRequest, TyreCheckRun, TyreCheckStep, TyreSimNeed, USECONFIG_PLAY,
};
use cargopit::udp::UdpPorts;
use cargopit::usb;

fn args(parts: &[&str]) -> Vec<String> {
    parts.iter().map(|part| (*part).to_string()).collect()
}

#[test]
fn version_and_help_exit_without_running() {
    let version = parse(&args(&["--version"]));
    assert_eq!(version.action, ProgramAction::Exit);
    assert_eq!(version.version_line.as_deref(), Some("cargopit 0.4.0"));
    let help = parse(&args(&["--help"]));
    assert!(help.usage);
    assert!(parse(&[]).usage);
}

#[test]
fn play_and_test_flags_match_the_c_defaults() {
    let play = parse(&args(&["play", "--disable_audio", "--udp", "--fps", "144", "-v", "-v"]));
    assert_eq!(play.action, ProgramAction::Play);
    assert!(play.disable_audio);
    assert!(play.force_udp);
    assert_eq!(play.fps, 144);
    assert_eq!(parse(&args(&["play", "-vv"])).verbosity, 2);
    assert_eq!(parse(&args(&["play", "--fps", "0"])).fps, 1);
    assert_eq!(
        parse(&args(&["play", "--log", "/tmp/cargopit.log"])).log_file.as_deref(),
        Some("/tmp/cargopit.log")
    );
    assert_eq!(play.verbosity, 2);
    assert_eq!(play.config_index, names::CONFIG_INDEX_UNSET);
    let test = parse(&args(&["test", "--device-index", "1"]));
    assert_eq!(test.action, ProgramAction::Test);
    assert_eq!(test.device_index, 1);
}

fn sample() -> SessionStatus {
    SessionStatus {
        state: "searching".to_string(),
        releasing: false,
        paused: false,
        config_index: -1,
        sim: "none".to_string(),
        devices: 0,
        updates: 0,
        overruns: 0,
    }
}

#[test]
fn commands_match_the_tui_protocol() {
    let status = sample();
    assert!(reply(CMD_STATUS, &status).contains("\"state\":\"searching\""));
    assert_eq!(reply(CMD_RELOAD, &status), REPLY_OK);
    assert_eq!(reply(CMD_STOP, &status), REPLY_OK);
    assert_eq!(reply("nope", &status), REPLY_UNKNOWN);
    assert_eq!(socket_path(Some("/run/user/1"), 1), "/run/user/1/cargopit.sock");
    assert_eq!(socket_path(None, 7), "/tmp/cargopit-7.sock");
}

#[test]
fn status_reply_is_the_full_json_line() {
    let mut status = sample();
    status.sim = "Assetto \"Corsa\"\n".to_string();
    status.devices = 2;
    assert_eq!(
        reply("status\n", &status),
        "{\"ok\":true,\"state\":\"searching\",\"releasing\":false,\"paused\":false,\"config_index\":-1,\"sim\":\"Assetto Corsa\",\"devices\":2,\"updates\":0,\"overruns\":0}"
    );
    assert_eq!(reply(&"x".repeat(64), &status), "{\"ok\":false,\"error\":\"command too long\"}");
    assert_eq!(effect("stop\n"), ControlEffect::Stop);
    assert_eq!(effect("reload"), ControlEffect::Reload);
    assert_eq!(effect("status"), ControlEffect::NoEffect);
    assert_eq!(reply("reload\n", &status), REPLY_OK);
}

#[test]
fn udp_packets_follow_the_c_routes() {
    assert_eq!(route_udp(&[]), PacketRoute::Ignore);
    assert_eq!(route_udp(&[0, 1]), PacketRoute::Datamap);
    let mut acr_packet = vec![0u8; 48];
    acr_packet[..4].copy_from_slice(b"ACRM");
    assert_eq!(route_udp(&acr_packet), PacketRoute::Acr);
    assert_eq!(UDP_BIND_ADDRESS, "0.0.0.0");
    assert_eq!(UDP_RECV_BYTES, 65536);
}

#[test]
fn quit_key_releases_while_mapping_and_exits_while_searching() {
    assert_eq!(quit_action(None, true, true), QuitAction::Exit);
    assert_eq!(quit_action(Some(b'x'), false, true), QuitAction::Continue);
    assert_eq!(quit_action(Some(QUIT_KEY), false, true), QuitAction::Release);
    assert_eq!(quit_action(Some(QUIT_KEY), false, false), QuitAction::Exit);
    assert_eq!(MSG_USER_STOP, "User requested stop, releasing devices");
    assert_eq!(MSG_STOPPED_MAPPING, "stopped mapping data, press q again to quit");
}

#[test]
fn play_messages_match_the_c_host() {
    assert_eq!(signal_stop_message(2), "signal 2 received, stopping");
    assert_eq!(signal_stop_message(15), "signal 15 received, stopping");
    assert_eq!(
        loading_profile_message("/tmp/cargopit.config", -1),
        "loading device profile from /tmp/cargopit.config (config-index -1)"
    );
    assert_eq!(no_profiles_message("/tmp/cargopit.config"), "no device profiles in /tmp/cargopit.config");
    assert_eq!(config_index_range_message(3, 1), "config-index 3 is out of range (1 configs)");
    assert_eq!(no_profile_message(-1), "no device profile to load (config-index -1)");
    assert_eq!(profile_load_fault(0, -1), Some(ProfileLoadFault::NoProfiles));
    assert_eq!(profile_load_fault(1, -1), None);
    assert_eq!(profile_load_fault(1, 1), Some(ProfileLoadFault::IndexOutOfRange { configs: 1 }));
    assert_eq!(profile_load_fault(2, 1), None);
    let g29 = usb::g29_report_for_leds(0b11111);
    assert_eq!(g29_write_message(&g29, 6000), "writing bytes xf8x12x1fx00x01 from rpm 6000");
    let c5 = usb::c5_report(6_000, 7_000, 4, 300);
    assert_eq!(c5_write_message(&c5, 6000, 300, 4), "writing bytes xfcx09x01x2cx03 from rpm 6000 velocity 300 gear 4");
    assert_eq!(p1000_bytes_message(&usb::p1000_init_report()), "sent bytes f1 f1 17 00 00 00 01");
}

#[test]
fn config_issues_and_paths_match_the_c_host() {
    let io = config_io_issue();
    assert_eq!(io.file, CONFIG_IO_FILE);
    assert_eq!(io.line, CONFIG_IO_LINE);
    assert_eq!(io.text, CONFIG_IO_TEXT);
    assert_eq!(config_issue_message(&io.file, io.line, &io.text), "Issue with cargopit config file: (null):0 - file I/O error");
    let syntax = config_syntax_issue("/tmp/broken.config", 2);
    assert_eq!(syntax.line, 2);
    assert_eq!(syntax.text, CONFIG_SYNTAX_TEXT);
    assert_eq!(config_syntax_issue("/x", u64::MAX).line, i32::MAX);
    let env = XdgEnv { home: Some("/home/ana".to_string()), config_home: None, cache_home: None, data_home: None, state_home: None };
    assert_eq!(home_config_file(&env, "cargopit.config"), "/home/ana/.config/cargopit/cargopit.config");
    assert_eq!(config_path_for(Some("/tmp/valid.config"), true, None, false, &env), "/tmp/valid.config");
    assert_eq!(
        config_path_for(Some("/tmp/missing.config"), false, None, false, &env),
        "/home/ana/.config/cargopit/cargopit.config"
    );
    assert_eq!(
        config_path_for(Some("/tmp/missing.config"), false, Some("/tmp/configs"), true, &env),
        "/tmp/configs/cargopit.config"
    );
}

#[test]
fn dr2_bind_and_stale_mtick_match_the_c_host() {
    assert_eq!(bind_port(DR2_GAME_PORT), DR2_BIND_PORT);
    assert_eq!(bind_port(acr::UDP_PORT), acr::UDP_PORT);
    assert!(daemon_is_stale(10, 10));
    assert!(!daemon_is_stale(10, 11));
    assert_eq!(DAEMON_PROBE_US, 50_000);
}

#[test]
fn only_blank_acr_uses_the_udp_bridge() {
    assert!(!use_acr_bridge(acr::SIMEXE_DIRT_RALLY_2, TelemetrySource::Auto, None));
    assert!(!use_acr_bridge(acr::SIMEXE_ACR, TelemetrySource::Shm, None));
    assert!(use_acr_bridge(acr::SIMEXE_ACR, TelemetrySource::Auto, None));
    assert!(use_acr_bridge(acr::SIMEXE_ACR, TelemetrySource::Udp, Some(&[9])));
}

fn live(map_api: i32, uses_udp: bool) -> SeenSim {
    SeenSim { is_sim_on: true, sim_status: STATUS_ACTIVE_PLAY, map_api, simulator_api: 0, uses_udp, sim_exe: 0 }
}

#[test]
fn status_uses_the_c_sim_display_name() {
    const ASSETTO_CORSA: u64 = 1;
    const DIRT_RALLY_2: u64 = 17;
    assert_eq!(sim_display_name(0, false, None), SIM_NOT_DETECTED);
    assert_eq!(sim_display_name(ASSETTO_CORSA, true, Some("Assetto Corsa")), SIM_NOT_DETECTED);
    assert_eq!(sim_display_name(ASSETTO_CORSA, false, Some("Assetto Corsa")), "Assetto Corsa");
    assert_eq!(sim_display_name(DIRT_RALLY_2, false, Some("DiRT Rally 2.0")), "DiRT Rally 2.0");
    assert_eq!(sim_display_name(u64::from(u32::MAX), false, Some("default")), "default");
    assert_eq!(sim_display_name(u64::from(u32::MAX) + 1, false, Some("default")), SIM_NOT_DETECTED);
}

#[test]
fn search_waits_until_the_sim_is_in_active_play() {
    let off = SeenSim { is_sim_on: false, ..live(MAP_API_SIMD, false) };
    let menu = SeenSim { sim_status: STATUS_MENU, ..live(MAP_API_SIMD, false) };
    assert_eq!(search_tick(off, false, false), PlayAction::Wait);
    assert_eq!(search_tick(menu, false, false), PlayAction::Wait);
    assert_eq!(search_tick(live(1, false), false, true), PlayAction::Wait);
    assert_eq!(search_tick(live(1, false), false, false), PlayAction::StartMapping { use_udp: false });
    assert_eq!(search_tick(live(1, false), true, false), PlayAction::StartMapping { use_udp: true });
}

#[test]
fn stale_simd_map_asks_for_a_direct_remap() {
    assert!(simd_map_is_stale(MAP_API_SIMD, false));
    assert!(!simd_map_is_stale(MAP_API_SIMD, true));
    assert!(!simd_map_is_stale(1, false));
}

#[test]
fn mapping_releases_only_a_stopped_simd_session() {
    assert_eq!(mapping_tick(live(1, true)), PlayAction::Wait);
    assert_eq!(mapping_tick(SeenSim { is_sim_on: false, ..live(1, true) }), PlayAction::Wait);
    assert_eq!(mapping_tick(live(MAP_API_SIMD, false)), PlayAction::Wait);
    assert_eq!(mapping_tick(SeenSim { is_sim_on: false, ..live(MAP_API_SIMD, false) }), PlayAction::Release);
}

#[test]
fn map_interval_matches_the_c_rounding() {
    assert_eq!(map_interval_ms(60), 17);
    assert_eq!(map_interval_ms(1), 1000);
    assert_eq!(map_interval_ms(0), 1000);
    assert_eq!(MAPPING_START_MS, 2000);
}

#[test]
fn mapping_stops_when_the_sim_leaves_active_play() {
    let on = live(1, false);
    assert!(!mapping_should_stop(on));
    assert!(mapping_should_stop(SeenSim { is_sim_on: false, ..on }));
    assert!(mapping_should_stop(SeenSim { sim_status: STATUS_MENU, ..on }));
}

#[test]
fn publish_copies_the_frame_and_bumps_sequence() {
    let mut snapshot = FrameSnapshot::new();
    snapshot.publish(&[1, 2, 3]);
    assert_eq!(snapshot.sequence(), 1);
    assert_eq!(snapshot.frame(), &[1, 2, 3]);
    snapshot.publish(&[9]);
    assert_eq!(snapshot.sequence(), 2);
    assert_eq!(snapshot.frame(), &[9]);
}

#[test]
fn acr_bridge_starts_udp_mapping() {
    let seen = bridged_acr(SeenSim {
        is_sim_on: false,
        sim_status: 0,
        map_api: MAP_API_SIMD,
        simulator_api: 0,
        uses_udp: false,
        sim_exe: acr::SIMEXE_ACR,
    });
    assert_eq!(seen.simulator_api, SIMULATOR_API_ASSETTO_CORSA);
    assert_eq!(search_tick(seen, false, false), PlayAction::StartMapping { use_udp: true });
}

fn stamp() -> WallStamp {
    WallStamp::from_unix_ms(0)
}

#[test]
fn verbosity_gates_debug_and_trace() {
    let stamp = stamp();
    assert!(emit(0, Level::Debug, "hidden", &stamp).is_none());
    let info = emit(0, Level::Info, "shown", &stamp).unwrap();
    assert_eq!(info, format!("00:00:00.000 {COLOR_GREEN}<info>{COLOR_RESET} shown"));
    assert!(emit(1, Level::Debug, "dbg", &stamp).unwrap().contains("<debug>"));
    assert!(emit(1, Level::Trace, "hidden", &stamp).is_none());
    assert!(emit(2, Level::Trace, "tr", &stamp).unwrap().contains("<trace>"));
}

#[test]
fn dated_log_names_pad_the_date() {
    assert_eq!(dated_name("cargopit.log", &stamp()), "cargopit.log-1970-01-01.log");
}

#[test]
fn below_minimum_fps_clamps_to_one() {
    assert_eq!(clamp_fps(0), FPS_MIN);
    assert_eq!(clamp_fps(-4), FPS_MIN);
    assert_eq!(clamp_fps(1001), FPS_MAX);
    assert_eq!(tick_interval_ms(clamp_fps(144)), 6);
}

#[test]
fn devices_tick_immediately_in_config_order() {
    let mut scheduler = Scheduler::new();
    scheduler.add_device(0, 60);
    scheduler.add_device(1, 60);
    let due = scheduler.poll(0);
    assert_eq!(due.len(), 2);
    assert_eq!(due[0].device_index, 0);
    assert_eq!(due[1].device_index, 1);
    assert!(scheduler.poll(15).is_empty());
    let next = scheduler.poll(16);
    assert_eq!(next.len(), 2);
}

#[test]
fn mapping_waits_and_discovery_repeats() {
    let mut scheduler = Scheduler::new();
    scheduler.add_discovery();
    scheduler.add_mapping(60);
    let start = scheduler.poll(0);
    assert_eq!(start.len(), 1);
    assert_eq!(start[0].kind, TimerKind::Discovery);
    assert!(scheduler.poll(1999).iter().all(|due| due.kind != TimerKind::Mapping));
    let mapped = scheduler.poll(2000);
    assert!(mapped.iter().any(|due| due.kind == TimerKind::Mapping));
}

#[test]
fn discovery_repeats_on_its_own_interval() {
    let mut scheduler = Scheduler::new();
    scheduler.add_discovery();
    assert_eq!(scheduler.poll(0)[0].kind, TimerKind::Discovery);
    assert!(scheduler.poll(999).is_empty());
    assert_eq!(scheduler.poll(1000)[0].kind, TimerKind::Discovery);
}

#[test]
fn node_names_match_the_c_stream() {
    assert_eq!(stream_node_name(names::EFFECT_GEAR, names::TYRE_FRONT_LEFT).as_deref(), Some("cargopit.Gear"));
    assert_eq!(stream_node_name(names::EFFECT_TYRE_LOCK, names::TYRE_ALL_FOUR).as_deref(), Some("cargopit.TyreLock.All"));
    assert_eq!(stream_node_name(names::EFFECT_SUSPENSION, names::TYRE_ALL_FOUR).as_deref(), Some("cargopit.Suspension.All"));
}

#[test]
fn volume_clamps_and_a_left_pan_selects_one_channel() {
    assert_eq!(configured_volume(None, Some(150)), 100);
    let channels = configured_channels(Some(2));
    assert_eq!(channels, 2);
    assert_eq!(channel_mask(None, Some(0), channels), 1);
}

#[test]
fn sound_settings_follow_the_config_keys() {
    assert_eq!(configured_volume(Some(40), Some(100)), 40);
    assert_eq!(configured_volume(None, None), 100);
    assert_eq!(configured_volume(Some(-5), None), 0);
    assert_eq!(configured_channels(None), 1);
    assert_eq!(configured_channels(Some(12)), 8);
    assert_eq!(channel_mask(None, None, 2), 3);
    assert_eq!(channel_mask(None, Some(-1), 2), 3);
    assert_eq!(channel_mask(Some(0xff), None, 2), 3);
    assert_eq!(configured_tyre(names::EFFECT_TYRE_LOCK, Some("ALL")), names::TYRE_ALL_FOUR);
    assert_eq!(configured_tyre(names::EFFECT_TYRE_LOCK, Some("fronts")), names::TYRE_FRONTS);
    assert_eq!(configured_tyre(names::EFFECT_GEAR, Some("fronts")), names::TYRE_FRONT_LEFT);
}

#[test]
fn announcements_use_the_c_prefix_and_sixteen_millisecond_tick() {
    assert_eq!(embedded_tick_ms(), 16);
    assert_eq!(tick_count(TICK_US), 1);
    assert_eq!(preparing(0), "test step: preparing test with 0 devices...");
    assert!(is_quit_key(b'q'));
    assert!(is_quit_key(QUIT_KEY_UPPER));
    assert!(is_quit_key(QUIT_KEY_ESC));
    assert!(!is_quit_key(b'a'));
}

#[test]
fn effects_and_sim_flags_match_the_c_gate() {
    assert!(device_needs_tyre_diameter(names::EFFECT_TYRE_LOCK));
    assert!(device_needs_tyre_diameter(names::EFFECT_TYRE_SLIP));
    assert!(device_needs_tyre_diameter(names::EFFECT_ABS));
    assert!(!device_needs_tyre_diameter(names::EFFECT_ENGINE));
    let need = TyreSimNeed {
        calculates_diameter: false,
        supports_haptics: true,
        calculates_slip: false,
        use_config: USECONFIG_PLAY,
        has_config_path: true,
    };
    assert!(sim_needs_tyre_diameter(&need));
    assert!(!sim_needs_tyre_diameter(&TyreSimNeed { calculates_diameter: true, ..need }));
    assert!(!sim_needs_tyre_diameter(&TyreSimNeed { calculates_slip: true, ..need }));
    assert!(!sim_needs_tyre_diameter(&TyreSimNeed { supports_haptics: false, ..need }));
    assert!(!sim_needs_tyre_diameter(&TyreSimNeed { use_config: false, ..need }));
    assert!(!config_path_present(""));
}

#[test]
fn saved_cars_match_ignoring_case_and_by_sim() {
    assert!(entry_matches(b"Porsche 911", Some(b"PORSCHE 911"), Some(7), 7));
    assert!(!entry_matches(b"Porsche 911", Some(b"PORSCHE 911"), None, 7));
    assert!(entry_matches(b"Porsche 911", Some(b"porsche 911"), None, 0));
    assert!(!entry_matches(b"", Some(b""), None, 0));
    assert!(!entry_matches(b"a", None, None, 0));
    assert_eq!(stored_sim(Some(i64::from(i32::MAX) + 1)), 0);
    assert_eq!(stored_sim(Some(-3)), -3);
    assert!(entry_matches(b"a", Some(b"A"), Some(-1), u64::MAX));
}

#[test]
fn tyre_check_loads_measures_and_saves_in_order() {
    let request = TyreCheckRequest { car: b"car".to_vec(), path: "/tmp/d.config".to_string(), config_checked: false };
    let mut run = request.begin(false);
    assert_eq!(run.step, TyreCheckStep::Load);
    run.advance(false, false);
    assert_eq!(run.step, TyreCheckStep::Measure);
    assert!(run.check.config_checked);
    run.advance(true, true);
    assert_eq!(run.step, TyreCheckStep::Lookup);
    assert!(run.check.updated && run.check.stop_timer);
    run.advance(true, false);
    assert_eq!(run.step, TyreCheckStep::Save);
    run.advance(true, false);
    assert_eq!(run.step, TyreCheckStep::Done);
    let nothing = TyreCheckRun::start(false, false, false);
    assert_eq!(nothing.step, TyreCheckStep::Done);
    assert!(!nothing.check.stop_timer);
}

#[test]
fn dr2_port_is_remembered_on_the_native_bind_port() {
    let mut ports = UdpPorts::new();
    assert_eq!(ports.remember_port(i32::from(DR2_GAME_PORT)), 0);
    assert_eq!(ports.requested_port(), DR2_BIND_PORT);
    assert_eq!(ports.remember_port(-1), -1);
    assert_eq!(ports.requested_port(), DR2_BIND_PORT);
    assert_eq!(ports.remember_port(65536), -1);
    assert_eq!(ports.remember_port(20999), 0);
    assert_eq!(ports.requested_port(), 20999);
}

#[test]
fn skips_missing_and_non_executable_candidates() {
    let none: Vec<Option<String>> = Vec::new();
    assert!(find_from_candidates(&none, &Vec::new()).is_none());
    assert!(find_from_candidates(&vec![Some("/no/such/simd-binary".to_string())], &vec![false]).is_none());
    assert!(find_from_candidates(&vec![None, Some("/tmp/plain".to_string())], &vec![true, false]).is_none());
    assert_eq!(
        find_from_candidates(&vec![Some("/tmp/plain".to_string()), Some("/tmp/simd".to_string())], &vec![false, true]).as_deref(),
        Some("/tmp/simd")
    );
    assert!(is_executable_mode(true, 0o755));
    assert!(!is_executable_mode(true, 0o644));
    assert!(!is_executable_mode(false, 0o755));
}

#[test]
fn simd_is_looked_for_in_the_c_order() {
    let c = binary_candidates(Some("/home/ana"), Some(""));
    assert_eq!(c, vec![
        None,
        Some("/home/ana/.local/share/cargopit/simapi/simd/build/simd".to_string()),
        Some("/home/ana/.local/bin/simd".to_string()),
        Some("/usr/local/bin/simd".to_string()),
        Some("/usr/bin/simd".to_string()),
    ]);
    let x = binary_candidates(None, Some("/data"));
    assert_eq!(x[0].as_deref(), Some("/data/cargopit/simapi/simd/build/simd"));
    assert!(x[1].is_none() && x[2].is_none());
    assert_eq!(split_path("/bin::/usr/bin"), vec!["/bin".to_string(), String::new(), "/usr/bin".to_string()]);
    assert_eq!(split_path(""), vec![String::new()]);
    assert_eq!(path_candidates("/bin::/usr/bin/", "simd"), vec!["/bin/simd", "./simd", "/usr/bin/simd"]);
    assert!(is_simd_entry("1234", "simd\n"));
    assert!(!is_simd_entry("12a4", "simd\n"));
    assert!(!is_simd_entry("1234", "simdx\n"));
    assert!(is_simd_entry("", " simd "));
    assert_eq!(start_polls(), 60);
}

#[test]
fn ensure_stops_at_the_first_step_that_succeeds() {
    assert_eq!(ensure_step(EnsurePhase::CheckRunning, true), EnsurePhase::Done(EnsureStatus::Running));
    let mut phase = ensure_step(EnsurePhase::CheckRunning, false);
    assert_eq!(phase, EnsurePhase::RemoveStalePid);
    phase = ensure_step(phase, true);
    assert_eq!(phase, EnsurePhase::StartService);
    phase = ensure_step(phase, false);
    assert_eq!(phase, EnsurePhase::FindBinary);
    assert_eq!(ensure_step(phase, false), EnsurePhase::Done(EnsureStatus::NotInstalled));
    phase = ensure_step(phase, true);
    assert_eq!(phase, EnsurePhase::SpawnBinary);
    assert_eq!(ensure_step(phase, false), EnsurePhase::Done(EnsureStatus::StartFailed));
    assert_eq!(ensure_step(phase, true), EnsurePhase::Done(EnsureStatus::Running));
}

#[test]
fn coarse_table_and_xml_round_trip() {
    assert!(rpm_targets(1000, 1).is_none());
    let targets = rpm_targets(2000, 1).expect("nodes");
    assert_eq!(targets, vec![250, 1000, 2000]);
    let nodes: Vec<TachNode> = targets.iter().map(|rpm| TachNode { rpm: *rpm, pulses: *rpm }).collect();
    let xml = write_xml(2000, &nodes);
    let parsed = parse_tach_xml(&xml).expect("xml");
    assert_eq!(parsed.len(), nodes.len());
    assert_eq!(parsed[0].pulses, 250);
}

#[test]
fn revburner_xml_keeps_rpm_and_pulses() {
    let src = "<?xml version=\"1.0\"?>\n<!-- calibration -->\n<TachometerSettings><SettingsValues>\
        <settingsitem><Value> 300 </Value><TimeValue>43600</TimeValue></settingsitem>\
        <SettingsItem><TimeValue>+12x</TimeValue></SettingsItem><SettingsItem><Value>9</Value></SettingsItem>\
        </SettingsValues><MaxDisplayValue>8000</MaxDisplayValue></TachometerSettings>";
    let points = parse_tach_xml(src).expect("tach");
    assert_eq!(points.len(), 2);
    assert_eq!((points[0].rpm, points[0].pulses), (300, 43600));
    assert_eq!((points[1].rpm, points[1].pulses), (0, 12));
    assert!(parse_tach_xml("<a></a>").is_err());
    assert!(parse_tach_xml("").is_err());
    assert!(parse_tach_xml("<a>").is_err());
    let finer = rpm_targets(2000, 4).expect("finest");
    assert_eq!(finer, vec![250, 500, 750, 1000, 1250, 1500, 1750, 2000]);
}

#[test]
fn an_acrm_packet_marks_the_frame_as_rally_in_play() {
    let mut sim = cargopit::telemetry::Telemetry::new();
    acr::apply_engine(&mut sim, 4_200, 7_500, 900, 1_000);
    assert_eq!(sim.rpms(), 4_200);
    assert_eq!(sim.maxrpm(), 7_500);
    assert_eq!(sim.idlerpm(), 900);
    assert_eq!(sim.mtick(), 1_000);
    assert_eq!(sim.simexe(), acr::SIMEXE_ACR);
    assert_eq!(sim.simstatus(), acr::STATUS_ACTIVE);
    assert_eq!(sim.simapi(), acr::SIM_ASSETTO_CORSA);
    assert!(sim.simon());
    let mut bare = cargopit::telemetry::Telemetry::new();
    acr::apply_engine(&mut bare, 0, 0, 0, 16);
    assert_eq!(bare.maxrpm(), acr::REDLINE_FLOOR);
    assert_eq!(bare.idlerpm(), acr::IDLE_DEFAULT);
    assert_eq!(bare.rpms(), 0);
}

#[test]
fn device_notices_read_as_logged() {
    let step = MozaNewStep { frames: Vec::new(), arm_failed: false, just_armed: true, rpm_failed: true, rpm_sent: false };
    let notices = moza_step_notices(&step);
    assert_eq!(notices.len(), 2);
    assert_eq!(notices[0].level, Level::Info);
    assert_eq!(notices[0].message, "Moza R9 telemetry mode armed");
    assert_eq!(notices[1].level, Level::Warn);
    assert_eq!(notices[1].message, "Moza R9 RPM bitmask write failed");
    let share = share_notice(ShareWarning::Hupcl);
    assert_eq!((share.level, share.message.as_str()), (Level::Warn, "could not clear HUPCL on Moza serial"));
    let lookup = moza_lookup_notices("/dev/ttyACM0", 115_200);
    assert_eq!(lookup.len(), 7);
    assert_eq!(lookup[0].message, "Attempting to configure arduino device with subtype: 8");
    assert_eq!(lookup[3].message, "initializing serial device on port /dev/ttyACM0 to 115200...");
    assert_eq!(lookup[4].message, "looking to open physical serialdevice /dev/ttyACM0");
    assert_eq!(lookup[5].level, Level::Debug);
    let ready = moza_ready_notices(115_200);
    assert_eq!(ready[1].message, "Setting port to 115200 8N1, no flow control");
    assert_eq!(class_label(DeviceKind::Unknown), "(null)");
    assert_eq!(class_label(DeviceKind::Sound), "Sound");
    assert_eq!(skip_message(DeviceSkip::Disabled, 3), "skipping disabled device at index 3");
    assert_eq!(telemetry_i32(u32::MAX), i32::MAX);
    assert_eq!(telemetry_i32(7), 7);
    let indexed = tach_trace_notices(&usb::TachPulses::Indexed { pulses: 40, element: 2 }, 9);
    let texts: Vec<&str> = indexed.iter().map(|n| n.message.as_str()).collect();
    assert_eq!(
        texts,
        vec![
            "Getting pulses for current tachometer revs",
            "Tach settings size 9",
            "Retrieveing element 2",
            "Settings tachometer pulses to 40",
        ]
    );
    assert_eq!(tach_trace_notices(&usb::TachPulses::Frame(5), 9).len(), 1);
}
