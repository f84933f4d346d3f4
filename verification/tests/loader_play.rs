use cargopit::control::ControlEffect;
use cargopit::device::DeviceKind;
use cargopit::devices::InitNotice;
use cargopit::games::{
    self, PlayPhase, QuitAction, SeenSim, CHECK_INTERVAL_MS, MAPPING_START_MS, MAP_API_SIMD, MSG_INIT_REVBURNER,
    MSG_REVBURNER_MISSING, MSG_TACH_CONFIG_NONE, MSG_TACH_CONFIG_REQUIRED, MSG_TACH_GRANULARITY_INVALID,
    MSG_TACH_XML_EMPTY,
};
use cargopit::loader::{
    build_device, consider_entry, entry_route, plan_considered, revburner_considered, tach_from_file, tach_source,
    unready_tach, DeviceEntry, EntryPlan, EntryRoute, OpenedHid, PortState, ProfileLoad, TachSource,
};
use cargopit::log::Level;
use cargopit::names;
use cargopit::play::{
    advance_step, control_step, play_step, quit_step, Advance, ControlOutcome, PlayLoop, QuitOutcome,
};
use cargopit::serial::wire_checksum_exec;
use cargopit::telemetry::Telemetry;
use cargopit::test_script::{
    abs_slip_bits, gear_pulse, next_rpm, subject_ticks, suspension_bits, sweep_rpms, RPM_IDLE, RPM_MAX,
    device_label, light_script, script_lines, subject_from, test_plan, ScriptLine, TestPlan, TestSubject,
};
use cargopit::testmode::{named, preparing, step, LABEL_EFFECT, LABEL_USB_LIGHTS, MSG_COAST, MSG_FINISHED, MSG_STARTING};

const XML: &str = "<?xml version=\"1.0\"?>\n<ArrayOfSettingsItem>\n<SettingsItem><Value>300</Value><TimeValue>43600</TimeValue></SettingsItem>\n<SettingsItem><Value>1000</Value><TimeValue>20000</TimeValue></SettingsItem>\n</ArrayOfSettingsItem>\n";

fn entry<'a>(kind: &'a str, fps: i64, enabled: bool) -> DeviceEntry<'a> {
    DeviceEntry {
        device: None,
        device_type: Some(kind),
        subtype: None,
        enabled: Some(enabled),
        effect: None,
        config: None,
        granularity: None,
        fps: Some(fps),
        threshold_bits: None,
        tyre: None,
    }
}

fn has(notices: &[InitNotice], message: &str) -> bool {
    notices.iter().any(|n| n.message == message)
}

fn seen(on: bool, status: i32) -> SeenSim {
    SeenSim { is_sim_on: on, sim_status: status, map_api: MAP_API_SIMD, simulator_api: 0, uses_udp: false, sim_exe: 7 }
}

/// The host's loading loop with every HID open answered by `hid_ok`.
fn load(entries: &[DeviceEntry], disable_audio: bool, hid_ok: bool) -> ProfileLoad {
    let mut load = ProfileLoad::new();
    for (slot, e) in entries.iter().enumerate() {
        let prep = match tach_source(e.config) {
            TachSource::File => tach_from_file(e.config.unwrap(), Some(XML), e.granularity, false),
            source => unready_tach(source),
        };
        let considered = match consider_entry(e, slot as i32, disable_audio, prep) {
            EntryPlan::OpenTach { prep } => revburner_considered(
                e,
                load.next_id(),
                prep,
                if hid_ok { OpenedHid::Simulated } else { OpenedHid::Missing },
            ),
            plan => plan_considered(plan),
        };
        load.add(considered);
    }
    load.finish();
    load
}

#[test]
fn profile_loading_skips_disabled_entries_and_muted_sound() {
    let mut tach = entry("usb", 60, true);
    tach.config = Some("/tmp/revburner.xml");
    tach.granularity = Some(1);
    let entries = [tach, entry("serial", 0, true), entry("sound", 60, true), entry("wheel", 144, false)];
    let loaded = load(&entries, true, true);
    assert_eq!(loaded.devices.len(), 1);
    assert_eq!(loaded.devices[0].device.kind(), DeviceKind::Usb);
    assert_eq!(loaded.devices[0].device.interval_ms(), 16);
    assert!(has(&loaded.notices, &games::initialized_devices_message(1)));
    assert!(has(&loaded.notices, &games::starting_device_message(names::DEVICE_USB, 0, 60)));
    assert!(has(&loaded.setup_notices, &games::tach_granularity_message(1)));
    assert!(has(&loaded.notices, &games::could_not_initialize_message("Serial")));
    assert!(has(&loaded.notices, games::MSG_SKIP_AUDIO));
    assert!(has(&loaded.notices, &games::skipping_disabled_message(3)));
    let missing = load(&entries, true, false);
    assert!(missing.devices.is_empty());
    assert!(has(&missing.notices, MSG_REVBURNER_MISSING));
    assert!(has(&missing.notices, &games::initialized_devices_message(0)));
}

#[test]
fn a_tachometer_without_a_table_file_does_not_open() {
    let unset = unready_tach(tach_source(None));
    assert!(!unset.ready);
    assert!(has(&unset.notices, MSG_TACH_CONFIG_NONE));
    assert!(has(&unset.notices, MSG_TACH_CONFIG_REQUIRED));
    assert_eq!(tach_source(Some("NONE")), TachSource::NamedNone);
    let named_none = unready_tach(TachSource::NamedNone);
    assert!(!has(&named_none.notices, MSG_TACH_CONFIG_NONE));
    assert!(has(&named_none.notices, MSG_TACH_CONFIG_REQUIRED));
    let loaded = load(&[entry("usb", 60, true)], false, true);
    assert!(loaded.devices.is_empty());
    assert!(has(&loaded.setup_notices, MSG_TACH_CONFIG_NONE));
}

#[test]
fn tachometer_granularity_and_table_faults() {
    let rejected = tach_from_file("t.xml", Some(XML), Some(3), true);
    assert!(rejected.ready && rejected.map.active && rejected.map.use_pulses);
    assert_eq!(rejected.map.granularity, 1);
    assert_eq!(rejected.map.pulses, vec![43600, 20000]);
    assert!(has(&rejected.notices, MSG_TACH_GRANULARITY_INVALID));
    assert!(has(&rejected.notices, &games::tach_granularity_message(1)));
    let kept = tach_from_file("t.xml", Some(XML), Some(4), false);
    assert_eq!(kept.map.granularity, 4);
    assert_eq!(kept.notices.len(), 2);
    let unreadable = tach_from_file("t.xml", None, None, false);
    assert!(unreadable.map.pulses.is_empty());
    assert!(has(&unreadable.notices, &games::tach_xml_read_message("t.xml")));
    let empty = tach_from_file("t.xml", Some("<ArrayOfSettingsItem></ArrayOfSettingsItem>"), None, false);
    assert!(has(&empty.notices, MSG_TACH_XML_EMPTY));
}

#[test]
fn entries_route_to_their_backends() {
    let mut moza = entry("Wheel", 60, true);
    moza.device = Some("serial");
    moza.subtype = Some("MozaR9");
    assert_eq!(entry_route(&moza), EntryRoute::MozaWheel);
    let mut g29 = entry("Wheel", 60, true);
    g29.device = Some("USB");
    g29.subtype = Some("LogitechG29");
    assert_eq!(entry_route(&g29), EntryRoute::LogitechG29);
    let mut sound = entry("sound", 60, true);
    sound.effect = Some("Engine");
    assert_eq!(entry_route(&sound), EntryRoute::Sound);
    assert_eq!(entry_route(&entry("sound", 60, true)), EntryRoute::Closed);
    assert_eq!(entry_route(&entry("usb", 60, true)), EntryRoute::Tachometer);
    match consider_entry(&g29, 0, false, unready_tach(TachSource::Unset)) {
        EntryPlan::Open { route } => assert_eq!(route, EntryRoute::LogitechG29),
        _ => panic!("open"),
    }
}

#[test]
fn revburner_open_outcomes() {
    let mut e = entry("usb", 30, true);
    e.config = Some("t.xml");
    let prep = tach_from_file("t.xml", Some(XML), Some(1), false);
    let live = revburner_considered(&e, 2, prep.clone(), OpenedHid::Live);
    assert_eq!(live.port, PortState::Live);
    let device = live.prepared.unwrap().device;
    assert_eq!(device.id(), 2);
    assert_eq!(device.fps(), 30);
    assert_eq!(device.config_file(), Some("t.xml"));
    assert_eq!(live.notices.len(), 3);
    assert_eq!(live.notices[2].message, MSG_INIT_REVBURNER);
    let gone = revburner_considered(&e, 2, prep, OpenedHid::Missing);
    assert!(gone.prepared.is_none() && gone.port == PortState::Closed && !gone.tach.active);
    assert_eq!(gone.notices.len(), 6);
    assert_eq!(gone.notices[4].level, Level::Warn);
    assert_eq!(build_device(&e, 0).device.fps(), 30);
}

#[test]
fn play_loop_starts_stops_and_quits() {
    let searching = PlayLoop::new(false);
    let (mapping, out) = play_step(searching, seen(true, 2), QuitAction::Continue, None, 0, false, 60);
    assert_eq!(mapping.phase, PlayPhase::Mapping);
    assert_eq!(mapping.wait_ms, MAPPING_START_MS);
    assert_eq!(mapping.sim_exe, 7);
    assert_eq!(out.advance, Advance::BeginMapping { open_publish: false, use_udp: false });
    let (next, out) = play_step(mapping, seen(true, 2), QuitAction::Continue, None, 1, false, 60);
    assert_eq!(out.advance, Advance::MapLive);
    assert_eq!(next.wait_ms, 17);
    let (stopped, out) = play_step(next, seen(false, 0), QuitAction::Continue, None, 1, false, 60);
    assert_eq!(stopped.phase, PlayPhase::Searching);
    assert_eq!(out.advance, Advance::StopMapping { user_stopped: false });
    let (released, out) = play_step(next, seen(true, 2), QuitAction::Release, None, 1, false, 60);
    assert_eq!(out.quit, QuitOutcome::Release);
    assert_eq!(out.advance, Advance::FinishRelease { log_stopped: true });
    assert!(released.user_stopped && !released.releasing);
    assert_eq!(released.wait_ms, CHECK_INTERVAL_MS);
    let (held, _) = play_step(released, seen(true, 2), QuitAction::Continue, None, 0, false, 60);
    assert_eq!(held.phase, PlayPhase::Searching);
    let (exit, out) = play_step(next, seen(true, 2), QuitAction::Exit, Some(ControlEffect::Reload), 1, false, 60);
    assert_eq!(exit.phase, PlayPhase::Exiting);
    assert_eq!(out.quit, QuitOutcome::Exit { release_devices: true });
    assert_eq!(out.control, ControlOutcome::Nothing);
    let (reload, co) = control_step(next, Some(ControlEffect::Reload), 1);
    assert_eq!(co, ControlOutcome::Reload { was_mapping: true });
    assert_eq!(reload.phase, PlayPhase::Searching);
    let (_, qo) = quit_step(searching, QuitAction::Exit, 3);
    assert_eq!(qo, QuitOutcome::Exit { release_devices: false });
    let mut udp = seen(true, 2);
    udp.uses_udp = true;
    let (m, a) = advance_step(searching, udp, false, 60);
    assert_eq!(a, Advance::BeginMapping { open_publish: false, use_udp: true });
    assert_eq!(m.wait_ms, CHECK_INTERVAL_MS);
}

#[test]
fn test_plan_reads_tyre_settings_and_selects_an_index() {
    let slip = DeviceEntry {
        device: Some("Sound"),
        device_type: Some("Haptic"),
        subtype: None,
        enabled: Some(true),
        effect: Some("TyreSlip"),
        config: None,
        granularity: None,
        fps: None,
        threshold_bits: Some(0.2f64.to_bits()),
        tyre: Some("All"),
    };
    let mut usb = entry("Tachometer", 60, false);
    usb.device = Some("USB");
    let entries = [slip, usb];
    let TestPlan::Ready { subjects, device_index } = test_plan(Some(&entries), -1, false) else {
        panic!("profile");
    };
    assert!(device_index.is_none());
    assert_eq!(subjects.len(), 2);
    assert!(subjects[0].active);
    assert_eq!(subjects[0].kind, DeviceKind::Sound);
    assert_eq!(subjects[0].tyre, names::TYRE_ALL_FOUR);
    assert_eq!(f64::from_bits(subjects[0].threshold_bits), 0.2);
    assert!(!subjects[1].active);
    let TestPlan::Ready { subjects, device_index } = test_plan(Some(&entries), 1, false) else {
        panic!("index");
    };
    assert_eq!(device_index, Some(1));
    assert!(subjects[0].active);
    assert!(matches!(test_plan(Some(&entries), 4, false), TestPlan::MissingIndex));
    assert!(matches!(test_plan(None, -1, false), TestPlan::Empty));
    assert!(!subject_from(&entries[0], true, false).active);
}

#[test]
fn test_script_announces_each_subject() {
    let lights = TestSubject { kind: DeviceKind::Usb, effect: None, active: true, threshold_bits: 0, tyre: 0 };
    let lines = script_lines(&[lights], None);
    let texts: Vec<String> = lines
        .iter()
        .map(|l| match l {
            ScriptLine::Step(s) => s.clone(),
            ScriptLine::SlipReading => String::new(),
        })
        .collect();
    assert_eq!(texts[0], preparing(1));
    assert_eq!(texts[1], named(MSG_STARTING, LABEL_USB_LIGHTS));
    assert_eq!(texts.len(), 14);
    assert_eq!(texts[1..].to_vec(), light_script(LABEL_USB_LIGHTS));
    assert_eq!(light_script("wheel")[12], named(MSG_FINISHED, "wheel"));
    assert_eq!(light_script("wheel")[11], step(MSG_COAST));
    let engine = TestSubject { kind: DeviceKind::Sound, effect: Some(names::EFFECT_ENGINE), active: true, threshold_bits: 0, tyre: 0 };
    assert_eq!(device_label(&engine), LABEL_EFFECT);
    let slip = TestSubject { kind: DeviceKind::Usb, effect: Some(names::EFFECT_TYRE_SLIP), active: true, threshold_bits: 0, tyre: 0 };
    let slip_lines = script_lines(&[slip], Some(0));
    assert!(matches!(slip_lines[2], ScriptLine::Step(_)));
    assert!(matches!(slip_lines[3], ScriptLine::SlipReading));
    let off = TestSubject { active: false, ..lights };
    assert_eq!(script_lines(&[off], None).len(), 1);
}

#[test]
fn moza_checksums_of_short_frames() {
    assert_eq!(wire_checksum_exec(&vec![]), 0x0d);
    assert_eq!(wire_checksum_exec(&vec![0x7e, 0x7e]), 0x09);
    assert_eq!(wire_checksum_exec(&vec![0x7e, 0x01, 0x7e]), 0x88);
}

#[test]
fn an_ascii_gear_text_reads_back() {
    let mut t = Telemetry::new();
    let before = t.rpms();
    t.set_gearc("N");
    assert_eq!(t.gearc(), "N");
    t.set_gearc("R12");
    assert_eq!(t.gearc(), "R12");
    t.set_gearc("ABCD");
    assert_eq!(t.gearc(), "ABC");
    assert_eq!(t.rpms(), before);
}


#[test]
fn lights_test_ticks_and_frame_pulses() {
    let lights = TestSubject { kind: DeviceKind::Usb, effect: None, active: true, threshold_bits: 0, tyre: 0 };
    let up = sweep_rpms(RPM_IDLE, RPM_MAX);
    assert_eq!(up.len(), 141);
    assert_eq!(up[0], 1000);
    assert_eq!(up[140], 8000);
    assert_eq!(sweep_rpms(RPM_MAX, RPM_IDLE)[1], 7950);
    assert_eq!(next_rpm(7990, 8000), 8000);
    assert_eq!(subject_ticks(&lights), 282 + 187 * 9 + 62);
    let gear = TestSubject { effect: Some(names::EFFECT_GEAR), ..lights };
    assert_eq!(subject_ticks(&gear), 187 * 4 + 62);
    assert_eq!(subject_ticks(&TestSubject { active: false, ..lights }), 0);
    assert_eq!(gear_pulse(7, 2), 2);
    assert_eq!(gear_pulse(8, 2), 1);
    assert_eq!(gear_pulse(16, 2), 2);
    assert_eq!(f64::from_bits(abs_slip_bits(1)), 0.40);
    assert_eq!(f64::from_bits(abs_slip_bits(2)), 0.72);
    assert_eq!(f64::from_bits(suspension_bits(3)), 18.0);
    assert_eq!(f64::from_bits(suspension_bits(4)), 2.0);
}
