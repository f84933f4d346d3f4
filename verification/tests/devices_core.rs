use cargopit::clock::{Clock, VirtualClock, WallStamp, MS_PER_DAY};
use cargopit::device::{tick_interval_ms, DeviceKind, SimDevice, DEFAULT_DEVICE_FPS};
use cargopit::haptic::VibrationEffect;
use cargopit::lua_host::{
    blank_leds, clear_count, led_limit, named_rgb, packed_rgb, paint_one, paint_range, registers_clear_range,
    script_mtick, LuaLedMode, COLOR_GREEN, COLOR_ORANGE, COLOR_RED, COLOR_YELLOW, LED_FULL, RGB_CHANNELS,
};
use cargopit::serial::{
    haptic_stop_packet, parse_simled_count, shiftlights_byte, simled_blank, simled_count_query, simled_count_text,
    simled_report, SerialHapticPacket, SimLedCount, HAPTIC_LOG_MOTOR_THREE, HAPTIC_MOTOR_FLAG, HEADER_MARKS,
    LED_FIRST, MARK_BYTE, MOTOR_1, MOTOR_FRONT_AXLE, SIMLED_END_ALL,
};
use cargopit::transport::{pulse_outcome, FakeHid, FakePulse, FakeSerial, FakeSysfs, PulseOutcome};
use cargopit::usb::{
    csl_from_glob, CslLocate, c12_led_reports, c12_report_for_percent, c5_report, csl_rumble_text, csl_rumble_value, g29_report_for_leds,
    gt_neo_color_len, gt_neo_reports, lookup_tach_pulses, p1000_init_report, p1000_reports, revburner_report,
    revlights_lit, TachPulses, C12_B0, C12_B1, C12_BYTE_BLUE, C12_BYTE_GREEN, C12_BYTE_LED, C12_BYTE_MARK0,
    C12_BYTE_MARK1, C12_BYTE_MARK2, C12_BYTE_RED, C12_LED_FIRST, C12_LED_LEN, C12_LED_MODE, C12_LED_NUMBER_OFFSET,
    C12_LED_TOTAL, CSL_RUMBLE_ABS, CSL_RUMBLE_LOCK, CSL_RUMBLE_OFF, CSL_RUMBLE_SLIP, GRANULARITY_DIRECT,
    GT_NEO_BYTE_ACTION, GT_NEO_BYTE_CONTROL, GT_NEO_BYTE_COUNT, GT_NEO_BYTE_LED, GT_NEO_BYTE_REPORT, GT_NEO_CONTROL,
    GT_NEO_LEDS, GT_NEO_PAYLOAD, GT_NEO_PREPARE, GT_NEO_PREPARE_COUNT, GT_NEO_REPORT, GT_NEO_SET, LED_STRIDE,
    P1000_BYTE_CMD, P1000_BYTE_FLAG0, P1000_BYTE_FLAG2, P1000_BYTE_INIT0, P1000_BYTE_INIT1, P1000_BYTE_KIND,
    P1000_BYTE_MARK, P1000_CLEARED, P1000_CMD_ACTIVE, P1000_CMD_IDLE, P1000_CMD_INIT, P1000_FLAG2, P1000_INIT_A,
    P1000_INIT_B, P1000_INIT_MODE, P1000_KIND_LOCK, P1000_KIND_SLIP, P1000_MARK, REVBURNER_LEN,
    REVBURNER_PULSE_HIGH, REVBURNER_PULSE_LOW,
};

#[test]
fn virtual_clock_advances_in_milliseconds() {
    let mut clock = VirtualClock::new();
    clock.advance_us(16_000);
    assert_eq!(clock.monotonic_us(), 16_000);
    assert_eq!(clock.monotonic_ms(), 16);
    assert_eq!(clock.monotonic_ns(), 16_000_000);
    assert_eq!(clock.wall_ms(), 16);
}

#[test]
fn unix_epoch_is_the_civil_start() {
    let stamp = WallStamp::from_unix_ms(0);
    assert_eq!(stamp.year, 1970);
    assert_eq!(stamp.month, 1);
    assert_eq!(stamp.day, 1);
    assert_eq!(stamp.hour, 0);
    assert_eq!(stamp.millis, 0);
    let next = WallStamp::from_unix_ms(MS_PER_DAY + 1);
    assert_eq!(next.day, 2);
    assert_eq!(next.millis, 1);
}

#[test]
fn civil_dates_cross_leap_years_and_centuries() {
    let leap = WallStamp::from_unix_ms(951_782_400_000 + 3_723_004);
    assert_eq!((leap.year, leap.month, leap.day), (2000, 2, 29));
    assert_eq!((leap.hour, leap.minute, leap.second, leap.millis), (1, 2, 3, 4));
    let new_year = WallStamp::from_unix_ms(1_704_067_200_000);
    assert_eq!((new_year.year, new_year.month, new_year.day), (2024, 1, 1));
    let virtual_clock = VirtualClock::new();
    assert_eq!(virtual_clock.wall_stamp(), WallStamp::from_unix_ms(0));
}

#[test]
fn a_century_that_is_not_a_leap_year_skips_february_29() {
    let last = WallStamp::from_unix_ms(4_107_542_399_999);
    assert_eq!((last.year, last.month, last.day), (2100, 2, 28));
    assert_eq!((last.hour, last.minute, last.second, last.millis), (23, 59, 59, 999));
    let next = WallStamp::from_unix_ms(4_107_542_400_000);
    assert_eq!((next.year, next.month, next.day), (2100, 3, 1));
}

#[test]
fn default_fps_interval_is_sixteen_milliseconds() {
    let device = SimDevice::new(1, DEFAULT_DEVICE_FPS, DeviceKind::Sound);
    assert_eq!(device.interval_ms(), 16);
    assert_eq!(tick_interval_ms(0), 16);
}

const SAMPLE_RPM: u32 = 4_000;
const SAMPLE_MAX_RPM: u32 = 8_000;

#[test]
fn shiftlights_byte_counts_leds_up_to_the_redline() {
    assert_eq!(shiftlights_byte(SAMPLE_RPM, SAMPLE_MAX_RPM, 6), 3);
    assert_eq!(shiftlights_byte(0, SAMPLE_MAX_RPM, 6), 0);
    assert_eq!(shiftlights_byte(SAMPLE_RPM, SAMPLE_MAX_RPM, 0), 0);
}

#[test]
fn revlights_cap_at_the_step_count() {
    assert_eq!(revlights_lit(7_600, 8_000, 10), 10);
    assert_eq!(revlights_lit(8_000, 8_000, 10), 10);
    assert_eq!(revlights_lit(760, 8_000, 10), 1);
    assert_eq!(revlights_lit(759, 8_000, 10), 0);
    assert_eq!(revlights_lit(100, 5, 10), 10);
    assert_eq!(revlights_lit(-1, 8_000, 10), 0);
}

#[test]
fn haptic_stop_packet_enables_every_motor() {
    assert_eq!(
        haptic_stop_packet(),
        [HAPTIC_MOTOR_FLAG, 0, HAPTIC_MOTOR_FLAG, 0, HAPTIC_MOTOR_FLAG, 0, HAPTIC_MOTOR_FLAG, 0]
    );
}

#[test]
fn haptic_keeps_effect_bytes_when_play_is_unchanged() {
    let mut state = SerialHapticPacket::new();
    let first = state.step(Some(255), MOTOR_1);
    assert_eq!(first.packet, [HAPTIC_MOTOR_FLAG, 255, 0, 0, 0, 0, 0, 0]);
    assert_eq!(first.channels[0].map(|channel| channel.speed), Some(255));
    let held = state.step(None, MOTOR_1);
    assert_eq!(held.packet, [0, 255, 0, 0, 0, 0, 0, 0]);
    assert!(held.channels.iter().all(Option::is_none));
}

#[test]
fn haptic_default_motor_enables_no_channel() {
    let mut state = SerialHapticPacket::new();
    let step = state.step(Some(255), 1);
    assert_eq!(step.packet, [0; 8]);
    assert!(step.channels.iter().all(Option::is_none));
}

#[test]
fn haptic_front_axle_sets_both_channels() {
    let mut state = SerialHapticPacket::new();
    let step = state.step(Some(255), MOTOR_FRONT_AXLE);
    assert_eq!(step.packet, [HAPTIC_MOTOR_FLAG, 255, 0, 0, HAPTIC_MOTOR_FLAG, 255, 0, 0]);
    assert_eq!(step.channels[1].map(|channel| channel.motor), Some(HAPTIC_LOG_MOTOR_THREE));
}

#[test]
fn haptic_return_to_zero_still_flags_the_motor() {
    let mut state = SerialHapticPacket::new();
    let active = state.step(Some(102), MOTOR_1);
    assert_eq!(active.packet, [HAPTIC_MOTOR_FLAG, 102, 0, 0, 0, 0, 0, 0]);
    let idle = state.step(Some(0), MOTOR_1);
    assert_eq!(idle.packet, [HAPTIC_MOTOR_FLAG, 0, 0, 0, 0, 0, 0, 0]);
}

const SLED_TAG: &[u8] = b"sleds";
const LED_PACKET_TAIL: [u8; 3] = [0xff, 0xfe, 0xfd];

#[test]
fn simled_report_paints_green_then_the_last_led_red() {
    const TOTAL: i32 = 8;
    const LIT: i32 = 4;
    let report = simled_report(4_000, 8_000, TOTAL, LED_FIRST, TOTAL).expect("span");
    assert_eq!(report.lit, LIT);
    let mut expected = vec![MARK_BYTE; HEADER_MARKS];
    expected.extend_from_slice(SLED_TAG);
    for led in 0..TOTAL {
        if led < LIT {
            expected.extend_from_slice(&[0, MARK_BYTE, 0]);
        } else {
            expected.extend_from_slice(&[0, 0, 0]);
        }
    }
    expected.extend_from_slice(&LED_PACKET_TAIL);
    assert_eq!(report.bytes, expected);
}

#[test]
fn simled_endled_zero_uses_every_led() {
    let all = simled_report(8_000, 8_000, 8, LED_FIRST, SIMLED_END_ALL).expect("all");
    let explicit = simled_report(8_000, 8_000, 8, LED_FIRST, 8).expect("explicit");
    assert_eq!(all.bytes, explicit.bytes);
}

#[test]
fn simled_without_leds_does_not_build_a_frame() {
    assert!(simled_report(4_000, 8_000, 0, LED_FIRST, SIMLED_END_ALL).is_none());
}

#[test]
fn simled_blank_clears_the_color_bytes() {
    let blank = simled_blank(8).expect("blank");
    let dark = simled_report(0, 8_000, 8, LED_FIRST, 8).expect("dark");
    assert_eq!(dark.lit, 0);
    assert_eq!(blank, dark.bytes);
}

#[test]
fn simled_count_query_is_the_ledsc_packet() {
    let query = simled_count_query();
    assert_eq!(&query[..HEADER_MARKS], &[MARK_BYTE; HEADER_MARKS]);
    assert_eq!(&query[HEADER_MARKS..], b"ledsc");
}

#[test]
fn simled_count_parser_matches_strtol() {
    assert!(matches!(parse_simled_count(b"8\r"), SimLedCount::Count(8)));
    assert!(matches!(parse_simled_count(b"0"), SimLedCount::Count(0)));
    assert!(matches!(parse_simled_count(b" 8\n"), SimLedCount::Count(8)));
    assert!(matches!(parse_simled_count(b"8\0junk"), SimLedCount::Count(8)));
    assert!(matches!(parse_simled_count(b"2147483647"), SimLedCount::Count(i32::MAX)));
    assert!(matches!(parse_simled_count(b""), SimLedCount::Waiting));
    assert!(matches!(parse_simled_count(b"nope"), SimLedCount::Invalid));
    assert!(matches!(parse_simled_count(b"-1"), SimLedCount::Invalid));
    assert!(matches!(parse_simled_count(b"8x"), SimLedCount::Invalid));
    assert!(matches!(parse_simled_count(b"2147483648"), SimLedCount::Invalid));
    assert_eq!(simled_count_text(b"nope"), "nope");
}

#[test]
fn a_printed_count_with_its_line_end_reads_back() {
    for count in [0_i32, 7, 10, 144, 1234, i32::MAX] {
        for end in ["", "\r", "\n", "\r\n", "\r\n\n"] {
            let reply = format!("{count}{end}");
            assert_eq!(parse_simled_count(reply.as_bytes()), SimLedCount::Count(count));
        }
    }
}

#[test]
fn simled_count_text_replaces_invalid_utf8() {
    assert_eq!(simled_count_text(b"8\xff"), "8\u{fffd}");
    assert_eq!(simled_count_text(b"ab\0cd"), "ab");
}

#[test]
fn revburner_report_packs_pulses_like_the_c_update() {
    let idle = [10u32, 20];
    let sample = lookup_tach_pulses(0, 7, 1, &idle, false).expect("idle");
    assert_eq!(sample.pulses(), 10);
    let indexed = lookup_tach_pulses(1000, 7, 1, &idle, false).expect("index");
    assert!(matches!(indexed, TachPulses::Indexed { element: 1, .. }));
    let direct = lookup_tach_pulses(1000, 7, GRANULARITY_DIRECT, &idle, false).expect("direct");
    assert!(matches!(direct, TachPulses::Indexed { element: 1, .. }));
    let from_frame = lookup_tach_pulses(1000, 7, 1, &idle, true).expect("frame");
    assert_eq!(from_frame.pulses(), 7);
    assert!(lookup_tach_pulses(0, 0, 1, &[], false).is_none());
    let report = revburner_report(0x0102);
    assert_eq!(report[REVBURNER_PULSE_LOW], 0x02);
    assert_eq!(report[REVBURNER_PULSE_HIGH], 0x01);
    assert_eq!(revburner_report(0), [0; REVBURNER_LEN]);
}

#[test]
fn c12_led_reports_start_at_the_shift_lights() {
    let total = C12_LED_TOTAL;
    let mut colors = vec![0u8; total * 3];
    let first = C12_LED_FIRST * 3;
    let last = (total - 1) * 3;
    colors[first] = 0xff;
    colors[last + 2] = 0xff;
    let reports = c12_led_reports(&colors);
    assert_eq!(reports.len(), total - C12_LED_FIRST);
    assert_eq!(reports[0][C12_BYTE_MARK0], C12_B0);
    assert_eq!(reports[0][C12_BYTE_MARK1], C12_B1);
    assert_eq!(reports[0][C12_BYTE_MARK2], C12_LED_MODE);
    assert_eq!(reports[0][C12_BYTE_LED], u8::try_from(C12_LED_FIRST + C12_LED_NUMBER_OFFSET).unwrap_or(u8::MAX));
    assert_eq!(reports[0][C12_BYTE_RED], 0xff);
    assert_eq!(reports[0][C12_BYTE_GREEN], 0);
    assert_eq!(reports[0][C12_BYTE_BLUE], 0);
    let tail = reports.len() - 1;
    assert_eq!(reports[tail][C12_BYTE_BLUE], 0xff);
    assert_eq!(reports[tail][C12_BYTE_LED], u8::try_from(total).unwrap_or(u8::MAX));
    assert_eq!(reports[0].len(), C12_LED_LEN);
}

#[test]
fn gt_neo_feature_reports_pack_every_led() {
    let mut colors = vec![0u8; gt_neo_color_len()];
    colors[0] = 0xff;
    let reports = gt_neo_reports(&colors);
    assert!(reports.len() > 1);
    assert_eq!(reports[0][GT_NEO_BYTE_REPORT], GT_NEO_REPORT);
    assert_eq!(reports[0][GT_NEO_BYTE_CONTROL], GT_NEO_CONTROL);
    assert_eq!(reports[0][GT_NEO_BYTE_ACTION], GT_NEO_PREPARE);
    assert_eq!(reports[0][GT_NEO_BYTE_COUNT], GT_NEO_PREPARE_COUNT);
    assert_eq!(reports[1][GT_NEO_BYTE_ACTION], GT_NEO_SET);
    assert_eq!(reports[1][GT_NEO_BYTE_LED], 0);
    assert_eq!(reports[1][GT_NEO_BYTE_LED + 1], 0xff);
    let room = (GT_NEO_PAYLOAD - 1 - GT_NEO_BYTE_LED) / LED_STRIDE;
    let chunks = GT_NEO_LEDS.div_ceil(room);
    assert_eq!(reports.len(), chunks + 1);
}

#[test]
fn csl_rumble_values_follow_the_effect() {
    assert_eq!(csl_rumble_value(VibrationEffect::TyreSlip, true), CSL_RUMBLE_SLIP);
    assert_eq!(csl_rumble_value(VibrationEffect::TyreLock, true), CSL_RUMBLE_LOCK);
    assert_eq!(csl_rumble_value(VibrationEffect::AbsBrakes, true), CSL_RUMBLE_ABS);
    assert_eq!(csl_rumble_value(VibrationEffect::TyreSlip, false), CSL_RUMBLE_OFF);
    assert_eq!(csl_rumble_value(VibrationEffect::Suspension, true), CSL_RUMBLE_OFF);
    assert_eq!(csl_rumble_text(VibrationEffect::TyreSlip, true), format!("{CSL_RUMBLE_SLIP}\n"));
}

#[test]
fn p1000_reports_follow_the_effect() {
    let init = p1000_init_report();
    assert_eq!(init[P1000_BYTE_MARK], P1000_MARK);
    assert_eq!(init[P1000_BYTE_CMD], P1000_CMD_INIT);
    assert_eq!(init[P1000_BYTE_KIND], P1000_INIT_MODE);
    assert_eq!(init[P1000_BYTE_INIT0], P1000_INIT_A);
    assert_eq!(init[P1000_BYTE_INIT1], P1000_INIT_B);
    let slip = p1000_reports(VibrationEffect::TyreSlip, true);
    assert_eq!(slip.len(), 1);
    assert_eq!(slip[0][P1000_BYTE_CMD], P1000_CMD_ACTIVE);
    assert_eq!(slip[0][P1000_BYTE_KIND], P1000_KIND_SLIP);
    assert_eq!(slip[0][P1000_BYTE_FLAG2], P1000_FLAG2);
    let lock = p1000_reports(VibrationEffect::TyreLock, true);
    assert_eq!(lock[0][P1000_BYTE_KIND], P1000_KIND_LOCK);
    let abs = p1000_reports(VibrationEffect::AbsBrakes, true);
    assert_eq!(abs.len(), 2);
    assert_eq!(abs[0][P1000_BYTE_KIND], P1000_KIND_SLIP);
    assert_eq!(abs[1][P1000_BYTE_KIND], P1000_KIND_LOCK);
    let idle = p1000_reports(VibrationEffect::TyreSlip, false);
    assert_eq!(idle.len(), 2);
    assert_eq!(idle[0][P1000_BYTE_CMD], P1000_CMD_IDLE);
    assert_eq!(idle[0][P1000_BYTE_KIND], P1000_KIND_LOCK);
    assert_eq!(idle[1][P1000_BYTE_KIND], P1000_KIND_SLIP);
    assert_eq!(idle[0][P1000_BYTE_FLAG0], P1000_CLEARED);
    assert!(p1000_reports(VibrationEffect::Suspension, true).is_empty());
}

#[test]
fn cammus_reports_pack_velocity_and_gear() {
    let c5 = c5_report(6_000, 7_000, 4, 300);
    assert_eq!(&c5[..5], &[0xfc, 0x09, 0x01, 0x2c, 0x03]);
    let c12 = c12_report_for_percent(Some(86), 4, 300);
    assert_eq!(&c12[..7], &[0xfa, 0xfb, 0xd4, 0x56, 0x2c, 0x01, 0x03]);
    let idle = c12_report_for_percent(None, 0, 0);
    assert_eq!(&idle[..7], &[0xfa, 0xfb, 0xd4, 0, 0, 0, 0xff]);
    assert_eq!(g29_report_for_leds(0b11111), [0xf8, 0x12, 0x1f, 0, 0, 0, 0x01]);
}

#[test]
fn fake_transports_record_writes() {
    let mut hid = FakeHid::default();
    hid.open(0x046d, 0xc24f).unwrap();
    let report = [0u8, 1, 2, 3];
    assert_eq!(hid.write(&report).unwrap(), report.len());
    hid.send_feature(&report).unwrap();
    hid.close();
    assert_eq!(hid.log[1].op, "hid_write");
    assert_eq!(hid.log[1].bytes, report);
    let mut serial = FakeSerial::default();
    serial.open("/dev/ttyACM0", 115_200).unwrap();
    serial.write(b"leds").unwrap();
    assert_eq!(serial.log[1].bytes, b"leds");
    let mut sysfs = FakeSysfs::default();
    sysfs.write("/sys/module/hid_fanatec/rumble", b"0\n").unwrap();
    assert_eq!(sysfs.log[0].op, "sysfs_write");
    let mut pulse = FakePulse::default();
    pulse.open().unwrap();
    pulse.lock();
    pulse.set_mute(true).unwrap();
    let pcm = vec![0u8; 8];
    pulse.write(&pcm).unwrap();
    pulse.unlock();
    assert!(pulse.log.iter().any(|record| record.op == "pa_stream_write"));
}

#[test]
fn pulse_outcomes_follow_the_context_state() {
    assert_eq!(pulse_outcome(None), PulseOutcome::ConnectFailed);
    assert_eq!(pulse_outcome(Some(4)), PulseOutcome::Ready);
    assert_eq!(pulse_outcome(Some(5)), PulseOutcome::ContextFailed { state: 5 });
    assert_eq!(pulse_outcome(Some(6)), PulseOutcome::ContextFailed { state: 6 });
    assert_eq!(pulse_outcome(Some(2)), PulseOutcome::ConnectFailed);
}

#[test]
fn serial_led_clear_range_clears_every_led() {
    let mut leds = blank_leds(4);
    paint_one(&mut leds, led_limit(4), 1, named_rgb(COLOR_RED as i32));
    assert_eq!(&leds[..3], &[LED_FULL, 0, 0]);
    assert!(registers_clear_range(LuaLedMode::Serial));
    assert!(!registers_clear_range(LuaLedMode::Usb));
    clear_count(&mut leds, led_limit(4));
    assert!(leds.iter().all(|byte| *byte == 0));
}

#[test]
fn lua_led_calls_paint_only_leds_in_range() {
    let mut leds = blank_leds(8);
    assert_eq!(leds.len(), 8 * RGB_CHANNELS);
    paint_one(&mut leds, 8, 1, named_rgb(COLOR_GREEN as i32));
    assert_eq!(&leds[..3], &[0, LED_FULL, 0]);
    paint_one(&mut leds, 8, 9, named_rgb(COLOR_RED as i32));
    paint_one(&mut leds, 8, 0, named_rgb(COLOR_RED as i32));
    assert_eq!(&leds[3..], &[0u8; 21][..]);
    paint_range(&mut leds, 8, 7, 12, packed_rgb(0x123456));
    assert_eq!(&leds[18..24], &[0x12, 0x34, 0x56, 0x12, 0x34, 0x56]);
    assert_eq!(named_rgb(COLOR_YELLOW as i32), [LED_FULL, LED_FULL, 0]);
    assert_eq!(named_rgb(COLOR_ORANGE as i32), [LED_FULL, 165, 0]);
    assert_eq!(named_rgb(9), [0, 0, 0]);
    assert_eq!(led_limit(-3), 0);
    assert_eq!(led_limit(i64::from(i32::MAX) + 1), 0);
    assert_eq!(script_mtick(0, 16), 16);
    assert_eq!(script_mtick(5, 16), 5);
}

#[test]
fn the_csl_glob_tells_missing_pedals_from_a_denied_directory() {
    let path = "/sys/module/hid_fanatec/drivers/hid:fanatec/0003:0EB7:183B.0001/rumble";
    assert!(matches!(csl_from_glob(true, Some(path.to_string())), CslLocate::Permission));
    assert!(matches!(csl_from_glob(false, None), CslLocate::Missing));
    assert!(matches!(csl_from_glob(false, Some(String::new())), CslLocate::Missing));
    match csl_from_glob(false, Some(path.to_string())) {
        CslLocate::Found(found) => assert_eq!(found, path),
        other => panic!("expected the path, got {other:?}"),
    }
}

#[test]
fn simled_single_available_led_is_red() {
    const TOTAL: i32 = 6;
    const ONE: i32 = 1;
    const SAMPLE_RPM: u32 = 8_000;
    const SLED_TAG_LEN: usize = 5;
    const GREEN_CHANNEL: usize = 1;
    let report = simled_report(SAMPLE_RPM, SAMPLE_RPM, TOTAL, ONE, ONE).expect("one");
    assert_eq!(report.lit, ONE);
    assert_eq!(report.bytes[HEADER_MARKS + SLED_TAG_LEN], MARK_BYTE);
    assert_eq!(report.bytes[HEADER_MARKS + SLED_TAG_LEN + GREEN_CHANNEL], 0);
}
