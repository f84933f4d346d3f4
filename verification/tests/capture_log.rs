use cargopit::capture::{query_led_count, CaptureLog, CAPTURE_PORT};
use cargopit::serial::simled_count_query;

#[test]
fn trace_lines_carry_the_frame_and_the_milliseconds() {
    let mut log = CaptureLog::new();
    log.op("glob", "/sys/x");
    log.set_tick(2);
    log.advance_tick();
    log.bytes("sysfs_value", &[0x30, 0x0a]);
    assert_eq!(log.text(), "tick 0 t_ms 1000 glob /sys/x\ntick 2 t_ms 1016 sysfs_value 300a\n");
}

#[test]
fn hid_handles_are_numbered_and_ids_are_hexadecimal() {
    let mut log = CaptureLog::new();
    let first = log.hid_open(0x046d, 0xc24f);
    let second = log.hid_open(0x3416, 0x1021);
    assert_eq!((first, second), (1, 2));
    log.hid_write(second, &[0xab, 0x01]);
    log.hid_close(second);
    assert_eq!(
        log.text(),
        "tick 0 t_ms 1000 hid_init \n\
         tick 0 t_ms 1000 hid_open id=1 vid=0x046d pid=0xc24f\n\
         tick 0 t_ms 1000 hid_init \n\
         tick 0 t_ms 1000 hid_open id=2 vid=0x3416 pid=0x1021\n\
         tick 0 t_ms 1000 hid_write id=2 ab01\n\
         tick 0 t_ms 1000 hid_close id=2\n\
         tick 0 t_ms 1000 hid_exit \n"
    );
}

#[test]
fn a_shared_port_is_freed_by_its_last_user() {
    let mut log = CaptureLog::new();
    let first = log.open_port(CAPTURE_PORT, 9_600);
    let again = log.open_port("/DEV/TTYPARITY0", 115_200);
    assert_eq!(first, again);
    log.close_port(first);
    let opened = log.text();
    assert_eq!(
        opened,
        "tick 0 t_ms 1000 sp_get_port_by_name /dev/ttyPARITY0\n\
         tick 0 t_ms 1000 sp_open port=/dev/ttyPARITY0\n\
         tick 0 t_ms 1000 sp_set_baudrate port=/dev/ttyPARITY0 baud=9600\n"
    );
    log.close_port(first);
    assert!(log.text().ends_with(
        "tick 0 t_ms 1000 sp_close /dev/ttyPARITY0\ntick 0 t_ms 1000 sp_free_port /dev/ttyPARITY0\n"
    ));
    log.close_port(first);
    let reopened = log.open_port(CAPTURE_PORT, 115_200);
    assert_eq!(reopened, 1);
}

#[test]
fn a_strip_asked_for_its_count_answers_once() {
    let mut log = CaptureLog::new();
    let id = log.open_port(CAPTURE_PORT, 115_200);
    assert!(log.read_port(id).is_empty());
    log.write_port(id, &simled_count_query());
    assert_eq!(log.read_port(id), b"8\r".to_vec());
    assert!(log.read_port(id).is_empty());
    assert!(log.text().contains("sp_blocking_read 380d\n"));
    assert!(log.text().ends_with("sp_blocking_read empty\n"));
}

#[test]
fn traced_clock_reads_are_lines_too() {
    let mut log = CaptureLog::new();
    assert_eq!(log.traced_monotonic_ns(), 1_000_000_000);
    assert_eq!(log.traced_wall_ms(), 1_000);
    assert_eq!(
        log.text(),
        "tick 0 t_ms 1000 clock_gettime clk=1 ns=1000000000\ntick 0 t_ms 1000 gettimeofday virtual\n"
    );
}

#[test]
fn a_sound_stream_opens_writes_and_closes() {
    let mut log = CaptureLog::new();
    log.pa_open("Engine", "parity-shaker");
    log.pa_write(&[0x00, 0x7f]);
    log.pa_close();
    let text = log.text();
    assert!(text.starts_with("tick 0 t_ms 1000 pa_threaded_mainloop_new \ntick 0 t_ms 1000 pa_context_new Cargopit\n"));
    assert!(text.contains("pa_stream_new Engine\n"));
    assert!(text.contains("pa_stream_connect_playback parity-shaker\n"));
    assert!(text.contains("pa_context_set_sink_input_mute index=1 mute=0\n"));
    assert!(text.contains("pa_stream_write 007f\n"));
    assert!(text.ends_with("pa_threaded_mainloop_free \n"));
}

#[test]
fn the_led_count_query_waits_asks_waits_and_reads() {
    let mut log = CaptureLog::new();
    let id = log.open_port(CAPTURE_PORT, 115_200);
    let opened = log.text();
    assert_eq!(query_led_count(&mut log, id), Some(8));
    let text = log.text();
    assert_eq!(
        &text[opened.len()..],
        "tick 0 t_ms 1000 sp_wait timeout_ms=5000\n\
         tick 0 t_ms 1000 sp_blocking_write port=/dev/ttyPARITY0 ffffffffffff6c65647363\n\
         tick 0 t_ms 1000 sp_wait timeout_ms=5000\n\
         tick 0 t_ms 1000 sp_blocking_read 380d\n"
    );
}
