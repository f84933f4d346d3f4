//! Hardware-test announcements and tick arithmetic.
use vstd::prelude::*;
use crate::text::{dec, dec_int, push_i64, push_str, push_u64, string_of};

verus! {

pub const TICK_US: u64 = 16_000;
pub const US_PER_MS: u64 = 1000;
pub const STEP_PREFIX: &'static str = "test step: ";
pub const MSG_PREPARING: &'static str = "preparing test with";
pub const MSG_STARTING: &'static str = "Starting";
pub const MSG_FINISHED: &'static str = "Finished";
pub const MSG_STOPPED: &'static str = "Stopped";
pub const MSG_REV: &'static str = "Revving rpm from idle to redline and back";
pub const MSG_RPM_IDLE: &'static str = "Setting rpms to idle";
pub const MSG_COAST: &'static str = "Returning to idle";
pub const MSG_GREEN: &'static str = "Green Flag!";
pub const MSG_YELLOW: &'static str = "Yellow Flag!";
pub const MSG_BLUE: &'static str = "Blue Flag!";
pub const MSG_RED: &'static str = "Red Flag!";
pub const MSG_FIRST: &'static str = "Shifting into first gear";
pub const MSG_SECOND: &'static str = "Shifting into second gear";
pub const MSG_THIRD: &'static str = "Shifting into third gear";
pub const MSG_FOURTH: &'static str = "Shifting into fourth gear";
pub const MSG_SPEED_SLOW: &'static str = "Setting speed to 100";
pub const MSG_SPEED_FAST: &'static str = "Setting speed to 200";
pub const MSG_SPEED_TOP: &'static str = "Setting speed to 300";
pub const MSG_SPIN: &'static str = "Testing wheel spin";
pub const MSG_LOCK: &'static str = "Testing wheel lock";
pub const MSG_ABS: &'static str = "Testing ABS";
pub const MSG_BUTTONS: &'static str = "Lighting brake button LEDs";
pub const MSG_SUSPENSION: &'static str = "Testing suspension";
pub const MSG_NO_DEVICES: &'static str = "No devices loaded for test";
pub const MSG_DEVICE_INDEX: &'static str = "testing device index";
pub const LABEL_SERIAL_LIGHTS: &'static str = "serial lights";
pub const LABEL_USB_LIGHTS: &'static str = "USB lights";
pub const LABEL_DEVICE: &'static str = "device";
pub const LABEL_EFFECT: &'static str = "effect";
pub const LABEL_GEAR: &'static str = "gear";
pub const LABEL_TYRE_LOCK: &'static str = "tyre lock";
pub const LABEL_ABS: &'static str = "ABS";
pub const LABEL_TYRE_SLIP: &'static str = "tyre slip";
pub const LABEL_SUSPENSION: &'static str = "suspension";
pub const QUIT_KEY: u8 = 0x71;
pub const QUIT_KEY_UPPER: u8 = 0x51;
pub const QUIT_KEY_ESC: u8 = 0x1b;

/// `test step: preparing test with N devices...`.
pub fn preparing(device_count: usize) -> (s: String)
    ensures
        s@ == STEP_PREFIX@ + MSG_PREPARING@ + " "@ + dec(device_count as nat) + " devices..."@,
{
    let mut s = string_of(STEP_PREFIX);
    push_str(&mut s, MSG_PREPARING);
    push_str(&mut s, " ");
    push_u64(&mut s, device_count as u64);
    push_str(&mut s, " devices...");
    s
}

/// `test step: <action> <label>`.
pub fn named(action: &str, label: &str) -> (s: String)
    ensures
        s@ == STEP_PREFIX@ + action@ + " "@ + label@,
{
    let mut s = string_of(STEP_PREFIX);
    push_str(&mut s, action);
    push_str(&mut s, " ");
    push_str(&mut s, label);
    s
}

/// `test step: <message>`.
pub fn step(message: &str) -> (s: String)
    ensures
        s@ == STEP_PREFIX@ + message@,
{
    let mut s = string_of(STEP_PREFIX);
    push_str(&mut s, message);
    s
}

/// Whole 16 ms ticks in a hold.
pub fn tick_count(hold_us: u64) -> (r: u64)
    ensures
        r == hold_us / TICK_US,
{
    hold_us / TICK_US
}

/// The tick of an embedded test run, in milliseconds.
pub fn embedded_tick_ms() -> (r: u64)
    ensures
        r == 16,
{
    TICK_US / US_PER_MS
}

/// `q`, `Q` and escape end a test.
pub fn is_quit_key(byte: u8) -> (r: bool)
    ensures
        r == (byte == QUIT_KEY || byte == QUIT_KEY_UPPER || byte == QUIT_KEY_ESC),
{
    byte == QUIT_KEY || byte == QUIT_KEY_UPPER || byte == QUIT_KEY_ESC
}

/// The warning for a shared telemetry memory that would not open.
pub fn map_open_warning(error: i32) -> (s: String)
    ensures
        s@ == "Could not open shared telemetry memory for test mode (error "@ + dec_int(error as int)
            + ") - test sequence will still drive local devices, but external tools won't see it"@,
{
    let mut s = string_of("Could not open shared telemetry memory for test mode (error ");
    push_i64(&mut s, error as i64);
    push_str(&mut s, ") - test sequence will still drive local devices, but external tools won't see it");
    s
}

} // verus!
