//! Telemetry streams for the capture runs: named scenarios of `SimData`
//! frames. Floating-point fields are written as the bit patterns of their values.
use vstd::prelude::*;
use crate::simdata::{
    SimDataBuf, BOOL_SIZE, CAR_NAME_BYTES, F64_SIZE, GEAR_CHAR_BYTES, OFF_ABS, OFF_BRAKE, OFF_BRAKE_TEMP, OFF_CAR,
    OFF_COURSE_FLAG, OFF_GAS, OFF_GEAR, OFF_GEARC, OFF_IDLERPM, OFF_MAXRPM, OFF_MTICK, OFF_PLAYER_FLAG, OFF_PROXIMITY,
    OFF_PROX_RADIUS, OFF_PROX_THETA, OFF_PULSES, OFF_RPMS, OFF_SIMON, OFF_SIMSTATUS, OFF_SUSP_VELOCITY,
    OFF_TYRE_DIAMETER, OFF_TYRE_RPS, OFF_TYRE_SLIP_RATIO, OFF_VELOCITY, OFF_XVELOCITY, OFF_YVELOCITY, OFF_ZVELOCITY,
    SIMDATA_SIZE, WHEEL_COUNT, write_at, u32_bytes, u64_bytes,
};

verus! {

pub const STREAM_MAGIC: [u8; 8] = [0x43, 0x50, 0x49, 0x54, 0x53, 0x43, 0x4e, 0x31];
pub const TEST_RPM_IDLE: u32 = 1000;
pub const TEST_RPM_MID_LOW: u32 = 2000;
pub const TEST_RPM_MID: u32 = 4000;
pub const TEST_RPM_HIGH: u32 = 7000;
pub const TEST_RPM_MAX: u32 = 8000;
pub const TEST_VELOCITY_CRUISE: u32 = 160;
pub const TEST_VELOCITY_SLOW: u32 = 100;
pub const TEST_VELOCITY_FAST: u32 = 200;
pub const TEST_VELOCITY_TOP: u32 = 300;
pub const TEST_VELOCITY_SPIN: u32 = 15;
pub const TEST_VELOCITY_LOCK: u32 = 150;
/// 100.0
pub const TEST_YVELOCITY_BITS: u64 = 0x4059000000000000;
/// 0.85
pub const TEST_PEDAL_APPLIED_BITS: u64 = 0x3feb333333333333;
/// -0.45
pub const TEST_SLIP_SPIN_BITS: u64 = 0xbfdccccccccccccd;
/// 0.85
pub const TEST_SLIP_LOCK_BITS: u64 = 0x3feb333333333333;
/// 0.40
pub const TEST_SLIP_ABS_A_BITS: u64 = 0x3fd999999999999a;
/// 0.72
pub const TEST_SLIP_ABS_B_BITS: u64 = 0x3fe70a3d70a3d70a;
/// 0.0
pub const ZERO_BITS: u64 = 0;
/// 1.0
pub const TEST_ABS_ACTIVE_BITS: u64 = 0x3ff0000000000000;
/// 0.90
pub const TEST_BRAKE_TEMP_HOT_BITS: u64 = 0x3feccccccccccccd;
/// 2.0
pub const TEST_SUSP_VEL_A_BITS: u64 = 0x4000000000000000;
/// 18.0
pub const TEST_SUSP_VEL_B_BITS: u64 = 0x4032000000000000;
/// -1.0
pub const TEST_TYRE_DIAMETER_UNSET_BITS: u64 = 0xbff0000000000000;
/// 0.638636385206394
pub const TEST_TYRE_DIAMETER_FL_BITS: u64 = 0x3fe46fb5928fe869;
/// 0.633384434597093
pub const TEST_TYRE_DIAMETER_FR_BITS: u64 = 0x3fe444af6f0c7a99;
/// 0.710475735564615
pub const TEST_TYRE_DIAMETER_REAR_BITS: u64 = 0x3fe6bc379c1b4006;
/// 50.0
pub const TEST_TYRE_RPS_SPIN_BITS: u64 = 0x4049000000000000;
/// 25.0
pub const TEST_TYRE_RPS_LOCK_BITS: u64 = 0x4039000000000000;
/// 12.5
pub const RADAR_RADIUS_M_BITS: u64 = 0x4029000000000000;
/// 35.0
pub const RADAR_THETA_DEG_BITS: u64 = 0x4041800000000000;
pub const TEST_GEAR_CHAR_NEUTRAL: u8 = 0x4e;
pub const GEAR_NEUTRAL: u32 = 1;
pub const GEAR_FIRST: u32 = 2;
pub const GEAR_SECOND: u32 = 3;
pub const STATUS_OFF: u32 = 0;
pub const STATUS_ACTIVE: u32 = 2;
pub const FLAG_GREEN: u8 = 0;
pub const FLAG_YELLOW: u8 = 1;
pub const FLAG_BLUE: u8 = 4;
pub const TICK_STEP: u64 = 16;
pub const FROZEN_VELOCITY: u32 = 0;

/// A named stream of frames.
pub struct Scenario {
    pub name: &'static str,
    pub frames: Vec<SimDataBuf>,
}

/// The scenario names, in order.
pub open spec fn scenario_names() -> Seq<Seq<char>> {
    seq![
        "rpm"@,
        "gear"@,
        "slip"@,
        "lock"@,
        "abs"@,
        "suspension"@,
        "flags"@,
        "brake_temperature"@,
        "velocity"@,
        "blink"@,
        "radar"@,
        "sim_on"@,
        "sim_off"@,
        "frozen_telemetry"@,
        "basic"@,
        "wheel_spin"@,
        "wheel_lock"@,
    ]
}

/// How many frames each scenario holds, in order.
pub open spec fn scenario_frame_counts() -> Seq<nat> {
    seq![4nat, 3, 1, 1, 2, 2, 3, 1, 4, 3, 1, 1, 1, 1, 1, 1, 1]
}

/// A zeroed frame.
pub open spec fn zero_frame() -> Seq<u8> {
    Seq::new(SIMDATA_SIZE as nat, |_i: int| 0u8)
}

/// `b` with the four wheels of an `f64` array from `base` set to `bits`,
/// the first `n` of them.
pub open spec fn wheels_set(b: Seq<u8>, base: int, bits: u64, n: nat) -> Seq<u8>
    decreases n,
{
    if n == 0 {
        b
    } else {
        write_at(wheels_set(b, base, bits, (n - 1) as nat), base + (n - 1) * F64_SIZE, u64_bytes(bits))
    }
}

/// `b` with every wheel of the `f64` array at `base` set to `bits`.
pub open spec fn all_wheels(b: Seq<u8>, base: int, bits: u64) -> Seq<u8> {
    wheels_set(b, base, bits, WHEEL_COUNT as nat)
}

/// The car name "CAR", padded with NULs.
pub open spec fn car_name() -> Seq<u8> {
    seq![0x43u8, 0x41, 0x52] + Seq::new((CAR_NAME_BYTES - 3) as nat, |_i: int| 0u8)
}

/// `b` with the gear number and its one-character name.
pub open spec fn with_gear(b: Seq<u8>, gear: u32, gear_char: u8) -> Seq<u8> {
    write_at(write_at(b, OFF_GEAR as int, u32_bytes(gear)), OFF_GEARC as int, seq![gear_char, 0u8, 0u8])
}

/// Every frame starts here: redline 8000, idle 1000, the sim on and active,
/// the car "CAR" in neutral, tyre diameters not measured (-1.0).
pub open spec fn blank_frame() -> Seq<u8> {
    let b = write_at(zero_frame(), OFF_MAXRPM as int, u32_bytes(TEST_RPM_MAX));
    let b = write_at(b, OFF_IDLERPM as int, u32_bytes(TEST_RPM_IDLE));
    let b = write_at(b, OFF_SIMSTATUS as int, u32_bytes(STATUS_ACTIVE));
    let b = b.update(OFF_SIMON as int, 1u8);
    let b = write_at(b, OFF_CAR as int, car_name());
    let b = with_gear(b, GEAR_NEUTRAL, TEST_GEAR_CHAR_NEUTRAL);
    all_wheels(b, OFF_TYRE_DIAMETER as int, TEST_TYRE_DIAMETER_UNSET_BITS)
}

/// Cruising at 160 km/h at idle rpm, moving forward at 100 m/s, no sideways
/// or vertical motion.
pub open spec fn basic_bytes() -> Seq<u8> {
    let b = write_at(blank_frame(), OFF_VELOCITY as int, u32_bytes(TEST_VELOCITY_CRUISE));
    let b = write_at(b, OFF_RPMS as int, u32_bytes(TEST_RPM_IDLE));
    let b = write_at(b, OFF_XVELOCITY as int, u64_bytes(ZERO_BITS));
    let b = write_at(b, OFF_YVELOCITY as int, u64_bytes(TEST_YVELOCITY_BITS));
    write_at(b, OFF_ZVELOCITY as int, u64_bytes(ZERO_BITS))
}

/// Every wheel turning at `rps_bits`, with the measured tyre diameters.
pub open spec fn with_tyre_fallback(b: Seq<u8>, rps_bits: u64) -> Seq<u8> {
    let b = all_wheels(b, OFF_TYRE_RPS as int, rps_bits);
    let b = write_at(b, OFF_TYRE_DIAMETER as int, u64_bytes(TEST_TYRE_DIAMETER_FL_BITS));
    let b = write_at(b, OFF_TYRE_DIAMETER + F64_SIZE, u64_bytes(TEST_TYRE_DIAMETER_FR_BITS));
    let b = write_at(b, OFF_TYRE_DIAMETER + 2 * F64_SIZE, u64_bytes(TEST_TYRE_DIAMETER_REAR_BITS));
    write_at(b, OFF_TYRE_DIAMETER + 3 * F64_SIZE, u64_bytes(TEST_TYRE_DIAMETER_REAR_BITS))
}

/// Spinning the wheels: 15 km/h on full throttle, every wheel slipping at -0.45.
pub open spec fn wheel_spin_bytes() -> Seq<u8> {
    let b = write_at(basic_bytes(), OFF_VELOCITY as int, u32_bytes(TEST_VELOCITY_SPIN));
    let b = write_at(b, OFF_GAS as int, u64_bytes(TEST_PEDAL_APPLIED_BITS));
    let b = write_at(b, OFF_BRAKE as int, u64_bytes(ZERO_BITS));
    let b = write_at(b, OFF_ABS as int, u64_bytes(ZERO_BITS));
    let b = all_wheels(b, OFF_TYRE_SLIP_RATIO as int, TEST_SLIP_SPIN_BITS);
    let b = all_wheels(b, OFF_BRAKE_TEMP as int, ZERO_BITS);
    with_tyre_fallback(b, TEST_TYRE_RPS_SPIN_BITS)
}

/// Locking the wheels: 150 km/h on the brake, every wheel slipping at 0.85
/// with hot brakes.
pub open spec fn wheel_lock_bytes() -> Seq<u8> {
    let b = write_at(basic_bytes(), OFF_VELOCITY as int, u32_bytes(TEST_VELOCITY_LOCK));
    let b = write_at(b, OFF_GAS as int, u64_bytes(ZERO_BITS));
    let b = write_at(b, OFF_BRAKE as int, u64_bytes(TEST_PEDAL_APPLIED_BITS));
    let b = write_at(b, OFF_ABS as int, u64_bytes(ZERO_BITS));
    let b = all_wheels(b, OFF_TYRE_SLIP_RATIO as int, TEST_SLIP_LOCK_BITS);
    let b = all_wheels(b, OFF_BRAKE_TEMP as int, TEST_BRAKE_TEMP_HOT_BITS);
    with_tyre_fallback(b, TEST_TYRE_RPS_LOCK_BITS)
}

/// The `k`-th frame's tick: 16 ms steps from 16.
pub open spec fn step_tick(k: int) -> u64 {
    ((k + 1) * TICK_STEP) as u64
}

/// `b` with the tick of frame `k`.
pub open spec fn at_tick(b: Seq<u8>, tick: u64) -> Seq<u8> {
    write_at(b, OFF_MTICK as int, u64_bytes(tick))
}

pub open spec fn rpm_steps() -> Seq<u32> {
    seq![TEST_RPM_IDLE, TEST_RPM_MID, TEST_RPM_HIGH, TEST_RPM_MAX]
}

/// The rpm sweep: idle, 4000, 7000, redline, with the tach pulses at a tenth of the rpm.
pub open spec fn rpm_bytes(k: int) -> Seq<u8> {
    let b = write_at(at_tick(basic_bytes(), step_tick(k)), OFF_RPMS as int, u32_bytes(rpm_steps()[k]));
    write_at(b, OFF_PULSES as int, u32_bytes((rpm_steps()[k] / 10) as u32))
}

pub open spec fn gear_steps() -> Seq<(u32, u8)> {
    seq![(GEAR_NEUTRAL, TEST_GEAR_CHAR_NEUTRAL), (GEAR_FIRST, 0x31u8), (GEAR_SECOND, 0x32u8)]
}

/// Neutral, first and second at 2000 rpm.
pub open spec fn gear_bytes(k: int) -> Seq<u8> {
    let b = write_at(at_tick(basic_bytes(), step_tick(k)), OFF_RPMS as int, u32_bytes(TEST_RPM_MID_LOW));
    with_gear(b, gear_steps()[k].0, gear_steps()[k].1)
}

pub open spec fn abs_slips() -> Seq<u64> {
    seq![TEST_SLIP_ABS_A_BITS, TEST_SLIP_ABS_B_BITS]
}

/// Locking with ABS active, the slip pumping between 0.40 and 0.72.
pub open spec fn abs_bytes(k: int) -> Seq<u8> {
    let b = write_at(at_tick(wheel_lock_bytes(), step_tick(k)), OFF_ABS as int, u64_bytes(TEST_ABS_ACTIVE_BITS));
    all_wheels(b, OFF_TYRE_SLIP_RATIO as int, abs_slips()[k])
}

pub open spec fn suspension_steps() -> Seq<u64> {
    seq![TEST_SUSP_VEL_A_BITS, TEST_SUSP_VEL_B_BITS]
}

/// 200 km/h with the suspension moving at 2.0, then 18.0.
pub open spec fn suspension_bytes(k: int) -> Seq<u8> {
    let b = write_at(at_tick(basic_bytes(), step_tick(k)), OFF_VELOCITY as int, u32_bytes(TEST_VELOCITY_FAST));
    all_wheels(b, OFF_SUSP_VELOCITY as int, suspension_steps()[k])
}

pub open spec fn flag_steps() -> Seq<u8> {
    seq![FLAG_GREEN, FLAG_YELLOW, FLAG_BLUE]
}

/// Green, yellow, blue, for the course and the player.
pub open spec fn flag_bytes(k: int) -> Seq<u8> {
    at_tick(basic_bytes(), step_tick(k)).update(OFF_COURSE_FLAG as int, flag_steps()[k]).update(
        OFF_PLAYER_FLAG as int,
        flag_steps()[k],
    )
}

/// Braking at 150 km/h with hot brakes.
pub open spec fn brake_temperature_bytes() -> Seq<u8> {
    let b = write_at(basic_bytes(), OFF_VELOCITY as int, u32_bytes(TEST_VELOCITY_LOCK));
    let b = write_at(b, OFF_BRAKE as int, u64_bytes(TEST_PEDAL_APPLIED_BITS));
    all_wheels(b, OFF_BRAKE_TEMP as int, TEST_BRAKE_TEMP_HOT_BITS)
}

pub open spec fn velocity_steps() -> Seq<u32> {
    seq![TEST_VELOCITY_SLOW, TEST_VELOCITY_CRUISE, TEST_VELOCITY_FAST, TEST_VELOCITY_TOP]
}

/// 100, 160, 200 and 300 km/h.
pub open spec fn velocity_bytes(k: int) -> Seq<u8> {
    write_at(at_tick(basic_bytes(), step_tick(k)), OFF_VELOCITY as int, u32_bytes(velocity_steps()[k]))
}

pub open spec fn blink_ticks() -> Seq<u64> {
    seq![0u64, 80, 160]
}

/// A yellow course flag at 7000 rpm at ticks 0, 80 and 160.
pub open spec fn blink_bytes(k: int) -> Seq<u8> {
    let b = at_tick(basic_bytes(), blink_ticks()[k]).update(OFF_COURSE_FLAG as int, FLAG_YELLOW);
    write_at(b, OFF_RPMS as int, u32_bytes(TEST_RPM_HIGH))
}

/// A car 12.5 m away at 35 degrees.
pub open spec fn radar_bytes() -> Seq<u8> {
    let b = write_at(basic_bytes(), OFF_PROXIMITY + OFF_PROX_RADIUS, u64_bytes(RADAR_RADIUS_M_BITS));
    write_at(b, OFF_PROXIMITY + OFF_PROX_THETA, u64_bytes(RADAR_THETA_DEG_BITS))
}

/// The sim switched on (active) or off.
pub open spec fn sim_power_bytes(on: bool) -> Seq<u8> {
    write_at(
        basic_bytes().update(OFF_SIMON as int, if on { 1u8 } else { 0u8 }),
        OFF_SIMSTATUS as int,
        u32_bytes(if on { STATUS_ACTIVE } else { STATUS_OFF }),
    )
}

/// Standing still with the suspension reading stuck at 18.0 and the wheels not turning.
pub open spec fn frozen_bytes() -> Seq<u8> {
    let b = write_at(basic_bytes(), OFF_VELOCITY as int, u32_bytes(FROZEN_VELOCITY));
    let b = write_at(b, OFF_YVELOCITY as int, u64_bytes(ZERO_BITS));
    let b = all_wheels(b, OFF_SUSP_VELOCITY as int, TEST_SUSP_VEL_B_BITS);
    with_tyre_fallback(b, ZERO_BITS)
}

/// Frame `k` of scenario `i`, in the order of `scenario_names`.
pub open spec fn scenario_frame(i: int, k: int) -> Seq<u8> {
    if i == 0 {
        rpm_bytes(k)
    } else if i == 1 {
        gear_bytes(k)
    } else if i == 2 || i == 15 {
        wheel_spin_bytes()
    } else if i == 3 || i == 16 {
        wheel_lock_bytes()
    } else if i == 4 {
        abs_bytes(k)
    } else if i == 5 {
        suspension_bytes(k)
    } else if i == 6 {
        flag_bytes(k)
    } else if i == 7 {
        brake_temperature_bytes()
    } else if i == 8 {
        velocity_bytes(k)
    } else if i == 9 {
        blink_bytes(k)
    } else if i == 10 {
        radar_bytes()
    } else if i == 11 {
        sim_power_bytes(true)
    } else if i == 12 {
        sim_power_bytes(false)
    } else if i == 13 {
        frozen_bytes()
    } else {
        basic_bytes()
    }
}

/// Every scenario, in a fixed order, each frame as `scenario_frame` gives it.
pub fn all() -> (r: Vec<Scenario>)
    ensures
        r@.len() == 17,
        forall|i: int| 0 <= i < 17 ==> #[trigger] r@[i].name@ == scenario_names()[i],
        forall|i: int| 0 <= i < 17 ==> #[trigger] r@[i].frames@.len() == scenario_frame_counts()[i],
        forall|i: int, k: int|
            0 <= i < 17 && 0 <= k < scenario_frame_counts()[i] ==> #[trigger] r@[i].frames@[k]@ == scenario_frame(i, k),
{
    let mut r: Vec<Scenario> = Vec::new();
    r.push(Scenario { name: "rpm", frames: rpm_frames() });
    r.push(Scenario { name: "gear", frames: gear_frames() });
    r.push(Scenario { name: "slip", frames: one(wheel_spin_frame()) });
    r.push(Scenario { name: "lock", frames: one(wheel_lock_frame()) });
    r.push(Scenario { name: "abs", frames: abs_frames() });
    r.push(Scenario { name: "suspension", frames: suspension_frames() });
    r.push(Scenario { name: "flags", frames: flag_frames() });
    r.push(Scenario { name: "brake_temperature", frames: one(brake_temperature_frame()) });
    r.push(Scenario { name: "velocity", frames: velocity_frames() });
    r.push(Scenario { name: "blink", frames: blink_frames() });
    r.push(Scenario { name: "radar", frames: one(radar_frame()) });
    r.push(Scenario { name: "sim_on", frames: one(sim_power(true)) });
    r.push(Scenario { name: "sim_off", frames: one(sim_power(false)) });
    r.push(Scenario { name: "frozen_telemetry", frames: one(frozen_frame()) });
    r.push(Scenario { name: "basic", frames: one(basic_frame()) });
    r.push(Scenario { name: "wheel_spin", frames: one(wheel_spin_frame()) });
    r.push(Scenario { name: "wheel_lock", frames: one(wheel_lock_frame()) });
    proof {
        assert forall|i: int, k: int| 0 <= i < 17 && 0 <= k < scenario_frame_counts()[i] implies #[trigger] r@[i].frames@[k]@
            == scenario_frame(i, k) by {
            if i == 2 || i == 3 || i == 7 || i >= 10 {
                assert(k == 0);
            }
        }
    }
    r
}

fn one(frame: SimDataBuf) -> (r: Vec<SimDataBuf>)
    ensures
        r@.len() == 1,
        r@[0]@ == frame@,
{
    let mut r: Vec<SimDataBuf> = Vec::new();
    r.push(frame);
    r
}

fn set_gear(frame: &mut SimDataBuf, gear: u32, gear_char: u8)
    ensures
        final(frame)@ == with_gear(old(frame)@, gear, gear_char),
{
    frame.set_u32(OFF_GEAR, gear);
    let chars: [u8; GEAR_CHAR_BYTES] = [gear_char, 0, 0];
    assert(chars@ =~= seq![gear_char, 0u8, 0u8]);
    frame.set_bytes(OFF_GEARC, &chars);
}

fn set_car(frame: &mut SimDataBuf)
    ensures
        final(frame)@ == write_at(old(frame)@, OFF_CAR as int, car_name()),
{
    let mut bytes: Vec<u8> = Vec::new();
    bytes.push(0x43);
    bytes.push(0x41);
    bytes.push(0x52);
    while bytes.len() < CAR_NAME_BYTES
        invariant
            3 <= bytes@.len() <= CAR_NAME_BYTES,
            bytes@ == seq![0x43u8, 0x41, 0x52] + Seq::new((bytes@.len() - 3) as nat, |_i: int| 0u8),
        decreases CAR_NAME_BYTES - bytes@.len(),
    {
        bytes.push(0);
        assert(bytes@ =~= seq![0x43u8, 0x41, 0x52] + Seq::new((bytes@.len() - 3) as nat, |_i: int| 0u8));
    }
    frame.set_bytes(OFF_CAR, bytes.as_slice());
}

fn fill_wheels(frame: &mut SimDataBuf, base: usize, bits: u64)
    requires
        base + WHEEL_COUNT * F64_SIZE <= SIMDATA_SIZE,
    ensures
        final(frame)@ == all_wheels(old(frame)@, base as int, bits),
{
    let mut index: usize = 0;
    while index < WHEEL_COUNT
        invariant
            base + WHEEL_COUNT * F64_SIZE <= SIMDATA_SIZE,
            index <= WHEEL_COUNT,
            frame@ == wheels_set(old(frame)@, base as int, bits, index as nat),
        decreases WHEEL_COUNT - index,
    {
        frame.set_f64_bits(base + index * F64_SIZE, bits);
        index += 1;
    }
}

fn set_tyre_fallback(frame: &mut SimDataBuf, rps_bits: u64)
    ensures
        final(frame)@ == with_tyre_fallback(old(frame)@, rps_bits),
{
    fill_wheels(frame, OFF_TYRE_RPS, rps_bits);
    frame.set_f64_bits(OFF_TYRE_DIAMETER, TEST_TYRE_DIAMETER_FL_BITS);
    frame.set_f64_bits(OFF_TYRE_DIAMETER + F64_SIZE, TEST_TYRE_DIAMETER_FR_BITS);
    frame.set_f64_bits(OFF_TYRE_DIAMETER + 2 * F64_SIZE, TEST_TYRE_DIAMETER_REAR_BITS);
    frame.set_f64_bits(OFF_TYRE_DIAMETER + 3 * F64_SIZE, TEST_TYRE_DIAMETER_REAR_BITS);
}

fn blank() -> (frame: SimDataBuf)
    ensures
        frame@ == blank_frame(),
{
    let mut frame = SimDataBuf::new();
    frame.set_u32(OFF_MAXRPM, TEST_RPM_MAX);
    frame.set_u32(OFF_IDLERPM, TEST_RPM_IDLE);
    frame.set_u32(OFF_SIMSTATUS, STATUS_ACTIVE);
    frame.set_bool(OFF_SIMON, true);
    set_car(&mut frame);
    set_gear(&mut frame, GEAR_NEUTRAL, TEST_GEAR_CHAR_NEUTRAL);
    fill_wheels(&mut frame, OFF_TYRE_DIAMETER, TEST_TYRE_DIAMETER_UNSET_BITS);
    frame
}

fn basic_frame() -> (frame: SimDataBuf)
    ensures
        frame@ == basic_bytes(),
{
    let mut frame = blank();
    frame.set_u32(OFF_VELOCITY, TEST_VELOCITY_CRUISE);
    frame.set_u32(OFF_RPMS, TEST_RPM_IDLE);
    frame.set_f64_bits(OFF_XVELOCITY, ZERO_BITS);
    frame.set_f64_bits(OFF_YVELOCITY, TEST_YVELOCITY_BITS);
    frame.set_f64_bits(OFF_ZVELOCITY, ZERO_BITS);
    frame
}

fn wheel_spin_frame() -> (frame: SimDataBuf)
    ensures
        frame@ == wheel_spin_bytes(),
{
    let mut frame = basic_frame();
    frame.set_u32(OFF_VELOCITY, TEST_VELOCITY_SPIN);
    frame.set_f64_bits(OFF_GAS, TEST_PEDAL_APPLIED_BITS);
    frame.set_f64_bits(OFF_BRAKE, ZERO_BITS);
    frame.set_f64_bits(OFF_ABS, ZERO_BITS);
    fill_wheels(&mut frame, OFF_TYRE_SLIP_RATIO, TEST_SLIP_SPIN_BITS);
    fill_wheels(&mut frame, OFF_BRAKE_TEMP, ZERO_BITS);
    set_tyre_fallback(&mut frame, TEST_TYRE_RPS_SPIN_BITS);
    frame
}

fn wheel_lock_frame() -> (frame: SimDataBuf)
    ensures
        frame@ == wheel_lock_bytes(),
{
    let mut frame = basic_frame();
    frame.set_u32(OFF_VELOCITY, TEST_VELOCITY_LOCK);
    frame.set_f64_bits(OFF_GAS, ZERO_BITS);
    frame.set_f64_bits(OFF_BRAKE, TEST_PEDAL_APPLIED_BITS);
    frame.set_f64_bits(OFF_ABS, ZERO_BITS);
    fill_wheels(&mut frame, OFF_TYRE_SLIP_RATIO, TEST_SLIP_LOCK_BITS);
    fill_wheels(&mut frame, OFF_BRAKE_TEMP, TEST_BRAKE_TEMP_HOT_BITS);
    set_tyre_fallback(&mut frame, TEST_TYRE_RPS_LOCK_BITS);
    frame
}

fn rpm_frames() -> (r: Vec<SimDataBuf>)
    ensures
        r@.len() == 4,
        forall|k: int| 0 <= k < 4 ==> #[trigger] r@[k]@ == rpm_bytes(k),
{
    let rpms: [u32; 4] = [TEST_RPM_IDLE, TEST_RPM_MID, TEST_RPM_HIGH, TEST_RPM_MAX];
    assert(rpms@ =~= rpm_steps());
    let mut r: Vec<SimDataBuf> = Vec::new();
    let mut index: usize = 0;
    while index < 4
        invariant
            index <= 4,
            r@.len() == index,
            rpms@ == rpm_steps(),
            forall|k: int| 0 <= k < index ==> #[trigger] r@[k]@ == rpm_bytes(k),
        decreases 4 - index,
    {
        let mut frame = basic_frame();
        frame.set_u64(OFF_MTICK, (index as u64 + 1) * TICK_STEP);
        frame.set_u32(OFF_RPMS, rpms[index]);
        frame.set_u32(OFF_PULSES, rpms[index] / 10);
        r.push(frame);
        index += 1;
    }
    r
}

fn gear_frames() -> (r: Vec<SimDataBuf>)
    ensures
        r@.len() == 3,
        forall|k: int| 0 <= k < 3 ==> #[trigger] r@[k]@ == gear_bytes(k),
{
    let gears: [u32; 3] = [GEAR_NEUTRAL, GEAR_FIRST, GEAR_SECOND];
    let chars: [u8; 3] = [TEST_GEAR_CHAR_NEUTRAL, 0x31, 0x32];
    let mut r: Vec<SimDataBuf> = Vec::new();
    let mut index: usize = 0;
    while index < 3
        invariant
            index <= 3,
            r@.len() == index,
            forall|k: int| 0 <= k < 3 ==> (#[trigger] gear_steps()[k]) == (gears@[k], chars@[k]),
            forall|k: int| 0 <= k < index ==> #[trigger] r@[k]@ == gear_bytes(k),
        decreases 3 - index,
    {
        let mut frame = basic_frame();
        frame.set_u64(OFF_MTICK, (index as u64 + 1) * TICK_STEP);
        frame.set_u32(OFF_RPMS, TEST_RPM_MID_LOW);
        set_gear(&mut frame, gears[index], chars[index]);
        assert(gear_steps()[index as int] == (gears@[index as int], chars@[index as int]));
        r.push(frame);
        index += 1;
    }
    r
}

fn abs_frames() -> (r: Vec<SimDataBuf>)
    ensures
        r@.len() == 2,
        forall|k: int| 0 <= k < 2 ==> #[trigger] r@[k]@ == abs_bytes(k),
{
    let slips: [u64; 2] = [TEST_SLIP_ABS_A_BITS, TEST_SLIP_ABS_B_BITS];
    assert(slips@ =~= abs_slips());
    let mut r: Vec<SimDataBuf> = Vec::new();
    let mut index: usize = 0;
    while index < 2
        invariant
            index <= 2,
            r@.len() == index,
            slips@ == abs_slips(),
            forall|k: int| 0 <= k < index ==> #[trigger] r@[k]@ == abs_bytes(k),
        decreases 2 - index,
    {
        let mut frame = wheel_lock_frame();
        frame.set_u64(OFF_MTICK, (index as u64 + 1) * TICK_STEP);
        frame.set_f64_bits(OFF_ABS, TEST_ABS_ACTIVE_BITS);
        fill_wheels(&mut frame, OFF_TYRE_SLIP_RATIO, slips[index]);
        r.push(frame);
        index += 1;
    }
    r
}

fn suspension_frames() -> (r: Vec<SimDataBuf>)
    ensures
        r@.len() == 2,
        forall|k: int| 0 <= k < 2 ==> #[trigger] r@[k]@ == suspension_bytes(k),
{
    let velocities: [u64; 2] = [TEST_SUSP_VEL_A_BITS, TEST_SUSP_VEL_B_BITS];
    assert(velocities@ =~= suspension_steps());
    let mut r: Vec<SimDataBuf> = Vec::new();
    let mut index: usize = 0;
    while index < 2
        invariant
            index <= 2,
            r@.len() == index,
            velocities@ == suspension_steps(),
            forall|k: int| 0 <= k < index ==> #[trigger] r@[k]@ == suspension_bytes(k),
        decreases 2 - index,
    {
        let mut frame = basic_frame();
        frame.set_u64(OFF_MTICK, (index as u64 + 1) * TICK_STEP);
        frame.set_u32(OFF_VELOCITY, TEST_VELOCITY_FAST);
        fill_wheels(&mut frame, OFF_SUSP_VELOCITY, velocities[index]);
        r.push(frame);
        index += 1;
    }
    r
}

fn flag_frames() -> (r: Vec<SimDataBuf>)
    ensures
        r@.len() == 3,
        forall|k: int| 0 <= k < 3 ==> #[trigger] r@[k]@ == flag_bytes(k),
{
    let flags: [u8; 3] = [FLAG_GREEN, FLAG_YELLOW, FLAG_BLUE];
    assert(flags@ =~= flag_steps());
    let mut r: Vec<SimDataBuf> = Vec::new();
    let mut index: usize = 0;
    while index < 3
        invariant
            index <= 3,
            r@.len() == index,
            flags@ == flag_steps(),
            forall|k: int| 0 <= k < index ==> #[trigger] r@[k]@ == flag_bytes(k),
        decreases 3 - index,
    {
        let mut frame = basic_frame();
        frame.set_u64(OFF_MTICK, (index as u64 + 1) * TICK_STEP);
        frame.set_u8(OFF_COURSE_FLAG, flags[index]);
        frame.set_u8(OFF_PLAYER_FLAG, flags[index]);
        r.push(frame);
        index += 1;
    }
    r
}

fn brake_temperature_frame() -> (frame: SimDataBuf)
    ensures
        frame@ == brake_temperature_bytes(),
{
    let mut frame = basic_frame();
    frame.set_u32(OFF_VELOCITY, TEST_VELOCITY_LOCK);
    frame.set_f64_bits(OFF_BRAKE, TEST_PEDAL_APPLIED_BITS);
    fill_wheels(&mut frame, OFF_BRAKE_TEMP, TEST_BRAKE_TEMP_HOT_BITS);
    frame
}

fn velocity_frames() -> (r: Vec<SimDataBuf>)
    ensures
        r@.len() == 4,
        forall|k: int| 0 <= k < 4 ==> #[trigger] r@[k]@ == velocity_bytes(k),
{
    let velocities: [u32; 4] = [TEST_VELOCITY_SLOW, TEST_VELOCITY_CRUISE, TEST_VELOCITY_FAST, TEST_VELOCITY_TOP];
    assert(velocities@ =~= velocity_steps());
    let mut r: Vec<SimDataBuf> = Vec::new();
    let mut index: usize = 0;
    while index < 4
        invariant
            index <= 4,
            r@.len() == index,
            velocities@ == velocity_steps(),
            forall|k: int| 0 <= k < index ==> #[trigger] r@[k]@ == velocity_bytes(k),
        decreases 4 - index,
    {
        let mut frame = basic_frame();
        frame.set_u64(OFF_MTICK, (index as u64 + 1) * TICK_STEP);
        frame.set_u32(OFF_VELOCITY, velocities[index]);
        r.push(frame);
        index += 1;
    }
    r
}

fn blink_frames() -> (r: Vec<SimDataBuf>)
    ensures
        r@.len() == 3,
        forall|k: int| 0 <= k < 3 ==> #[trigger] r@[k]@ == blink_bytes(k),
{
    let ticks: [u64; 3] = [0, 80, 160];
    assert(ticks@ =~= blink_ticks());
    let mut r: Vec<SimDataBuf> = Vec::new();
    let mut index: usize = 0;
    while index < 3
        invariant
            index <= 3,
            r@.len() == index,
            ticks@ == blink_ticks(),
            forall|k: int| 0 <= k < index ==> #[trigger] r@[k]@ == blink_bytes(k),
        decreases 3 - index,
    {
        let mut frame = basic_frame();
        frame.set_u64(OFF_MTICK, ticks[index]);
        frame.set_u8(OFF_COURSE_FLAG, FLAG_YELLOW);
        frame.set_u32(OFF_RPMS, TEST_RPM_HIGH);
        r.push(frame);
        index += 1;
    }
    r
}

fn radar_frame() -> (frame: SimDataBuf)
    ensures
        frame@ == radar_bytes(),
{
    let mut frame = basic_frame();
    frame.set_f64_bits(OFF_PROXIMITY + OFF_PROX_RADIUS, RADAR_RADIUS_M_BITS);
    frame.set_f64_bits(OFF_PROXIMITY + OFF_PROX_THETA, RADAR_THETA_DEG_BITS);
    frame
}

fn sim_power(on: bool) -> (frame: SimDataBuf)
    ensures
        frame@ == sim_power_bytes(on),
{
    let mut frame = basic_frame();
    frame.set_bool(OFF_SIMON, on);
    frame.set_u32(OFF_SIMSTATUS, if on { STATUS_ACTIVE } else { STATUS_OFF });
    frame
}

fn frozen_frame() -> (frame: SimDataBuf)
    ensures
        frame@ == frozen_bytes(),
{
    let mut frame = basic_frame();
    frame.set_u32(OFF_VELOCITY, FROZEN_VELOCITY);
    frame.set_f64_bits(OFF_YVELOCITY, ZERO_BITS);
    fill_wheels(&mut frame, OFF_SUSP_VELOCITY, TEST_SUSP_VEL_B_BITS);
    set_tyre_fallback(&mut frame, ZERO_BITS);
    frame
}

/// The frames one after another.
pub open spec fn concat_frames(frames: Seq<Seq<u8>>) -> Seq<u8>
    decreases frames.len(),
{
    if frames.len() == 0 {
        Seq::empty()
    } else {
        concat_frames(frames.drop_last()) + frames.last()
    }
}

/// The bytes of each frame of a scenario.
pub open spec fn frame_bytes(s: Scenario) -> Seq<Seq<u8>> {
    Seq::new(s.frames@.len(), |i: int| s.frames@[i]@)
}

/// A scenario as a stream: the magic `CPITSCN1`, the frame count as a
/// little-endian `u32`, then every frame.
pub fn encode(scenario: &Scenario) -> (r: Vec<u8>)
    requires
        scenario.frames@.len() <= u32::MAX,
    ensures
        r@ == STREAM_MAGIC@ + u32_bytes(scenario.frames@.len() as u32) + concat_frames(frame_bytes(*scenario)),
{
    let mut bytes: Vec<u8> = Vec::new();
    let mut i: usize = 0;
    while i < STREAM_MAGIC.len()
        invariant
            i <= 8,
            bytes@ == STREAM_MAGIC@.subrange(0, i as int),
        decreases 8 - i,
    {
        bytes.push(STREAM_MAGIC[i]);
        i += 1;
        assert(bytes@ =~= STREAM_MAGIC@.subrange(0, i as int));
    }
    assert(STREAM_MAGIC@.subrange(0, 8) =~= STREAM_MAGIC@);
    let count = scenario.frames.len() as u32;
    bytes.push((count & 0xff) as u8);
    bytes.push(((count >> 8u32) & 0xff) as u8);
    bytes.push(((count >> 16u32) & 0xff) as u8);
    bytes.push(((count >> 24u32) & 0xff) as u8);
    assert(bytes@ =~= STREAM_MAGIC@ + u32_bytes(count));
    let ghost head = bytes@;
    let mut k: usize = 0;
    while k < scenario.frames.len()
        invariant
            k <= scenario.frames@.len(),
            bytes@ == head + concat_frames(frame_bytes(*scenario).subrange(0, k as int)),
        decreases scenario.frames@.len() - k,
    {
        let frame = scenario.frames[k].as_bytes();
        let ghost before = bytes@;
        let mut j: usize = 0;
        while j < frame.len()
            invariant
                j <= frame@.len(),
                bytes@ == before + frame@.subrange(0, j as int),
            decreases frame@.len() - j,
        {
            bytes.push(frame[j]);
            j += 1;
            assert(bytes@ =~= before + frame@.subrange(0, j as int));
        }
        proof {
            assert(frame@.subrange(0, frame@.len() as int) =~= frame@);
            let fb = frame_bytes(*scenario);
            assert(fb.subrange(0, k as int + 1).drop_last() =~= fb.subrange(0, k as int));
            assert(fb.subrange(0, k as int + 1).last() == frame@);
            assert(bytes@ =~= head + concat_frames(fb.subrange(0, k as int + 1)));
        }
        k += 1;
    }
    assert(frame_bytes(*scenario).subrange(0, scenario.frames@.len() as int) =~= frame_bytes(*scenario));
    bytes
}

/// Bytes of one frame.
pub fn frame_size() -> (r: usize)
    ensures
        r == SIMDATA_SIZE,
{
    SIMDATA_SIZE
}

/// Bytes of a `bool` field.
pub fn bool_size() -> (r: usize)
    ensures
        r == BOOL_SIZE,
{
    BOOL_SIZE
}

/// Bytes of an `f64` field.
pub fn f64_size() -> (r: usize)
    ensures
        r == F64_SIZE,
{
    F64_SIZE
}

} // verus!
