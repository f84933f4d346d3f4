use cargopit::haptic::{chassis_is_rolling, has_tyre_diameter};
use cargopit::scenarios::all;
use cargopit::simdata::{SimDataBuf, SIMDATA_SIZE};
use cargopit::telemetry::Telemetry;

#[test]
fn scenario_list_is_stable() {
    let names: Vec<_> = all().into_iter().map(|scenario| scenario.name).collect();
    assert_eq!(
        names,
        [
            "rpm",
            "gear",
            "slip",
            "lock",
            "abs",
            "suspension",
            "flags",
            "brake_temperature",
            "velocity",
            "blink",
            "radar",
            "sim_on",
            "sim_off",
            "frozen_telemetry",
            "basic",
            "wheel_spin",
            "wheel_lock",
        ]
    );
}

#[test]
fn every_scenario_frame_matches_simdata_size() {
    for scenario in all() {
        assert!(!scenario.frames.is_empty(), "{}", scenario.name);
        for frame in &scenario.frames {
            assert_eq!(frame.as_bytes().len(), SIMDATA_SIZE, "{}", scenario.name);
        }
    }
}

#[test]
fn telemetry_reads_back_what_was_written() {
    let mut sim = Telemetry::new();
    assert_eq!(sim.as_bytes().len(), SIMDATA_SIZE);
    sim.set_rpms(4500);
    sim.set_maxrpm(8000);
    sim.set_gear(3);
    sim.set_velocity(123);
    sim.set_mtick(u64::MAX - 1);
    sim.set_simexe(3_917_090);
    sim.set_simon(true);
    sim.set_gearc("R");
    assert_eq!(sim.rpms(), 4500);
    assert_eq!(sim.maxrpm(), 8000);
    assert_eq!(sim.gear(), 3);
    assert_eq!(sim.velocity(), 123);
    assert_eq!(sim.mtick(), u64::MAX - 1);
    assert_eq!(sim.simexe(), 3_917_090);
    assert!(sim.simon());
    assert_eq!(sim.gearc(), "R");
    sim.set_gearc("10th");
    assert_eq!(sim.gearc(), "10t");
}

#[test]
fn tyre_diameters_and_rolling_follow_the_float_bits() {
    let mut sim = Telemetry::new();
    assert!(!has_tyre_diameter(&sim));
    for wheel in 0..4 {
        sim.set_tyre_diameter_bits(wheel, 0.65f64.to_bits());
    }
    assert!(has_tyre_diameter(&sim));
    sim.set_tyre_diameter_bits(2, (-0.65f64).to_bits());
    assert!(!has_tyre_diameter(&sim));
    let copy = Telemetry::from_buf(SimDataBuf::new());
    assert_eq!(copy.as_bytes(), Telemetry::new().as_bytes());
    assert!(!chassis_is_rolling(&sim));
    sim.set_velocity(1);
    assert!(chassis_is_rolling(&sim));
}

#[test]
fn a_scenario_stream_is_magic_count_and_frames() {
    let scenarios = all();
    let rpm = &scenarios[0];
    let stream = cargopit::scenarios::encode(rpm);
    assert_eq!(&stream[..8], b"CPITSCN1");
    assert_eq!(&stream[8..12], &[4, 0, 0, 0]);
    assert_eq!(stream.len(), 12 + 4 * cargopit::scenarios::frame_size());
    assert_eq!(&stream[12..12 + cargopit::scenarios::frame_size()], rpm.frames[0].as_bytes());
}

#[test]
fn simnet_writes_log_their_first_nine_bytes() {
    let report = [0x01, 0x00, 0x01, 0x28, 0x64, 0x00, 0x00, 0x00, 0x00, 0x7f];
    assert_eq!(
        cargopit::games::simnet_write_message(&report),
        "writing bytes x01x00x01x28x64x00x00x00x00"
    );
    assert_eq!(cargopit::games::simnet_write_message(&[0xab]), "writing bytes xabx00x00x00x00x00x00x00x00");
}
