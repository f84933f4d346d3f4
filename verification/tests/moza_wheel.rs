use cargopit::serial::{
    alert_mode, bar_mask, desired_bar, MozaBar, MozaFrameFacts, MozaNewWheel, Rgb, MOZA_CORNERS,
};

const DARK: Rgb = Rgb { r: 0, g: 0, b: 0 };
const MS: u64 = 1_000_000;

fn facts() -> MozaFrameFacts {
    MozaFrameFacts {
        active: true,
        locking: false,
        lock_clear: true,
        abs_on: false,
        brake_show: false,
        brake_low: true,
        corners: [DARK; MOZA_CORNERS],
    }
}

#[test]
fn a_lock_stays_latched_until_the_slip_clears() {
    let mut wheel = MozaNewWheel::new();
    let mut f = facts();
    f.locking = true;
    f.lock_clear = false;
    assert_eq!(alert_mode(&mut wheel, &f), MozaBar::Lock);
    assert!(wheel.lock_latched);
    assert_eq!(alert_mode(&mut wheel, &f), MozaBar::Lock);
    f.lock_clear = true;
    assert_eq!(alert_mode(&mut wheel, &f), MozaBar::Rpm);
    assert!(!wheel.lock_latched);
}

#[test]
fn abs_follows_the_frame_and_yields_to_a_lock() {
    let mut wheel = MozaNewWheel::new();
    let mut f = facts();
    f.abs_on = true;
    assert_eq!(alert_mode(&mut wheel, &f), MozaBar::Abs);
    f.locking = true;
    f.lock_clear = false;
    assert_eq!(alert_mode(&mut wheel, &f), MozaBar::Lock);
    f.locking = false;
    f.abs_on = false;
    assert_eq!(alert_mode(&mut wheel, &f), MozaBar::Rpm);
}

#[test]
fn the_brake_bar_shows_and_hides_with_hysteresis() {
    let mut wheel = MozaNewWheel::new();
    let mut f = facts();
    f.brake_show = true;
    f.brake_low = false;
    assert_eq!(desired_bar(&mut wheel, &f, MozaBar::Rpm), MozaBar::Brake);
    f.brake_show = false;
    assert_eq!(desired_bar(&mut wheel, &f, MozaBar::Rpm), MozaBar::Brake);
    assert_eq!(desired_bar(&mut wheel, &f, MozaBar::Abs), MozaBar::Abs);
    f.brake_low = true;
    assert_eq!(desired_bar(&mut wheel, &f, MozaBar::Rpm), MozaBar::Rpm);
}

#[test]
fn an_alert_bar_blinks_and_shows_the_whole_bar_off_the_brake() {
    let mut wheel = MozaNewWheel::new();
    wheel.reset(0);
    assert_eq!(bar_mask(&mut wheel, MozaBar::Lock, false, (0x7, 3), (0x1, 1), 50 * MS), 0x3ff);
    assert_eq!(wheel.last_brake_lit, 10);
    assert_eq!(bar_mask(&mut wheel, MozaBar::Abs, false, (0x7, 3), (0x1, 1), 150 * MS), 0);
    assert_eq!(bar_mask(&mut wheel, MozaBar::Abs, true, (0x7, 3), (0x1, 1), 230 * MS), 0x7);
    assert_eq!(wheel.last_brake_lit, 3);
    assert_eq!(bar_mask(&mut wheel, MozaBar::Rpm, true, (0x7, 3), (0x1f, 5), 230 * MS), 0x1f);
    assert_eq!(wheel.last_brake_lit, 0);
    assert_eq!(wheel.last_rpm_lit, 5);
}

#[test]
fn an_idle_sim_arms_then_blanks_the_wheel() {
    let mut wheel = MozaNewWheel::new();
    let mut f = facts();
    f.active = false;
    let (step, go_on) = wheel.tick_lights(&f, 5 * MS);
    assert!(!go_on);
    assert!(step.just_armed);
    assert!(!step.arm_failed);
    assert_eq!(step.frames.len(), 10);
    assert!(wheel.armed);
    assert_eq!(wheel.started_ns, 5 * MS);
}

#[test]
fn an_active_tick_ends_with_the_rpm_mask_frame() {
    let mut wheel = MozaNewWheel::new();
    let lit = Rgb { r: 255, g: 220, b: 0 };
    let mut f = facts();
    f.corners = [lit, DARK, DARK, DARK];
    let (mut step, go_on) = wheel.tick_lights(&f, 0);
    assert!(go_on);
    assert!(step.just_armed);
    assert_eq!(step.frames.len(), 9);
    assert_eq!(wheel.last_corners, [lit, DARK, DARK, DARK]);
    assert!(wheel.has_button_write);
    wheel.tick_rpm(&mut step, false, (0, 0), (0x3ff, 10), 0);
    assert!(step.rpm_sent);
    assert!(!step.rpm_failed);
    assert_eq!(wheel.last_rpm_lit, 10);
    assert_eq!(
        step.frames.last().expect("rpm frame"),
        &vec![0x7e, 0x0a, 0x3f, 0x17, 0x1a, 0x00, 0xff, 0x03, 0x00, 0x00, 0xff, 0x03, 0x00, 0x00, 0x09]
    );
}

#[test]
fn unchanged_corners_are_not_written_again() {
    let mut wheel = MozaNewWheel::new();
    let lit = Rgb { r: 255, g: 0, b: 0 };
    let mut f = facts();
    f.corners = [DARK, lit, DARK, DARK];
    let (_, _) = wheel.tick_lights(&f, 0);
    let (step, go_on) = wheel.tick_lights(&f, 500 * MS);
    assert!(go_on);
    assert!(!step.just_armed);
    assert!(step.frames.is_empty());
}
