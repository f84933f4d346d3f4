//! The hardware test's plan and script: which configured devices are
//! tested, and the step lines each test announces. The ticks between steps,
//! the frames they publish and the slip readings belong to the host.
use vstd::prelude::*;
use crate::device::DeviceKind;
use crate::devices::device_effect;
use crate::loader::{spec_entry_kind, spec_lookup_opt, DeviceEntry};
use crate::names::{
    spec_effects, spec_lookup, spec_tyres, tyre_or_all_four, EFFECT_ABS, EFFECT_ENGINE, EFFECT_GEAR,
    EFFECT_SUSPENSION, EFFECT_TYRE_LOCK, EFFECT_TYRE_SLIP, TYRE_ALL_FOUR, TYRE_FRONT_LEFT,
};
use crate::testmode::{
    named, preparing, step, LABEL_ABS, LABEL_DEVICE, LABEL_EFFECT, LABEL_GEAR, LABEL_SERIAL_LIGHTS,
    LABEL_SUSPENSION, LABEL_TYRE_LOCK, LABEL_TYRE_SLIP, LABEL_USB_LIGHTS, MSG_ABS, MSG_BLUE, MSG_BUTTONS, MSG_COAST,
    MSG_DEVICE_INDEX, MSG_FINISHED, MSG_FIRST, MSG_FOURTH, MSG_GREEN, MSG_LOCK, MSG_PREPARING, MSG_RED, MSG_REV,
    MSG_RPM_IDLE, MSG_SECOND, MSG_SPEED_FAST, MSG_SPEED_SLOW, MSG_SPEED_TOP, MSG_SPIN, MSG_STARTING,
    MSG_SUSPENSION, MSG_THIRD, MSG_YELLOW, STEP_PREFIX,
};
use crate::text::{dec, push_str, push_u64, string_of};

verus! {

/// One device under test.
#[derive(Clone, Copy, Debug, PartialEq, Eq, Structural)]
pub struct TestSubject {
    pub kind: DeviceKind,
    pub effect: Option<i32>,
    pub active: bool,
    /// The haptic threshold, as the bits of its IEEE-754 double.
    pub threshold_bits: u64,
    pub tyre: i32,
}

/// Which devices a test drives.
#[derive(Clone, Debug)]
pub enum TestPlan {
    /// No configuration or no profile.
    Empty,
    /// The requested device index names no entry.
    MissingIndex,
    Ready { subjects: Vec<TestSubject>, device_index: Option<u32> },
}

/// The tyre-reading effects.
pub open spec fn uses_tyre(effect: i32) -> bool {
    effect == EFFECT_TYRE_SLIP || effect == EFFECT_TYRE_LOCK || effect == EFFECT_ABS || effect == EFFECT_SUSPENSION
}

/// The subject an entry gives: active unless switched off (or forced on)
/// or a muted sound device; its threshold and tyre only for effects that
/// read a tyre, with the front left tyre when none is named.
pub open spec fn spec_subject(e: DeviceEntry, disable_audio: bool, force_enabled: bool) -> TestSubject {
    let kind = spec_entry_kind(e);
    let effect = spec_lookup_opt(spec_effects(), e.effect);
    let id = match effect { Some(v) => v, None => EFFECT_ENGINE };
    TestSubject {
        kind,
        effect,
        active: (force_enabled || e.enabled != Some(false)) && !(disable_audio && kind == DeviceKind::Sound),
        threshold_bits: if uses_tyre(id) { match e.threshold_bits { Some(b) => b, None => 0 } } else { 0 },
        tyre: if !uses_tyre(id) {
            TYRE_ALL_FOUR
        } else {
            match e.tyre {
                None => TYRE_FRONT_LEFT,
                Some(n) => match spec_lookup(spec_tyres(), n) { Some(v) => v, None => TYRE_ALL_FOUR },
            }
        },
    }
}

/// The subject an entry gives.
pub fn subject_from(e: &DeviceEntry, disable_audio: bool, force_enabled: bool) -> (t: TestSubject)
    ensures
        t == spec_subject(*e, disable_audio, force_enabled),
{
    let kind = crate::devices::entry_kind(e.device, e.device_type);
    let effect = device_effect(e.effect);
    let id = match effect {
        Some(v) => v,
        None => EFFECT_ENGINE,
    };
    let tyre_effect = id == EFFECT_TYRE_SLIP || id == EFFECT_TYRE_LOCK || id == EFFECT_ABS || id == EFFECT_SUSPENSION;
    let enabled = force_enabled || e.enabled != Some(false);
    let muted = disable_audio && kind == DeviceKind::Sound;
    let threshold_bits: u64 = if tyre_effect {
        match e.threshold_bits {
            Some(b) => b,
            None => 0,
        }
    } else {
        0
    };
    let tyre = if !tyre_effect {
        TYRE_ALL_FOUR
    } else {
        match e.tyre {
            None => TYRE_FRONT_LEFT,
            Some(n) => tyre_or_all_four(n),
        }
    };
    TestSubject { kind, effect, active: enabled && !muted, threshold_bits, tyre }
}

/// The subjects of a profile's entries.
pub open spec fn spec_subjects(entries: Seq<DeviceEntry>, disable_audio: bool) -> Seq<TestSubject> {
    Seq::new(entries.len(), |i: int| spec_subject(entries[i], disable_audio, false))
}

/// The test plan for a profile's entries (none without a profile): one
/// device, switched on, when an index is asked for, else every device.
pub fn test_plan(entries: Option<&[DeviceEntry]>, device_index: i32, disable_audio: bool) -> (p: TestPlan)
    ensures
        match entries {
            None => p is Empty,
            Some(es) => if device_index >= 0 {
                if device_index >= es@.len() {
                    p is MissingIndex
                } else {
                    p matches TestPlan::Ready { subjects, device_index: Some(i) }
                        && i == device_index
                        && subjects@ == seq![spec_subject(es@[device_index as int], disable_audio, true)]
                }
            } else {
                p matches TestPlan::Ready { subjects, device_index: None }
                    && subjects@ == spec_subjects(es@, disable_audio)
            },
        },
{
    let es = match entries {
        None => return TestPlan::Empty,
        Some(es) => es,
    };
    if device_index >= 0 {
        if device_index as usize >= es.len() {
            return TestPlan::MissingIndex;
        }
        let s = subject_from(&es[device_index as usize], disable_audio, true);
        let mut subjects: Vec<TestSubject> = Vec::new();
        subjects.push(s);
        assert(subjects@ =~= seq![spec_subject(es@[device_index as int], disable_audio, true)]);
        return TestPlan::Ready { subjects, device_index: Some(device_index as u32) };
    }
    let mut subjects: Vec<TestSubject> = Vec::new();
    let mut i: usize = 0;
    while i < es.len()
        invariant
            i <= es@.len(),
            subjects@ == spec_subjects(es@, disable_audio).subrange(0, i as int),
        decreases es@.len() - i,
    {
        subjects.push(subject_from(&es[i], disable_audio, false));
        i += 1;
        assert(subjects@ =~= spec_subjects(es@, disable_audio).subrange(0, i as int));
    }
    assert(subjects@ =~= spec_subjects(es@, disable_audio));
    TestPlan::Ready { subjects, device_index: None }
}

/// The effects a haptic test names.
pub open spec fn named_haptic(effect: i32) -> bool {
    effect == EFFECT_GEAR || effect == EFFECT_TYRE_LOCK || effect == EFFECT_TYRE_SLIP || effect == EFFECT_ABS
        || effect == EFFECT_SUSPENSION
}

/// A sound device, or a device with a named haptic effect, runs a haptic test.
pub open spec fn spec_is_haptic(s: TestSubject) -> bool {
    s.kind == DeviceKind::Sound || (s.effect matches Some(e) && named_haptic(e))
}

/// The effect a haptic test runs.
pub open spec fn run_effect(s: TestSubject) -> i32 {
    match s.effect { Some(e) => e, None => EFFECT_ENGINE }
}

/// The label of an effect's test.
pub open spec fn spec_effect_label(effect: i32) -> Seq<char> {
    if effect == EFFECT_GEAR {
        LABEL_GEAR@
    } else if effect == EFFECT_TYRE_LOCK {
        LABEL_TYRE_LOCK@
    } else if effect == EFFECT_ABS {
        LABEL_ABS@
    } else if effect == EFFECT_TYRE_SLIP {
        LABEL_TYRE_SLIP@
    } else if effect == EFFECT_SUSPENSION {
        LABEL_SUSPENSION@
    } else {
        LABEL_EFFECT@
    }
}

/// The label a subject's test announces.
pub open spec fn spec_device_label(s: TestSubject) -> Seq<char> {
    if spec_is_haptic(s) {
        spec_effect_label(run_effect(s))
    } else if s.kind == DeviceKind::Serial {
        LABEL_SERIAL_LIGHTS@
    } else if s.kind == DeviceKind::Usb {
        LABEL_USB_LIGHTS@
    } else {
        LABEL_DEVICE@
    }
}

fn effect_label(effect: i32) -> (r: &'static str)
    ensures
        r@ == spec_effect_label(effect),
{
    if effect == EFFECT_GEAR {
        LABEL_GEAR
    } else if effect == EFFECT_TYRE_LOCK {
        LABEL_TYRE_LOCK
    } else if effect == EFFECT_ABS {
        LABEL_ABS
    } else if effect == EFFECT_TYRE_SLIP {
        LABEL_TYRE_SLIP
    } else if effect == EFFECT_SUSPENSION {
        LABEL_SUSPENSION
    } else {
        LABEL_EFFECT
    }
}

/// Whether a subject runs a haptic test.
pub fn is_haptic(s: &TestSubject) -> (r: bool)
    ensures
        r == spec_is_haptic(*s),
{
    if s.kind == DeviceKind::Sound {
        return true;
    }
    match s.effect {
        Some(e) => e == EFFECT_GEAR || e == EFFECT_TYRE_LOCK || e == EFFECT_TYRE_SLIP || e == EFFECT_ABS
            || e == EFFECT_SUSPENSION,
        None => false,
    }
}

/// The label a subject's test announces.
pub fn device_label(s: &TestSubject) -> (r: &'static str)
    ensures
        r@ == spec_device_label(*s),
{
    if is_haptic(s) {
        let e = match s.effect {
            Some(e) => e,
            None => EFFECT_ENGINE,
        };
        return effect_label(e);
    }
    if s.kind == DeviceKind::Serial {
        return LABEL_SERIAL_LIGHTS;
    }
    if s.kind == DeviceKind::Usb {
        return LABEL_USB_LIGHTS;
    }
    LABEL_DEVICE
}

/// One line of the script: a step to announce, or the slip reading the host
/// writes from its live frame.
#[derive(Clone, Debug)]
pub enum ScriptLine {
    Step(String),
    SlipReading,
}

/// A line as text, with `None` for the slip reading.
pub open spec fn line_view(l: ScriptLine) -> Option<Seq<char>> {
    match l {
        ScriptLine::Step(s) => Some(s@),
        ScriptLine::SlipReading => None,
    }
}

pub open spec fn lines_view(v: Seq<ScriptLine>) -> Seq<Option<Seq<char>>> {
    Seq::new(v.len(), |i: int| line_view(v[i]))
}

pub open spec fn st(m: &str) -> Option<Seq<char>> {
    Some(STEP_PREFIX@ + m@)
}

/// The steps of a lights test.
pub open spec fn lights_steps() -> Seq<Option<Seq<char>>> {
    seq![
        st(MSG_REV), st(MSG_RPM_IDLE), st(MSG_GREEN), st(MSG_YELLOW), st(MSG_BLUE), st(MSG_RED), st(MSG_BUTTONS),
        st(MSG_SPEED_SLOW), st(MSG_SPEED_FAST), st(MSG_SPEED_TOP),
    ]
}

/// The steps of an effect's haptic test.
pub open spec fn haptic_steps(effect: i32) -> Seq<Option<Seq<char>>> {
    if effect == EFFECT_ENGINE {
        seq![st(MSG_REV), st(MSG_RPM_IDLE)]
    } else if effect == EFFECT_GEAR {
        seq![st(MSG_FIRST), st(MSG_SECOND), st(MSG_THIRD), st(MSG_FOURTH)]
    } else if effect == EFFECT_TYRE_SLIP {
        seq![None, st(MSG_SPIN)]
    } else if effect == EFFECT_TYRE_LOCK {
        seq![None, st(MSG_LOCK)]
    } else if effect == EFFECT_ABS {
        seq![None, st(MSG_ABS)]
    } else if effect == EFFECT_SUSPENSION {
        seq![st(MSG_SUSPENSION)]
    } else {
        Seq::empty()
    }
}

/// What one subject's test announces when nothing stops it: nothing when
/// inactive, else the start, its steps, the return to idle and the finish.
pub open spec fn spec_subject_lines(s: TestSubject) -> Seq<Option<Seq<char>>> {
    if !s.active {
        Seq::empty()
    } else {
        let label = spec_device_label(s);
        seq![Some(STEP_PREFIX@ + MSG_STARTING@ + " "@ + label)]
            + (if spec_is_haptic(s) { haptic_steps(run_effect(s)) } else { lights_steps() })
            + seq![st(MSG_COAST), Some(STEP_PREFIX@ + MSG_FINISHED@ + " "@ + label)]
    }
}

fn push_step(v: &mut Vec<ScriptLine>, m: &str)
    ensures
        lines_view(final(v)@) == lines_view(old(v)@).push(st(m)),
{
    v.push(ScriptLine::Step(step(m)));
    assert(lines_view(v@) =~= lines_view(old(v)@).push(st(m)));
}

fn push_slip(v: &mut Vec<ScriptLine>)
    ensures
        lines_view(final(v)@) == lines_view(old(v)@).push(None),
{
    v.push(ScriptLine::SlipReading);
    assert(lines_view(v@) =~= lines_view(old(v)@).push(None));
}

fn push_named(v: &mut Vec<ScriptLine>, action: &str, label: &str)
    ensures
        lines_view(final(v)@) == lines_view(old(v)@).push(Some(STEP_PREFIX@ + action@ + " "@ + label@)),
{
    v.push(ScriptLine::Step(named(action, label)));
    assert(lines_view(v@) =~= lines_view(old(v)@).push(Some(STEP_PREFIX@ + action@ + " "@ + label@)));
}

/// Appends what one subject's test announces.
pub fn push_subject_lines(v: &mut Vec<ScriptLine>, s: &TestSubject)
    ensures
        lines_view(final(v)@) == lines_view(old(v)@) + spec_subject_lines(*s),
{
    if !s.active {
        assert(lines_view(v@) =~= lines_view(old(v)@) + spec_subject_lines(*s));
        return;
    }
    let label = device_label(s);
    push_named(v, MSG_STARTING, label);
    if is_haptic(s) {
        let e = match s.effect {
            Some(e) => e,
            None => EFFECT_ENGINE,
        };
        if e == EFFECT_ENGINE {
            push_step(v, MSG_REV);
            push_step(v, MSG_RPM_IDLE);
        } else if e == EFFECT_GEAR {
            push_step(v, MSG_FIRST);
            push_step(v, MSG_SECOND);
            push_step(v, MSG_THIRD);
            push_step(v, MSG_FOURTH);
        } else if e == EFFECT_TYRE_SLIP {
            push_slip(v);
            push_step(v, MSG_SPIN);
        } else if e == EFFECT_TYRE_LOCK {
            push_slip(v);
            push_step(v, MSG_LOCK);
        } else if e == EFFECT_ABS {
            push_slip(v);
            push_step(v, MSG_ABS);
        } else if e == EFFECT_SUSPENSION {
            push_step(v, MSG_SUSPENSION);
        }
    } else {
        push_step(v, MSG_REV);
        push_step(v, MSG_RPM_IDLE);
        push_step(v, MSG_GREEN);
        push_step(v, MSG_YELLOW);
        push_step(v, MSG_BLUE);
        push_step(v, MSG_RED);
        push_step(v, MSG_BUTTONS);
        push_step(v, MSG_SPEED_SLOW);
        push_step(v, MSG_SPEED_FAST);
        push_step(v, MSG_SPEED_TOP);
    }
    push_step(v, MSG_COAST);
    push_named(v, MSG_FINISHED, label);
    assert(lines_view(v@) =~= lines_view(old(v)@) + spec_subject_lines(*s));
}

/// The announcements of every subject, in order.
pub open spec fn all_subject_lines(ss: Seq<TestSubject>) -> Seq<Option<Seq<char>>>
    decreases ss.len(),
{
    if ss.len() == 0 {
        Seq::empty()
    } else {
        all_subject_lines(ss.drop_last()) + spec_subject_lines(ss.last())
    }
}

/// The whole script when nothing stops it: the tested index, when one was
/// asked for, the preparing line, then each subject's test.
pub open spec fn spec_script(ss: Seq<TestSubject>, device_index: Option<u32>) -> Seq<Option<Seq<char>>> {
    (match device_index {
        Some(i) => seq![Some(MSG_DEVICE_INDEX@ + " "@ + dec(i as nat))],
        None => Seq::empty(),
    }) + seq![Some(STEP_PREFIX@ + MSG_PREPARING@ + " "@ + dec(ss.len()) + " devices..."@)] + all_subject_lines(ss)
}

/// The script a test announces.
pub fn script_lines(subjects: &[TestSubject], device_index: Option<u32>) -> (r: Vec<ScriptLine>)
    ensures
        lines_view(r@) == spec_script(subjects@, device_index),
{
    let mut v: Vec<ScriptLine> = Vec::new();
    assert(lines_view(v@) =~= Seq::<Option<Seq<char>>>::empty());
    if let Some(i) = device_index {
        let mut s = string_of(MSG_DEVICE_INDEX);
        push_str(&mut s, " ");
        push_u64(&mut s, i as u64);
        v.push(ScriptLine::Step(s));
    }
    v.push(ScriptLine::Step(preparing(subjects.len())));
    let ghost head = lines_view(v@);
    assert(head =~= spec_script(subjects@, device_index).subrange(0, head.len() as int)) by {
        assert(spec_script(subjects@, device_index) =~= head + all_subject_lines(subjects@));
    }
    let mut k: usize = 0;
    while k < subjects.len()
        invariant
            k <= subjects@.len(),
            lines_view(v@) == head + all_subject_lines(subjects@.subrange(0, k as int)),
        decreases subjects@.len() - k,
    {
        push_subject_lines(&mut v, &subjects[k]);
        assert(subjects@.subrange(0, k + 1).drop_last() =~= subjects@.subrange(0, k as int));
        k += 1;
    }
    assert(subjects@.subrange(0, k as int) =~= subjects@);
    assert(spec_script(subjects@, device_index) =~= head + all_subject_lines(subjects@));
    v
}

/// The steps a lights test announces after its preparation, with `label`
/// in place of the USB lights label.
pub open spec fn spec_light_script(label: Seq<char>) -> Seq<Seq<char>> {
    seq![STEP_PREFIX@ + MSG_STARTING@ + " "@ + label]
        + Seq::new(lights_steps().len(), |i: int| lights_steps()[i].unwrap())
        + seq![STEP_PREFIX@ + MSG_COAST@, STEP_PREFIX@ + MSG_FINISHED@ + " "@ + label]
}

/// The texts of a list of lines.
pub open spec fn texts(v: Seq<String>) -> Seq<Seq<char>> {
    Seq::new(v.len(), |i: int| v[i]@)
}

fn push_text(v: &mut Vec<String>, t: String)
    ensures
        texts(final(v)@) == texts(old(v)@).push(t@),
{
    v.push(t);
    assert(texts(v@) =~= texts(old(v)@).push(t@));
}

/// The step lines of a USB lights test, labelled with `label`.
pub fn light_script(label: &str) -> (r: Vec<String>)
    ensures
        texts(r@) == spec_light_script(label@),
{
    let mut out: Vec<String> = Vec::new();
    assert(texts(out@) =~= Seq::<Seq<char>>::empty());
    push_text(&mut out, named(MSG_STARTING, label));
    push_text(&mut out, step(MSG_REV));
    push_text(&mut out, step(MSG_RPM_IDLE));
    push_text(&mut out, step(MSG_GREEN));
    push_text(&mut out, step(MSG_YELLOW));
    push_text(&mut out, step(MSG_BLUE));
    push_text(&mut out, step(MSG_RED));
    push_text(&mut out, step(MSG_BUTTONS));
    push_text(&mut out, step(MSG_SPEED_SLOW));
    push_text(&mut out, step(MSG_SPEED_FAST));
    push_text(&mut out, step(MSG_SPEED_TOP));
    push_text(&mut out, step(MSG_COAST));
    push_text(&mut out, named(MSG_FINISHED, label));
    assert(texts(out@) =~= spec_light_script(label@));
    out
}

/// The lights script is the lights test's own announcements: with the USB
/// lights label, each of its lines is the line the test announces.
pub proof fn light_script_is_the_lights_test()
    ensures
        ({
            let s = TestSubject { kind: DeviceKind::Usb, effect: None, active: true, threshold_bits: 0, tyre: TYRE_FRONT_LEFT };
            let l = spec_subject_lines(s);
            &&& l.len() == spec_light_script(LABEL_USB_LIGHTS@).len()
            &&& forall|i: int| 0 <= i < l.len() ==> #[trigger] l[i] == Some(spec_light_script(LABEL_USB_LIGHTS@)[i])
        }),
{
    let s = TestSubject { kind: DeviceKind::Usb, effect: None, active: true, threshold_bits: 0, tyre: TYRE_FRONT_LEFT };
    let l = spec_subject_lines(s);
    assert(l.len() == spec_light_script(LABEL_USB_LIGHTS@).len());
    assert forall|i: int| 0 <= i < l.len() implies #[trigger] l[i] == Some(spec_light_script(LABEL_USB_LIGHTS@)[i]) by {
        if i == 0 {
        } else if i < 11 {
            assert(l[i] == lights_steps()[i - 1]);
        } else {
        }
    }
}


/// The test's idle and redline revs, its sweep step, its holds and pulses.
pub const RPM_IDLE: u32 = 1000;
pub const RPM_MAX: u32 = 8000;
pub const RPM_SWEEP_STEP: u32 = 50;
pub const PHASE_HOLD_US: u64 = 3_000_000;
pub const IDLE_HOLD_US: u64 = 1_000_000;
pub const GEAR_PULSE_TICKS: u64 = 8;
pub const ABS_PULSE_TICKS: u64 = 2;
pub const GEAR_NEUTRAL: u32 = 1;
/// The two ABS slip levels and the two suspension speeds, as IEEE-754 bits
/// of 0.40, 0.72, 2.0 and 18.0.
pub const SLIP_ABS_A_BITS: u64 = 0x3fd999999999999a;
pub const SLIP_ABS_B_BITS: u64 = 0x3fe70a3d70a3d70a;
pub const SUSP_VEL_A_BITS: u64 = 0x4000000000000000;
pub const SUSP_VEL_B_BITS: u64 = 0x4032000000000000;

/// The next rpm of a sweep: one step towards `to`, stopping on it.
pub open spec fn spec_next_rpm(rpm: u32, to: u32) -> u32 {
    if to >= rpm {
        if rpm + RPM_SWEEP_STEP >= to { to } else { (rpm + RPM_SWEEP_STEP) as u32 }
    } else {
        if rpm - RPM_SWEEP_STEP <= to { to } else { (rpm - RPM_SWEEP_STEP) as u32 }
    }
}

/// The rpm of each tick of a sweep from `from` to `to`, both included.
pub open spec fn sweep_seq(from: u32, to: u32) -> Seq<u32>
    decreases (if to >= from { to - from } else { from - to }),
{
    if from == to {
        seq![from]
    } else {
        seq![from] + sweep_seq(spec_next_rpm(from, to), to)
    }
}

/// The next rpm of a sweep.
pub fn next_rpm(rpm: u32, to: u32) -> (r: u32)
    requires
        rpm <= i32::MAX - RPM_SWEEP_STEP,
        to <= i32::MAX,
    ensures
        r == spec_next_rpm(rpm, to),
{
    if to >= rpm {
        if rpm + RPM_SWEEP_STEP >= to { to } else { rpm + RPM_SWEEP_STEP }
    } else {
        if rpm < RPM_SWEEP_STEP || rpm - RPM_SWEEP_STEP <= to { to } else { rpm - RPM_SWEEP_STEP }
    }
}

/// The rpm of each tick of a sweep.
pub fn sweep_rpms(from: u32, to: u32) -> (r: Vec<u32>)
    requires
        from <= i32::MAX - RPM_SWEEP_STEP,
        to <= i32::MAX - RPM_SWEEP_STEP,
    ensures
        r@ == sweep_seq(from, to),
{
    let mut out: Vec<u32> = Vec::new();
    let mut rpm = from;
    loop
        invariant
            rpm <= i32::MAX - RPM_SWEEP_STEP,
            to <= i32::MAX - RPM_SWEEP_STEP,
            out@ + sweep_seq(rpm, to) == sweep_seq(from, to),
        decreases (if to >= rpm { to - rpm } else { rpm - to }),
    {
        out.push(rpm);
        if rpm == to {
            assert(out@ =~= sweep_seq(from, to)) by {
                assert(sweep_seq(rpm, to) =~= seq![rpm]);
            }
            return out;
        }
        let next = next_rpm(rpm, to);
        assert(out@ + sweep_seq(next, to) =~= sweep_seq(from, to)) by {
            assert(sweep_seq(rpm, to) == seq![rpm] + sweep_seq(next, to));
        }
        rpm = next;
    }
}

/// A sweep across a whole number of steps takes one tick more than steps.
proof fn lemma_sweep_len(from: u32, to: u32, k: nat)
    requires
        from <= to || to <= from,
        (if to >= from { to - from } else { from - to }) == k * 50,
    ensures
        sweep_seq(from, to).len() == k + 1,
    decreases k,
{
    if k > 0 {
        lemma_sweep_len(spec_next_rpm(from, to), to, (k - 1) as nat);
    }
}

/// A hold's ticks.
pub open spec fn hold_ticks(us: u64) -> nat {
    (us / crate::testmode::TICK_US) as nat
}

/// The ticks one subject's test runs when nothing stops it: the sweeps, the
/// holds of its steps, and the return to idle.
pub open spec fn spec_subject_ticks(s: TestSubject) -> nat {
    if !s.active {
        0
    } else {
        let sweeps: nat = 2 * 141;
        let phase = hold_ticks(PHASE_HOLD_US);
        let body: nat = if !spec_is_haptic(s) {
            sweeps + 9 * phase
        } else {
            let e = run_effect(s);
            if e == EFFECT_ENGINE {
                sweeps + phase
            } else if e == EFFECT_GEAR {
                4 * phase
            } else if uses_tyre(e) {
                phase
            } else {
                0
            }
        };
        body + hold_ticks(IDLE_HOLD_US)
    }
}

/// The up and down sweeps between idle and redline take 141 ticks each.
pub proof fn redline_sweeps_take_141_ticks()
    ensures
        sweep_seq(RPM_IDLE, RPM_MAX).len() == 141,
        sweep_seq(RPM_MAX, RPM_IDLE).len() == 141,
{
    lemma_sweep_len(RPM_IDLE, RPM_MAX, 140);
    lemma_sweep_len(RPM_MAX, RPM_IDLE, 140);
}

/// The ticks one subject's test runs when nothing stops it.
pub fn subject_ticks(s: &TestSubject) -> (r: u64)
    ensures
        r == spec_subject_ticks(*s),
{
    if !s.active {
        return 0;
    }
    let phase = PHASE_HOLD_US / crate::testmode::TICK_US;
    let sweeps: u64 = 2 * 141;
    let body: u64 = if !is_haptic(s) {
        sweeps + 9 * phase
    } else {
        let e = match s.effect {
            Some(e) => e,
            None => EFFECT_ENGINE,
        };
        if e == EFFECT_ENGINE {
            sweeps + phase
        } else if e == EFFECT_GEAR {
            4 * phase
        } else if e == EFFECT_TYRE_SLIP || e == EFFECT_TYRE_LOCK || e == EFFECT_ABS || e == EFFECT_SUSPENSION {
            phase
        } else {
            0
        }
    };
    body + IDLE_HOLD_US / crate::testmode::TICK_US
}

/// The gear a gear test shows on a tick of its hold: the gear for eight
/// ticks, neutral for the next eight, and so on.
pub fn gear_pulse(tick: u64, gear: u32) -> (r: u32)
    ensures
        r == (if (tick / GEAR_PULSE_TICKS) % 2 == 0 { gear } else { GEAR_NEUTRAL }),
{
    if (tick / GEAR_PULSE_TICKS) % 2 == 0 { gear } else { GEAR_NEUTRAL }
}

/// The slip an ABS test shows on a tick of its hold: the lower level for two
/// ticks, the higher for the next two, and so on.
pub fn abs_slip_bits(tick: u64) -> (r: u64)
    ensures
        r == (if (tick / ABS_PULSE_TICKS) % 2 == 0 { SLIP_ABS_A_BITS } else { SLIP_ABS_B_BITS }),
{
    if (tick / ABS_PULSE_TICKS) % 2 == 0 { SLIP_ABS_A_BITS } else { SLIP_ABS_B_BITS }
}

/// The suspension speed a suspension test shows on a tick: the slow speed on
/// even ticks, the fast one on odd ticks.
pub fn suspension_bits(tick: u64) -> (r: u64)
    ensures
        r == (if tick % 2 == 0 { SUSP_VEL_A_BITS } else { SUSP_VEL_B_BITS }),
{
    if tick % 2 == 0 { SUSP_VEL_A_BITS } else { SUSP_VEL_B_BITS }
}

} // verus!
