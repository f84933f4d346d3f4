//! Which profile loads, which configured devices are skipped, and what kind
//! and effect a device entry names.
use vstd::prelude::*;
use vstd::string::StringSliceAdditionalSpecFns;
use crate::device::DeviceKind;
use crate::log::Level;
use crate::names::{eq_ignore_case, effects, lookup, spec_effects, spec_lookup, str_eq_ignore_case, CONFIG_INDEX_FIRST, SUBTYPE_SERIAL_WHEEL};
use crate::games::{
    serial_baud_message, serial_init_port_message, serial_looking_message, serial_subtype_message,
    skipping_disabled_message, tach_element_message, tach_pulses_message, tach_settings_size_message,
    DEVICE_NAME_MISSING, MSG_MOZA_ARMED, MSG_MOZA_ARM_FAILED, MSG_MOZA_NEW_INIT, MSG_MOZA_RPM_FAILED,
    MSG_SERIAL_NO_EXISTING, MSG_SERIAL_OPENING, MSG_SERIAL_PORT_OPENED, MSG_SERIAL_SETUP_OK, MSG_SERIAL_START,
    MSG_SHARE_EXCLUSIVE, MSG_SHARE_HANDLE, MSG_SHARE_HUPCL, MSG_SKIP_AUDIO, MSG_TACH_GETTING_PULSES,
};
use crate::serial::MozaNewStep;
use crate::text::{dec, dec_int, string_of};
use crate::transport::ShareWarning;
use crate::usb::TachPulses;

verus! {

pub const CLASS_USB: &'static str = "USB";
pub const CLASS_SOUND: &'static str = "Sound";
pub const CLASS_SERIAL: &'static str = "Serial";

/// A line to log while devices come up.
#[derive(Clone, Debug)]
pub struct InitNotice {
    pub level: Level,
    pub message: String,
}

/// Why a configured device is not opened.
#[derive(Clone, Copy, Debug, PartialEq, Eq, Structural)]
pub enum DeviceSkip {
    Disabled,
    AudioDisabled,
}

/// The profile to open: the first when none was requested, none when there
/// are no profiles or the request is out of range.
pub fn profile_index(profile_count: usize, requested: i32) -> (r: Option<usize>)
    ensures
        r == (if profile_count == 0 {
            None
        } else if requested < CONFIG_INDEX_FIRST {
            Some(0usize)
        } else if requested >= profile_count {
            None
        } else {
            Some(requested as usize)
        }),
        r matches Some(i) ==> i < profile_count,
{
    if profile_count == 0 {
        return None;
    }
    if requested < CONFIG_INDEX_FIRST {
        return Some(0);
    }
    if requested as usize >= profile_count {
        return None;
    }
    Some(requested as usize)
}

/// The kind a device class names, ignoring ASCII case.
pub open spec fn spec_device_kind(name: &str) -> DeviceKind {
    if eq_ignore_case(name.spec_bytes(), CLASS_USB.spec_bytes()) {
        DeviceKind::Usb
    } else if eq_ignore_case(name.spec_bytes(), CLASS_SERIAL.spec_bytes()) {
        DeviceKind::Serial
    } else if eq_ignore_case(name.spec_bytes(), CLASS_SOUND.spec_bytes()) {
        DeviceKind::Sound
    } else {
        DeviceKind::Unknown
    }
}

/// The kind a device class names.
pub fn device_kind(name: &str) -> (r: DeviceKind)
    ensures
        r == spec_device_kind(name),
{
    if str_eq_ignore_case(name, CLASS_USB) {
        return DeviceKind::Usb;
    }
    if str_eq_ignore_case(name, CLASS_SERIAL) {
        return DeviceKind::Serial;
    }
    if str_eq_ignore_case(name, CLASS_SOUND) {
        return DeviceKind::Sound;
    }
    DeviceKind::Unknown
}

/// The kind of a device entry, from its `device` class or else its `type`.
pub fn entry_kind(device: Option<&str>, device_type: Option<&str>) -> (r: DeviceKind)
    ensures
        r == (match device {
            Some(d) => spec_device_kind(d),
            None => match device_type {
                Some(t) => spec_device_kind(t),
                None => spec_device_kind(""),
            },
        }),
{
    let class = match device {
        Some(d) => d,
        None => match device_type {
            Some(t) => t,
            None => "",
        },
    };
    device_kind(class)
}

/// A device switched off is skipped; so is a sound device when audio is off.
pub fn device_skip(enabled: Option<bool>, kind: DeviceKind, disable_audio: bool) -> (r: Option<DeviceSkip>)
    ensures
        r == (if enabled == Some(false) {
            Some(DeviceSkip::Disabled)
        } else if disable_audio && kind == DeviceKind::Sound {
            Some(DeviceSkip::AudioDisabled)
        } else {
            None
        }),
{
    if let Some(false) = enabled {
        return Some(DeviceSkip::Disabled);
    }
    if disable_audio && kind == DeviceKind::Sound {
        return Some(DeviceSkip::AudioDisabled);
    }
    None
}

/// The effect number an entry's `effect` name gives, if any.
pub fn device_effect(effect_name: Option<&str>) -> (r: Option<i32>)
    ensures
        r == (match effect_name {
            Some(n) => spec_lookup(spec_effects(), n),
            None => None,
        }),
{
    let name = match effect_name {
        Some(n) => n,
        None => return None,
    };
    let table = effects();
    lookup(table.as_slice(), name)
}


/// Each notice as its level and text.
pub open spec fn notice_views(v: Seq<InitNotice>) -> Seq<(Level, Seq<char>)> {
    Seq::new(v.len(), |i: int| (v[i].level, v[i].message@))
}

/// `s`, then `n` when `on`.
pub open spec fn push_if(s: Seq<(Level, Seq<char>)>, on: bool, n: (Level, Seq<char>)) -> Seq<(Level, Seq<char>)> {
    if on { s.push(n) } else { s }
}

fn notice(level: Level, message: String) -> (n: InitNotice)
    ensures
        n.level == level,
        n.message@ == message@,
{
    InitNotice { level, message }
}

fn push_notice(v: &mut Vec<InitNotice>, level: Level, message: String)
    ensures
        notice_views(final(v)@) == notice_views(old(v)@).push((level, message@)),
{
    v.push(notice(level, message));
    assert(notice_views(v@) =~= notice_views(old(v)@).push((level, message@)));
}

/// What a Moza rim's step reports: a failed arming, a fresh arming, a failed
/// rpm write, in that order.
pub fn moza_step_notices(step: &MozaNewStep) -> (r: Vec<InitNotice>)
    ensures
        notice_views(r@) == push_if(
            push_if(
                push_if(Seq::empty(), step.arm_failed, (Level::Warn, MSG_MOZA_ARM_FAILED@)),
                step.just_armed,
                (Level::Info, MSG_MOZA_ARMED@),
            ),
            step.rpm_failed,
            (Level::Warn, MSG_MOZA_RPM_FAILED@),
        ),
{
    let mut notices: Vec<InitNotice> = Vec::new();
    assert(notice_views(notices@) =~= Seq::<(Level, Seq<char>)>::empty());
    if step.arm_failed {
        push_notice(&mut notices, Level::Warn, string_of(MSG_MOZA_ARM_FAILED));
    }
    if step.just_armed {
        push_notice(&mut notices, Level::Info, string_of(MSG_MOZA_ARMED));
    }
    if step.rpm_failed {
        push_notice(&mut notices, Level::Warn, string_of(MSG_MOZA_RPM_FAILED));
    }
    notices
}

/// The warning for what could not be changed when sharing a port.
pub fn share_notice(warning: ShareWarning) -> (n: InitNotice)
    ensures
        n.level == Level::Warn,
        n.message@ == (match warning {
            ShareWarning::NativeHandle => MSG_SHARE_HANDLE@,
            ShareWarning::Exclusive => MSG_SHARE_EXCLUSIVE@,
            ShareWarning::Hupcl => MSG_SHARE_HUPCL@,
        }),
{
    let message = match warning {
        ShareWarning::NativeHandle => MSG_SHARE_HANDLE,
        ShareWarning::Exclusive => MSG_SHARE_EXCLUSIVE,
        ShareWarning::Hupcl => MSG_SHARE_HUPCL,
    };
    notice(Level::Warn, string_of(message))
}

/// What opening a new-firmware Moza rim on `path` at `configured` baud logs
/// before the port is opened.
pub fn moza_lookup_notices(path: &str, configured: i64) -> (r: Vec<InitNotice>)
    ensures
        notice_views(r@) == seq![
            (Level::Trace, "Attempting to configure arduino device with subtype: "@ + dec_int(SUBTYPE_SERIAL_WHEEL as int)),
            (Level::Info, MSG_MOZA_NEW_INIT@),
            (Level::Info, MSG_SERIAL_START@),
            (Level::Info, "initializing serial device on port "@ + path@ + " to "@ + dec_int(configured as int) + "..."@),
            (Level::Info, "looking to open physical serialdevice "@ + path@),
            (Level::Debug, MSG_SERIAL_NO_EXISTING@),
            (Level::Info, MSG_SERIAL_OPENING@),
        ],
{
    let mut notices: Vec<InitNotice> = Vec::new();
    assert(notice_views(notices@) =~= Seq::<(Level, Seq<char>)>::empty());
    push_notice(&mut notices, Level::Trace, serial_subtype_message(SUBTYPE_SERIAL_WHEEL));
    push_notice(&mut notices, Level::Info, string_of(MSG_MOZA_NEW_INIT));
    push_notice(&mut notices, Level::Info, string_of(MSG_SERIAL_START));
    push_notice(&mut notices, Level::Info, serial_init_port_message(path, configured));
    push_notice(&mut notices, Level::Info, serial_looking_message(path));
    push_notice(&mut notices, Level::Debug, string_of(MSG_SERIAL_NO_EXISTING));
    push_notice(&mut notices, Level::Info, string_of(MSG_SERIAL_OPENING));
    notices
}

/// What a Moza rim's port logs once it is open at `baud`.
pub fn moza_ready_notices(baud: u32) -> (r: Vec<InitNotice>)
    ensures
        notice_views(r@) == seq![
            (Level::Debug, MSG_SERIAL_PORT_OPENED@),
            (Level::Debug, "Setting port to "@ + dec(baud as nat) + " 8N1, no flow control"@),
            (Level::Debug, MSG_SERIAL_SETUP_OK@),
        ],
{
    let mut notices: Vec<InitNotice> = Vec::new();
    assert(notice_views(notices@) =~= Seq::<(Level, Seq<char>)>::empty());
    push_notice(&mut notices, Level::Debug, string_of(MSG_SERIAL_PORT_OPENED));
    push_notice(&mut notices, Level::Debug, serial_baud_message(baud));
    push_notice(&mut notices, Level::Debug, string_of(MSG_SERIAL_SETUP_OK));
    notices
}

/// The device class a kind is logged as.
pub fn class_label(kind: DeviceKind) -> (r: &'static str)
    ensures
        r@ == (match kind {
            DeviceKind::Usb => CLASS_USB@,
            DeviceKind::Sound => CLASS_SOUND@,
            DeviceKind::Serial => CLASS_SERIAL@,
            DeviceKind::Unknown => DEVICE_NAME_MISSING@,
        }),
{
    match kind {
        DeviceKind::Usb => CLASS_USB,
        DeviceKind::Sound => CLASS_SOUND,
        DeviceKind::Serial => CLASS_SERIAL,
        DeviceKind::Unknown => DEVICE_NAME_MISSING,
    }
}

/// Why a device at `index` was skipped, as it is logged.
pub fn skip_message(skip: DeviceSkip, index: i32) -> (s: String)
    ensures
        s@ == (match skip {
            DeviceSkip::Disabled => "skipping disabled device at index "@ + dec_int(index as int),
            DeviceSkip::AudioDisabled => MSG_SKIP_AUDIO@,
        }),
{
    match skip {
        DeviceSkip::Disabled => skipping_disabled_message(index),
        DeviceSkip::AudioDisabled => string_of(MSG_SKIP_AUDIO),
    }
}

/// A telemetry count as an `i32`, `i32::MAX` when it does not fit.
pub fn telemetry_i32(value: u32) -> (r: i32)
    ensures
        r == (if value <= i32::MAX { value as i32 } else { i32::MAX }),
{
    if value <= 2_147_483_647 { value as i32 } else { 2_147_483_647 }
}

/// What a tachometer logs for a pulse lookup of a table of `size` entries:
/// for a table lookup, that pulses are being read, then for an indexed one
/// the table size and the element; then the pulses sent.
pub fn tach_trace_notices(sample: &TachPulses, size: usize) -> (r: Vec<InitNotice>)
    ensures
        notice_views(r@) == (match *sample {
            TachPulses::Frame(_) => Seq::<(Level, Seq<char>)>::empty(),
            TachPulses::Idle(_) => seq![(Level::Trace, MSG_TACH_GETTING_PULSES@)],
            TachPulses::Indexed { element, .. } => seq![
                (Level::Trace, MSG_TACH_GETTING_PULSES@),
                (Level::Trace, "Tach settings size "@ + dec_int(if size <= i32::MAX { size as int } else { i32::MAX as int })),
                (Level::Trace, "Retrieveing element "@ + dec_int(if element <= i32::MAX { element as int } else { i32::MAX as int })),
            ],
        }).push((Level::Trace, "Settings tachometer pulses to "@ + dec(sample.spec_pulses() as nat))),
{
    let mut notices: Vec<InitNotice> = Vec::new();
    assert(notice_views(notices@) =~= Seq::<(Level, Seq<char>)>::empty());
    match sample {
        TachPulses::Frame(_) => {},
        TachPulses::Idle(_) => {
            push_notice(&mut notices, Level::Trace, string_of(MSG_TACH_GETTING_PULSES));
        },
        TachPulses::Indexed { element, .. } => {
            push_notice(&mut notices, Level::Trace, string_of(MSG_TACH_GETTING_PULSES));
            let size32: i32 = if size <= 2_147_483_647 { size as i32 } else { 2_147_483_647 };
            push_notice(&mut notices, Level::Trace, tach_settings_size_message(size32));
            let element32 = telemetry_i32(*element);
            push_notice(&mut notices, Level::Trace, tach_element_message(element32));
        },
    }
    push_notice(&mut notices, Level::Trace, tach_pulses_message(sample.pulses()));
    notices
}

} // verus!
