//! Loading a device profile: which backend each configured entry goes to,
//! whether it is skipped, what a tachometer needs before it opens, what the
//! RevBurner's open makes of it, and the notices and devices the whole
//! profile ends with. The opens themselves belong to the host.
use vstd::prelude::*;
use crate::device::{DeviceKind, SimDevice};
use crate::devices::{
    class_label, device_effect, device_skip, entry_kind, notice_views, skip_message, spec_device_kind,
    DeviceSkip, InitNotice, CLASS_SERIAL, CLASS_SOUND, CLASS_USB,
};
use crate::games::{
    could_not_initialize_message, initialized_devices_message, starting_device_message, tach_config_load_message,
    tach_granularity_message, tach_xml_read_message, usb_init_error_message, DEVICE_NAME_MISSING, ERROR_UNKNOWN,
    MSG_INIT_REVBURNER, MSG_INIT_TACH, MSG_INIT_USB, MSG_REVBURNER_MISSING, MSG_TACH_CONFIG_NONE,
    MSG_TACH_CONFIG_REQUIRED, MSG_TACH_GRANULARITY_INVALID, MSG_TACH_XML_EMPTY,
};
use crate::log::Level;
use crate::names::{
    hardware, lookup, serial_types, spec_effects, spec_hardware, spec_lookup, spec_serial_types, spec_usb_types,
    usb_types, HARDWARE_CAMMUS_C12, HARDWARE_CAMMUS_C5,
    HARDWARE_CSL_ELITE, HARDWARE_LOGITECH_G29, HARDWARE_MOZA_NEW, HARDWARE_SIMAGIC_GT_NEO,
    HARDWARE_SIMAGIC_P1000, SUBTYPE_SERIAL_WHEEL, SUBTYPE_USB_HAPTIC, SUBTYPE_USB_WHEEL,
};
use crate::scheduler::{clamp_fps, spec_clamp_fps};
use crate::tach::{parse_tach_xml, spec_parse_tach_xml, TachPoint, ERR_NO_SETTINGS};
use crate::text::{dec, dec_int, str_is, str_is_ascii_ci, string_of, eq_ascii_ci};

verus! {

/// The configuration word that names no tachometer file.
pub const CONFIG_VALUE_NONE: &'static str = "none";

/// The lowest and highest tachometer granularity, the one value in between
/// that is refused, and what an unusable one becomes.
pub const GRANULARITY_MIN: i64 = 0;
pub const GRANULARITY_MAX: i64 = 4;
pub const GRANULARITY_REJECTED: i64 = 3;
pub const GRANULARITY_FALLBACK: i64 = 1;

/// The settings of one configured device that loading reads.
#[derive(Clone, Copy, Debug)]
pub struct DeviceEntry<'a> {
    pub device: Option<&'a str>,
    pub device_type: Option<&'a str>,
    pub subtype: Option<&'a str>,
    pub enabled: Option<bool>,
    pub effect: Option<&'a str>,
    pub config: Option<&'a str>,
    pub granularity: Option<i64>,
    pub fps: Option<i64>,
    /// A haptic threshold, as the bits of its IEEE-754 double.
    pub threshold_bits: Option<u64>,
    pub tyre: Option<&'a str>,
}

/// The backend an entry is handed to.
#[derive(Clone, Copy, Debug, PartialEq, Eq, Structural)]
pub enum EntryRoute {
    Tachometer,
    MozaWheel,
    Sound,
    LogitechG29,
    CammusC5,
    CammusC12,
    GtNeo,
    CslPedals,
    P1000,
    Closed,
}

/// The kind an entry names, by its `device` class or else its `type`.
pub open spec fn spec_entry_kind(e: DeviceEntry) -> DeviceKind {
    match e.device {
        Some(d) => spec_device_kind(d),
        None => match e.device_type {
            Some(t) => spec_device_kind(t),
            None => spec_device_kind(""),
        },
    }
}

/// The value a name has in a table, with no name giving none.
pub open spec fn spec_lookup_opt(table: Seq<crate::names::NameEntry>, name: Option<&str>) -> Option<i32> {
    match name {
        Some(n) => spec_lookup(table, n),
        None => None,
    }
}

/// A USB entry that is neither a wheel nor a haptic drives the RevBurner.
pub open spec fn uses_revburner(e: DeviceEntry) -> bool {
    spec_entry_kind(e) == DeviceKind::Usb && {
        let t = spec_lookup_opt(spec_usb_types(), e.device_type);
        t != Some(SUBTYPE_USB_WHEEL) && t != Some(SUBTYPE_USB_HAPTIC)
    }
}

/// A serial wheel of the new Moza firmware.
pub open spec fn is_moza_entry(e: DeviceEntry) -> bool {
    &&& spec_entry_kind(e) == DeviceKind::Serial
    &&& spec_lookup_opt(spec_serial_types(), e.device_type) == Some(SUBTYPE_SERIAL_WHEEL)
    &&& spec_lookup_opt(spec_hardware(), e.subtype) == Some(HARDWARE_MOZA_NEW)
}

/// A sound device with a known effect.
pub open spec fn is_sound_entry(e: DeviceEntry) -> bool {
    spec_entry_kind(e) == DeviceKind::Sound && spec_lookup_opt(spec_effects(), e.effect) is Some
}

/// A USB wheel of the given hardware.
pub open spec fn is_usb_wheel(e: DeviceEntry, hw: i32) -> bool {
    &&& spec_entry_kind(e) == DeviceKind::Usb
    &&& spec_lookup_opt(spec_usb_types(), e.device_type) == Some(SUBTYPE_USB_WHEEL)
    &&& spec_lookup_opt(spec_hardware(), e.subtype) == Some(hw)
}

/// The backend, tried in this order: tachometer, Moza wheel, sound, then the
/// USB wheels and pedals; anything else stays closed.
pub open spec fn spec_entry_route(e: DeviceEntry) -> EntryRoute {
    if uses_revburner(e) {
        EntryRoute::Tachometer
    } else if is_moza_entry(e) {
        EntryRoute::MozaWheel
    } else if is_sound_entry(e) {
        EntryRoute::Sound
    } else if is_usb_wheel(e, HARDWARE_LOGITECH_G29) {
        EntryRoute::LogitechG29
    } else if is_usb_wheel(e, HARDWARE_CAMMUS_C5) {
        EntryRoute::CammusC5
    } else if is_usb_wheel(e, HARDWARE_CAMMUS_C12) {
        EntryRoute::CammusC12
    } else if is_usb_wheel(e, HARDWARE_SIMAGIC_GT_NEO) {
        EntryRoute::GtNeo
    } else if is_usb_wheel(e, HARDWARE_CSL_ELITE) {
        EntryRoute::CslPedals
    } else if is_usb_wheel(e, HARDWARE_SIMAGIC_P1000) {
        EntryRoute::P1000
    } else {
        EntryRoute::Closed
    }
}

fn entry_kind_of(e: &DeviceEntry) -> (k: DeviceKind)
    ensures
        k == spec_entry_kind(*e),
{
    entry_kind(e.device, e.device_type)
}

fn lookup_opt(table: &Vec<crate::names::NameEntry>, name: Option<&str>) -> (r: Option<i32>)
    ensures
        r == spec_lookup_opt(table@, name),
{
    match name {
        Some(n) => lookup(table.as_slice(), n),
        None => None,
    }
}

fn usb_wheel(e: &DeviceEntry, hw: i32) -> (r: bool)
    ensures
        r == is_usb_wheel(*e, hw),
{
    if entry_kind_of(e) != DeviceKind::Usb {
        return false;
    }
    let types = usb_types();
    if lookup_opt(&types, e.device_type) != Some(SUBTYPE_USB_WHEEL) {
        return false;
    }
    let table = hardware();
    lookup_opt(&table, e.subtype) == Some(hw)
}

/// The backend an entry is handed to.
pub fn entry_route(e: &DeviceEntry) -> (r: EntryRoute)
    ensures
        r == spec_entry_route(*e),
{
    let kind = entry_kind_of(e);
    if kind == DeviceKind::Usb {
        let types = usb_types();
        let t = lookup_opt(&types, e.device_type);
        if t != Some(SUBTYPE_USB_WHEEL) && t != Some(SUBTYPE_USB_HAPTIC) {
            return EntryRoute::Tachometer;
        }
    }
    if kind == DeviceKind::Serial {
        let types = serial_types();
        let table = hardware();
        if lookup_opt(&types, e.device_type) == Some(SUBTYPE_SERIAL_WHEEL) && lookup_opt(&table, e.subtype) == Some(
            HARDWARE_MOZA_NEW,
        ) {
            return EntryRoute::MozaWheel;
        }
    }
    if kind == DeviceKind::Sound && device_effect(e.effect).is_some() {
        return EntryRoute::Sound;
    }
    if usb_wheel(e, HARDWARE_LOGITECH_G29) {
        return EntryRoute::LogitechG29;
    }
    if usb_wheel(e, HARDWARE_CAMMUS_C5) {
        return EntryRoute::CammusC5;
    }
    if usb_wheel(e, HARDWARE_CAMMUS_C12) {
        return EntryRoute::CammusC12;
    }
    if usb_wheel(e, HARDWARE_SIMAGIC_GT_NEO) {
        return EntryRoute::GtNeo;
    }
    if usb_wheel(e, HARDWARE_CSL_ELITE) {
        return EntryRoute::CslPedals;
    }
    if usb_wheel(e, HARDWARE_SIMAGIC_P1000) {
        return EntryRoute::P1000;
    }
    EntryRoute::Closed
}

/// Where a tachometer's pulse table comes from.
#[derive(Clone, Copy, Debug, PartialEq, Eq, Structural)]
pub enum TachSource {
    /// No `config` key.
    Unset,
    /// `config = "none"`, in any case.
    NamedNone,
    /// A file, after the host expands `~`.
    File,
}

/// A tachometer's pulse table as loading leaves it.
#[derive(Clone, Debug)]
pub struct TachMap {
    pub active: bool,
    pub granularity: u32,
    pub use_pulses: bool,
    pub pulses: Vec<u32>,
}

/// What a tachometer brings before it opens: the notices of reading its
/// file, whether it can open, and its table.
#[derive(Clone, Debug)]
pub struct TachPrep {
    pub notices: Vec<InitNotice>,
    pub ready: bool,
    pub map: TachMap,
}

/// The table of a device that is no tachometer.
pub open spec fn inactive_map(m: TachMap) -> bool {
    !m.active && m.granularity == 0 && !m.use_pulses && m.pulses@.len() == 0
}

pub open spec fn spec_tach_source(config: Option<&str>) -> TachSource {
    match config {
        None => TachSource::Unset,
        Some(v) => if eq_ascii_ci(v@, CONFIG_VALUE_NONE@) { TachSource::NamedNone } else { TachSource::File },
    }
}

/// Where an entry's tachometer table comes from.
pub fn tach_source(config: Option<&str>) -> (r: TachSource)
    ensures
        r == spec_tach_source(config),
{
    match config {
        None => TachSource::Unset,
        Some(v) => if str_is_ascii_ci(v, CONFIG_VALUE_NONE) {
            TachSource::NamedNone
        } else {
            TachSource::File
        },
    }
}

fn inactive_tach() -> (m: TachMap)
    ensures
        inactive_map(m),
{
    TachMap { active: false, granularity: 0, use_pulses: false, pulses: Vec::new() }
}

fn notice(level: Level, message: String) -> (n: InitNotice)
    ensures
        n.level == level,
        n.message@ == message@,
{
    InitNotice { level, message }
}

fn push_notice(v: &mut Vec<InitNotice>, level: Level, message: String)
    ensures
        notice_views(final(v)@) == notice_views(old(v)@).push((level, message@)),
{
    v.push(notice(level, message));
    assert(notice_views(v@) =~= notice_views(old(v)@).push((level, message@)));
}

fn append_notices(v: &mut Vec<InitNotice>, more: Vec<InitNotice>)
    ensures
        notice_views(final(v)@) == notice_views(old(v)@) + notice_views(more@),
{
    let ghost m = more@;
    let mut more = more;
    v.append(&mut more);
    assert(notice_views(v@) =~= notice_views(old(v)@) + notice_views(m));
}

/// The notices of a tachometer without a table file: a trace that none is
/// set when the key is missing, then the warning that one is required.
pub open spec fn spec_unready_notices(source: TachSource) -> Seq<(Level, Seq<char>)> {
    if source == TachSource::Unset {
        seq![(Level::Trace, MSG_TACH_CONFIG_NONE@), (Level::Warn, MSG_TACH_CONFIG_REQUIRED@)]
    } else {
        seq![(Level::Warn, MSG_TACH_CONFIG_REQUIRED@)]
    }
}

/// A tachometer without a table file: it does not open.
pub fn unready_tach(source: TachSource) -> (p: TachPrep)
    ensures
        notice_views(p.notices@) == spec_unready_notices(source),
        !p.ready,
        inactive_map(p.map),
{
    let mut notices: Vec<InitNotice> = Vec::new();
    assert(notice_views(notices@) =~= Seq::<(Level, Seq<char>)>::empty());
    if source == TachSource::Unset {
        push_notice(&mut notices, Level::Trace, string_of(MSG_TACH_CONFIG_NONE));
    }
    push_notice(&mut notices, Level::Warn, string_of(MSG_TACH_CONFIG_REQUIRED));
    proof {
        if source == TachSource::Unset {
            assert(notice_views(notices@) =~= spec_unready_notices(source));
        } else {
            assert(notice_views(notices@) =~= spec_unready_notices(source));
        }
    }
    TachPrep { notices, ready: false, map: inactive_tach() }
}

/// The granularity used: the configured one when it is `0..=4` and not
/// `3`, else `1`, with a debug notice.
pub open spec fn spec_granularity(raw: Option<i64>) -> (i64, bool) {
    let g = match raw {
        Some(v) => v,
        None => GRANULARITY_MIN,
    };
    if g < GRANULARITY_MIN || g > GRANULARITY_MAX || g == GRANULARITY_REJECTED {
        (GRANULARITY_FALLBACK, true)
    } else {
        (g, false)
    }
}

/// The pulses of a table's points.
pub open spec fn pulses_of(points: Seq<TachPoint>) -> Seq<u32> {
    Seq::new(points.len(), |i: int| points[i].pulses)
}

/// What reading the table file gives: its pulses and the notices of a
/// failure. An unreadable file, or one that does not parse, leaves the table
/// empty; a file with no settings says so.
pub open spec fn spec_table(shown: Seq<char>, text: Option<Seq<char>>) -> (Seq<u32>, Seq<(Level, Seq<char>)>) {
    match text {
        None => (Seq::empty(), seq![(Level::Error, "Could not read revburner xml config file "@ + shown)]),
        Some(t) => match spec_parse_tach_xml(t) {
            Ok(points) => (pulses_of(points), Seq::empty()),
            Err(e) => if e == ERR_NO_SETTINGS@ {
                (Seq::empty(), seq![(Level::Error, MSG_TACH_XML_EMPTY@)])
            } else {
                (Seq::empty(), seq![(Level::Error, "Could not read revburner xml config file "@ + shown)])
            },
        },
    }
}

/// The notices of a tachometer with a table file shown as `shown`.
pub open spec fn spec_file_notices(shown: Seq<char>, text: Option<Seq<char>>, raw: Option<i64>) -> Seq<(Level, Seq<char>)> {
    let g = spec_granularity(raw);
    seq![(Level::Trace, "will try to load config file at "@ + shown)] + spec_table(shown, text).1 + (if g.1 {
        seq![(Level::Debug, MSG_TACH_GRANULARITY_INVALID@)]
    } else {
        Seq::empty()
    }) + seq![(Level::Info, "Tachometer granularity set to "@ + dec_int(g.0 as int))]
}

fn table_from(shown: &str, text: Option<&str>) -> (r: (Vec<u32>, Vec<InitNotice>))
    ensures
        r.0@ == spec_table(shown@, match text { Some(t) => Some(t@), None => None }).0,
        notice_views(r.1@) == spec_table(shown@, match text { Some(t) => Some(t@), None => None }).1,
{
    let mut notices: Vec<InitNotice> = Vec::new();
    assert(notice_views(notices@) =~= Seq::<(Level, Seq<char>)>::empty());
    let src = match text {
        None => {
            push_notice(&mut notices, Level::Error, tach_xml_read_message(shown));
            return (Vec::new(), notices);
        },
        Some(t) => t,
    };
    match parse_tach_xml(src) {
        Ok(points) => {
            let mut pulses: Vec<u32> = Vec::new();
            let mut i: usize = 0;
            while i < points.len()
                invariant
                    i <= points@.len(),
                    pulses@ == pulses_of(points@).subrange(0, i as int),
                decreases points@.len() - i,
            {
                pulses.push(points[i].pulses);
                i += 1;
                assert(pulses@ =~= pulses_of(points@).subrange(0, i as int));
            }
            assert(pulses@ =~= pulses_of(points@));
            (pulses, notices)
        },
        Err(e) => {
            if str_is(e, ERR_NO_SETTINGS) {
                push_notice(&mut notices, Level::Error, string_of(MSG_TACH_XML_EMPTY));
            } else {
                push_notice(&mut notices, Level::Error, tach_xml_read_message(shown));
            }
            (Vec::new(), notices)
        },
    }
}

/// A tachometer with a table file: the host hands the path as shown and the
/// file's text, or none when it could not be read. It opens with the pulses
/// read (none on a failure) at the granularity used.
pub fn tach_from_file(shown: &str, text: Option<&str>, raw_granularity: Option<i64>, use_pulses: bool) -> (p: TachPrep)
    ensures
        notice_views(p.notices@) == spec_file_notices(shown@, match text { Some(t) => Some(t@), None => None }, raw_granularity),
        p.ready,
        p.map.active,
        p.map.granularity == spec_granularity(raw_granularity).0,
        p.map.use_pulses == use_pulses,
        p.map.pulses@ == spec_table(shown@, match text { Some(t) => Some(t@), None => None }).0,
{
    let mut notices: Vec<InitNotice> = Vec::new();
    assert(notice_views(notices@) =~= Seq::<(Level, Seq<char>)>::empty());
    push_notice(&mut notices, Level::Trace, tach_config_load_message(shown));
    let (pulses, faults) = table_from(shown, text);
    append_notices(&mut notices, faults);
    let mut g: i64 = match raw_granularity {
        Some(v) => v,
        None => GRANULARITY_MIN,
    };
    if g < GRANULARITY_MIN || g > GRANULARITY_MAX || g == GRANULARITY_REJECTED {
        g = GRANULARITY_FALLBACK;
        push_notice(&mut notices, Level::Debug, string_of(MSG_TACH_GRANULARITY_INVALID));
    }
    push_notice(&mut notices, Level::Info, tach_granularity_message(g));
    proof {
        let ghost tv = match text { Some(t) => Some(t@), None => None::<Seq<char>> };
        assert(notice_views(notices@) =~= spec_file_notices(shown@, tv, raw_granularity));
    }
    TachPrep { notices, ready: true, map: TachMap { active: true, granularity: g as u32, use_pulses, pulses } }
}

/// A configured device ready to run.
#[derive(Clone, Debug)]
pub struct PreparedDevice {
    pub device: SimDevice,
    pub effect: Option<i32>,
}

/// The device an entry becomes at `id`: its kind, its rate held to the
/// allowed range, initialized, with its `config` file and its effect.
pub open spec fn spec_prepared(e: DeviceEntry, id: i32, p: PreparedDevice) -> bool {
    &&& p.device.spec_id() == id
    &&& p.device.spec_kind() == spec_entry_kind(e)
    &&& p.device.spec_fps() == spec_clamp_fps((match e.fps { Some(f) => f, None => 0 }) as i32)
    &&& p.device.spec_initialized()
    &&& p.device.spec_config_file() == (match e.config { Some(c) => Some(c@), None => None::<Seq<char>> })
    &&& p.effect == spec_lookup_opt(spec_effects(), e.effect)
}

/// The device an entry becomes at `id`.
pub fn build_device(e: &DeviceEntry, id: i32) -> (p: PreparedDevice)
    ensures
        spec_prepared(*e, id, p),
{
    let kind = entry_kind_of(e);
    let raw: i64 = match e.fps {
        Some(f) => f,
        None => 0,
    };
    let fps = clamp_fps(raw as i32);
    let mut device = SimDevice::new(id, fps, kind);
    device.set_initialized(true);
    let config = match e.config {
        Some(c) => Some(string_of(c)),
        None => None,
    };
    device.set_config_file(config);
    PreparedDevice { device, effect: device_effect(e.effect) }
}

/// What loading decides for an entry before any open.
#[derive(Clone, Debug)]
pub enum EntryPlan {
    /// Skipped: its setup notices, then the skip notice.
    Skip { setup: Vec<InitNotice>, notice: InitNotice },
    /// A tachometer without a table: only its setup notices.
    SetupOnly { setup: Vec<InitNotice> },
    /// A tachometer to open with its table.
    OpenTach { prep: TachPrep },
    /// Another backend to open.
    Open { route: EntryRoute },
    /// Nothing can open it.
    Unopened { notice: InitNotice },
}

/// The plan's notices and shape, as plain values.
pub open spec fn spec_plan_view(p: EntryPlan) -> (u8, Seq<(Level, Seq<char>)>, Seq<(Level, Seq<char>)>, EntryRoute) {
    match p {
        EntryPlan::Skip { setup, notice } => (0, notice_views(setup@), seq![(notice.level, notice.message@)], EntryRoute::Closed),
        EntryPlan::SetupOnly { setup } => (1, notice_views(setup@), Seq::empty(), EntryRoute::Tachometer),
        EntryPlan::OpenTach { prep } => (2, notice_views(prep.notices@), Seq::empty(), EntryRoute::Tachometer),
        EntryPlan::Open { route } => (3, Seq::empty(), Seq::empty(), route),
        EntryPlan::Unopened { notice } => (4, Seq::empty(), seq![(notice.level, notice.message@)], EntryRoute::Closed),
    }
}

/// Why an entry is skipped, if it is.
pub open spec fn spec_entry_skip(e: DeviceEntry, disable_audio: bool) -> Option<DeviceSkip> {
    if e.enabled == Some(false) {
        Some(DeviceSkip::Disabled)
    } else if disable_audio && spec_entry_kind(e) == DeviceKind::Sound {
        Some(DeviceSkip::AudioDisabled)
    } else {
        None
    }
}

/// The skip notice of an entry at `slot`.
pub open spec fn spec_skip_text(skip: DeviceSkip, slot: i32) -> Seq<char> {
    match skip {
        DeviceSkip::Disabled => "skipping disabled device at index "@ + dec_int(slot as int),
        DeviceSkip::AudioDisabled => crate::games::MSG_SKIP_AUDIO@,
    }
}

/// The class shown when nothing can open a device.
pub open spec fn spec_class_text(kind: DeviceKind) -> Seq<char> {
    match kind {
        DeviceKind::Usb => CLASS_USB@,
        DeviceKind::Sound => CLASS_SOUND@,
        DeviceKind::Serial => CLASS_SERIAL@,
        DeviceKind::Unknown => DEVICE_NAME_MISSING@,
    }
}

/// The plan for an entry at `slot`. A tachometer's `prep` is what its table
/// brought (the host builds it with `unready_tach` or `tach_from_file`
/// before the skip is decided); other entries ignore it.
pub open spec fn spec_entry_plan(
    e: DeviceEntry,
    slot: i32,
    disable_audio: bool,
    prep: TachPrep,
) -> (u8, Seq<(Level, Seq<char>)>, Seq<(Level, Seq<char>)>, EntryRoute) {
    let route = spec_entry_route(e);
    let setup = if route == EntryRoute::Tachometer { notice_views(prep.notices@) } else { Seq::empty() };
    match spec_entry_skip(e, disable_audio) {
        Some(skip) => (0, setup, seq![(Level::Info, spec_skip_text(skip, slot))], EntryRoute::Closed),
        None => if route == EntryRoute::Tachometer {
            if prep.ready { (2, setup, Seq::empty(), route) } else { (1, setup, Seq::empty(), route) }
        } else if route == EntryRoute::Closed {
            (4, Seq::empty(), seq![(Level::Warn, "Could not initialize "@ + spec_class_text(spec_entry_kind(e)) + " device"@)], route)
        } else {
            (3, Seq::empty(), Seq::empty(), route)
        },
    }
}

/// What loading decides for the entry at `slot`.
pub fn consider_entry(e: &DeviceEntry, slot: i32, disable_audio: bool, prep: TachPrep) -> (p: EntryPlan)
    ensures
        spec_plan_view(p) == spec_entry_plan(*e, slot, disable_audio, prep),
        p matches EntryPlan::OpenTach { prep: q } ==> q.map == prep.map && q.ready == prep.ready,
{
    let route = entry_route(e);
    let kind = entry_kind_of(e);
    match device_skip(e.enabled, kind, disable_audio) {
        Some(skip) => {
            let setup: Vec<InitNotice> = if route == EntryRoute::Tachometer {
                prep.notices
            } else {
                let none: Vec<InitNotice> = Vec::new();
                assert(notice_views(none@) =~= Seq::<(Level, Seq<char>)>::empty());
                none
            };
            let n = notice(Level::Info, skip_message(skip, slot));
            EntryPlan::Skip { setup, notice: n }
        },
        None => {
            if route == EntryRoute::Tachometer {
                if prep.ready {
                    EntryPlan::OpenTach { prep }
                } else {
                    EntryPlan::SetupOnly { setup: prep.notices }
                }
            } else if route == EntryRoute::Closed {
                EntryPlan::Unopened { notice: notice(Level::Warn, could_not_initialize_message(class_label(kind))) }
            } else {
                EntryPlan::Open { route }
            }
        },
    }
}

/// What the host's HID open of a device found.
#[derive(Clone, Copy, Debug, PartialEq, Eq, Structural)]
pub enum OpenedHid {
    Missing,
    Live,
    Simulated,
}

/// The port a considered device keeps.
#[derive(Clone, Copy, Debug, PartialEq, Eq, Structural)]
pub enum PortState {
    Closed,
    Live,
    Captured,
}

/// An entry after loading considered it: its notices, the device it
/// became, if any, its port and its tachometer table.
#[derive(Clone, Debug)]
pub struct Considered {
    pub setup_notices: Vec<InitNotice>,
    pub notices: Vec<InitNotice>,
    pub prepared: Option<PreparedDevice>,
    pub port: PortState,
    pub tach: TachMap,
}

/// The RevBurner's announcement, then on a missing tachometer the error and
/// the two warnings.
pub open spec fn spec_revburner_notices(opened: OpenedHid) -> Seq<(Level, Seq<char>)> {
    seq![(Level::Info, MSG_INIT_USB@), (Level::Info, MSG_INIT_TACH@), (Level::Info, MSG_INIT_REVBURNER@)] + (
    if opened == OpenedHid::Missing {
        seq![
            (Level::Error, MSG_REVBURNER_MISSING@),
            (Level::Warn, "Did not initialize usb device due to error code "@ + dec_int(ERROR_UNKNOWN as int)),
            (Level::Warn, "Could not initialize "@ + CLASS_USB@ + " device"@),
        ]
    } else {
        Seq::empty()
    })
}

/// A tachometer after its open: a missing RevBurner leaves no device and an
/// inactive table; an opened one becomes the device at `id` with the table
/// its file gave, on a live or a captured port.
pub fn revburner_considered(e: &DeviceEntry, id: i32, prep: TachPrep, opened: OpenedHid) -> (c: Considered)
    ensures
        notice_views(c.setup_notices@) == notice_views(prep.notices@),
        notice_views(c.notices@) == spec_revburner_notices(opened),
        opened == OpenedHid::Missing ==> c.prepared is None && c.port == PortState::Closed && inactive_map(c.tach),
        opened != OpenedHid::Missing ==> c.tach == prep.map && (c.prepared matches Some(p) && spec_prepared(*e, id, p)),
        opened == OpenedHid::Live ==> c.port == PortState::Live,
        opened == OpenedHid::Simulated ==> c.port == PortState::Captured,
{
    let mut notices: Vec<InitNotice> = Vec::new();
    assert(notice_views(notices@) =~= Seq::<(Level, Seq<char>)>::empty());
    push_notice(&mut notices, Level::Info, string_of(MSG_INIT_USB));
    push_notice(&mut notices, Level::Info, string_of(MSG_INIT_TACH));
    push_notice(&mut notices, Level::Info, string_of(MSG_INIT_REVBURNER));
    match opened {
        OpenedHid::Missing => {
            push_notice(&mut notices, Level::Error, string_of(MSG_REVBURNER_MISSING));
            push_notice(&mut notices, Level::Warn, usb_init_error_message(ERROR_UNKNOWN));
            push_notice(&mut notices, Level::Warn, could_not_initialize_message(CLASS_USB));
            assert(notice_views(notices@) =~= spec_revburner_notices(opened));
            Considered {
                setup_notices: prep.notices,
                notices,
                prepared: None,
                port: PortState::Closed,
                tach: inactive_tach(),
            }
        },
        _ => {
            assert(notice_views(notices@) =~= spec_revburner_notices(opened));
            let port = if opened == OpenedHid::Live { PortState::Live } else { PortState::Captured };
            Considered {
                setup_notices: prep.notices,
                notices,
                prepared: Some(build_device(e, id)),
                port,
                tach: prep.map,
            }
        },
    }
}

/// A plan that opens nothing, as loading keeps it: its setup notices and
/// its notice, no device, a closed port and an inactive table.
pub fn plan_considered(plan: EntryPlan) -> (c: Considered)
    requires
        !(plan is OpenTach),
        !(plan is Open),
    ensures
        notice_views(c.setup_notices@) == spec_plan_view(plan).1,
        notice_views(c.notices@) == spec_plan_view(plan).2,
        c.prepared is None,
        c.port == PortState::Closed,
        inactive_map(c.tach),
{
    let mut setup: Vec<InitNotice> = Vec::new();
    let mut notices: Vec<InitNotice> = Vec::new();
    assert(notice_views(notices@) =~= Seq::<(Level, Seq<char>)>::empty());
    assert(notice_views(setup@) =~= Seq::<(Level, Seq<char>)>::empty());
    match plan {
        EntryPlan::Skip { setup: s, notice: n } => {
            setup = s;
            notices.push(n);
            assert(notice_views(notices@) =~= seq![(n.level, n.message@)]);
        },
        EntryPlan::SetupOnly { setup: s } => {
            setup = s;
        },
        EntryPlan::Unopened { notice: n } => {
            notices.push(n);
            assert(notice_views(notices@) =~= seq![(n.level, n.message@)]);
        },
        _ => {},
    }
    Considered { setup_notices: setup, notices, prepared: None, port: PortState::Closed, tach: inactive_tach() }
}

/// The devices of a profile and the notices loading gave, entry by entry.
#[derive(Clone, Debug)]
pub struct ProfileLoad {
    pub devices: Vec<PreparedDevice>,
    pub setup_notices: Vec<InitNotice>,
    pub notices: Vec<InitNotice>,
}

/// The devices' kinds, ids and rates.
pub open spec fn device_views(v: Seq<PreparedDevice>) -> Seq<(DeviceKind, i32, u32)> {
    Seq::new(v.len(), |i: int| (v[i].device.spec_kind(), v[i].device.spec_id(), v[i].device.spec_fps()))
}

/// The device type number the start notice shows.
pub open spec fn spec_type_code(kind: DeviceKind) -> i32 {
    match kind {
        DeviceKind::Usb => crate::names::DEVICE_USB,
        DeviceKind::Sound => crate::names::DEVICE_SOUND,
        _ => crate::names::DEVICE_SERIAL,
    }
}

/// The start notice of each device.
pub open spec fn start_notices(d: Seq<(DeviceKind, i32, u32)>) -> Seq<(Level, Seq<char>)> {
    Seq::new(d.len(), |i: int| (
        Level::Info,
        "starting device type "@ + dec_int(spec_type_code(d[i].0) as int) + " at id "@ + dec_int(d[i].1 as int)
            + " on its own thread at "@ + dec(d[i].2 as nat) + " fps"@,
    ))
}

/// The count the initialized notice shows.
pub open spec fn shown_count(n: nat) -> int {
    if n > i32::MAX { i32::MAX as int } else { n as int }
}

impl ProfileLoad {
    /// Nothing loaded yet.
    pub fn new() -> (p: Self)
        ensures
            p.devices@.len() == 0,
            p.setup_notices@.len() == 0,
            p.notices@.len() == 0,
    {
        ProfileLoad { devices: Vec::new(), setup_notices: Vec::new(), notices: Vec::new() }
    }

    /// The id the next opened device gets: the number opened so far.
    pub fn next_id(&self) -> (r: i32)
        ensures
            r as int == shown_count(self.devices@.len()),
    {
        if self.devices.len() > i32::MAX as usize {
            i32::MAX
        } else {
            self.devices.len() as i32
        }
    }

    /// Keeps what loading made of one entry: its notices in order, and its
    /// device when it became one.
    pub fn add(&mut self, c: Considered)
        ensures
            notice_views(final(self).setup_notices@) == notice_views(old(self).setup_notices@) + notice_views(c.setup_notices@),
            notice_views(final(self).notices@) == notice_views(old(self).notices@) + notice_views(c.notices@),
            final(self).devices@ == (match c.prepared {
                Some(p) => old(self).devices@.push(p),
                None => old(self).devices@,
            }),
    {
        append_notices(&mut self.setup_notices, c.setup_notices);
        append_notices(&mut self.notices, c.notices);
        if let Some(p) = c.prepared {
            self.devices.push(p);
        }
    }

    /// Ends the load: how many devices came up, then one start notice each.
    pub fn finish(&mut self)
        ensures
            final(self).devices@ == old(self).devices@,
            notice_views(final(self).setup_notices@) == notice_views(old(self).setup_notices@),
            notice_views(final(self).notices@) == notice_views(old(self).notices@).push((
                Level::Info,
                "initialized "@ + dec_int(shown_count(old(self).devices@.len())) + " devices"@,
            )) + start_notices(device_views(old(self).devices@)),
    {
        let count = self.next_id();
        push_notice(&mut self.notices, Level::Info, initialized_devices_message(count));
        let ghost base = notice_views(self.notices@);
        let ghost dv = device_views(self.devices@);
        let ghost devs = self.devices@;
        let ghost setup = self.setup_notices@;
        let mut i: usize = 0;
        while i < self.devices.len()
            invariant
                i <= self.devices@.len(),
                dv == device_views(self.devices@),
                devs == self.devices@,
                setup == self.setup_notices@,
                notice_views(self.notices@) == base + start_notices(dv).subrange(0, i as int),
            decreases self.devices@.len() - i,
        {
            let kind = self.devices[i].device.kind();
            let code = match kind {
                DeviceKind::Usb => crate::names::DEVICE_USB,
                DeviceKind::Sound => crate::names::DEVICE_SOUND,
                _ => crate::names::DEVICE_SERIAL,
            };
            let m = starting_device_message(code, self.devices[i].device.id(), self.devices[i].device.fps());
            push_notice(&mut self.notices, Level::Info, m);
            i += 1;
            assert(start_notices(dv).subrange(0, i as int) =~= start_notices(dv).subrange(0, i - 1).push(start_notices(dv)[i - 1]));
        }
        assert(start_notices(dv).subrange(0, i as int) =~= start_notices(dv));
    }
}


/// A device switched off in its profile is skipped with the skip notice for
/// its slot, whatever backend it names; so is a sound device while audio is
/// off. Neither is opened.
pub proof fn switched_off_and_muted_entries_are_skipped(e: DeviceEntry, slot: i32, disable_audio: bool, prep: TachPrep)
    requires
        e.enabled == Some(false) || (disable_audio && spec_entry_kind(e) == DeviceKind::Sound),
    ensures
        spec_entry_plan(e, slot, disable_audio, prep).0 == 0,
        spec_entry_plan(e, slot, disable_audio, prep).2 == seq![(
            Level::Info,
            spec_skip_text(
                if e.enabled == Some(false) { DeviceSkip::Disabled } else { DeviceSkip::AudioDisabled },
                slot,
            ),
        )],
{
}

} // verus!
