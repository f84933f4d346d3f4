//! Case-insensitive config names. The first entry for a value is the one written back.
use vstd::prelude::*;
use vstd::string::StringSliceAdditionalSpecFns;

verus! {

pub const DEVICE_USB: i32 = 0;
pub const DEVICE_SOUND: i32 = 1;
pub const DEVICE_SERIAL: i32 = 2;

pub const SUBTYPE_UNKNOWN: i32 = 0;
pub const SUBTYPE_TACHOMETER: i32 = 2;
pub const SUBTYPE_USB_HAPTIC: i32 = 3;
pub const SUBTYPE_USB_WHEEL: i32 = 4;
pub const SUBTYPE_SHIFT_LIGHTS: i32 = 5;
pub const SUBTYPE_SIM_WIND: i32 = 6;
pub const SUBTYPE_SERIAL_HAPTIC: i32 = 7;
pub const SUBTYPE_SERIAL_WHEEL: i32 = 8;
pub const SUBTYPE_SIMLED: i32 = 9;
pub const SUBTYPE_ARDUINO_CUSTOM: i32 = 10;
pub const SUBTYPE_SOUND_HAPTIC: i32 = 1;

pub const HARDWARE_UNKNOWN: i32 = 0;
pub const HARDWARE_CAMMUS_C5: i32 = 1;
pub const HARDWARE_CAMMUS_C12: i32 = 2;
pub const HARDWARE_MOZA_R5: i32 = 3;
pub const HARDWARE_CSL_ELITE: i32 = 4;
pub const HARDWARE_SIMAGIC_P1000: i32 = 5;
pub const HARDWARE_SIMAGIC_GT_NEO: i32 = 6;
pub const HARDWARE_MOZA_NEW: i32 = 7;
pub const HARDWARE_LOGITECH_G29: i32 = 8;
pub const HARDWARE_MOZA_KS_PRO: i32 = 9;
pub const HARDWARE_SIMNET: i32 = 10;
pub const HARDWARE_REVBURNER: i32 = 11;

pub const EFFECT_ENGINE: i32 = 0;
pub const EFFECT_GEAR: i32 = 1;
pub const EFFECT_ABS: i32 = 2;
pub const EFFECT_TYRE_SLIP: i32 = 3;
pub const EFFECT_TYRE_LOCK: i32 = 4;
pub const EFFECT_SUSPENSION: i32 = 5;

pub const TYRE_FRONT_LEFT: i32 = 0;
pub const TYRE_FRONT_RIGHT: i32 = 1;
pub const TYRE_REAR_LEFT: i32 = 2;
pub const TYRE_REAR_RIGHT: i32 = 3;
pub const TYRE_FRONTS: i32 = 4;
pub const TYRE_REARS: i32 = 5;
pub const TYRE_ALL_FOUR: i32 = 6;

pub const MODULATION_NONE: i32 = 0;
pub const MODULATION_FREQUENCY: i32 = 1;
pub const MODULATION_AMPLIFY: i32 = 2;

pub const ERROR_NONE: i32 = 0;
pub const ERROR_INVALID_DEV: i32 = 3;

pub const FPS_DEFAULT: i32 = 60;
pub const FPS_MIN: i32 = 1;
pub const FPS_MAX: i32 = 1000;
pub const CONFIG_INDEX_UNSET: i32 = -1;
pub const CONFIG_INDEX_FIRST: i32 = 0;

/// One spelling of a config value.
#[derive(Clone, Copy)]
pub struct NameEntry {
    pub name: &'static str,
    pub value: i32,
}

/// ASCII lower-casing of one byte; other bytes are unchanged.
pub open spec fn lower(b: u8) -> u8 {
    if 65 <= b <= 90 { (b + 32) as u8 } else { b }
}

/// Two byte strings are equal once ASCII letters are lower-cased.
pub open spec fn eq_ignore_case(a: Seq<u8>, b: Seq<u8>) -> bool {
    &&& a.len() == b.len()
    &&& forall|i: int| 0 <= i < a.len() ==> lower(#[trigger] a[i]) == lower(b[i])
}

/// The value of the first entry at or after `i` whose name matches `name`.
pub open spec fn find_name(table: Seq<NameEntry>, name: Seq<u8>, i: int) -> Option<i32>
    decreases table.len() - i,
{
    if i < 0 || i >= table.len() {
        None
    } else if eq_ignore_case(table[i].name.spec_bytes(), name) {
        Some(table[i].value)
    } else {
        find_name(table, name, i + 1)
    }
}

/// The name of the first entry at or after `i` that holds `value`.
pub open spec fn find_value(table: Seq<NameEntry>, value: i32, i: int) -> Option<&'static str>
    decreases table.len() - i,
{
    if i < 0 || i >= table.len() {
        None
    } else if table[i].value == value {
        Some(table[i].name)
    } else {
        find_value(table, value, i + 1)
    }
}

/// What `lookup` answers: nothing for an empty name, else the first matching entry.
pub open spec fn spec_lookup(table: Seq<NameEntry>, name: &str) -> Option<i32> {
    if name.spec_bytes().len() == 0 {
        None
    } else {
        find_name(table, name.spec_bytes(), 0)
    }
}

pub open spec fn spec_device_classes() -> Seq<NameEntry> {
    seq![
        NameEntry { name: "USB", value: DEVICE_USB },
        NameEntry { name: "Sound", value: DEVICE_SOUND },
        NameEntry { name: "Serial", value: DEVICE_SERIAL },
    ]
}

pub open spec fn spec_usb_types() -> Seq<NameEntry> {
    seq![
        NameEntry { name: "Tachometer", value: SUBTYPE_TACHOMETER },
        NameEntry { name: "UsbWheel", value: SUBTYPE_USB_WHEEL },
        NameEntry { name: "Wheel", value: SUBTYPE_USB_WHEEL },
        NameEntry { name: "UsbHaptic", value: SUBTYPE_USB_HAPTIC },
        NameEntry { name: "Haptic", value: SUBTYPE_USB_HAPTIC },
    ]
}

pub open spec fn spec_serial_types() -> Seq<NameEntry> {
    seq![
        NameEntry { name: "ShiftLights", value: SUBTYPE_SHIFT_LIGHTS },
        NameEntry { name: "Simleds", value: SUBTYPE_SIMLED },
        NameEntry { name: "ArduinoCustom", value: SUBTYPE_ARDUINO_CUSTOM },
        NameEntry { name: "Custom", value: SUBTYPE_ARDUINO_CUSTOM },
        NameEntry { name: "SimWind", value: SUBTYPE_SIM_WIND },
        NameEntry { name: "SerialHaptic", value: SUBTYPE_SERIAL_HAPTIC },
        NameEntry { name: "Haptic", value: SUBTYPE_SERIAL_HAPTIC },
        NameEntry { name: "Wheel", value: SUBTYPE_SERIAL_WHEEL },
    ]
}

pub open spec fn spec_sound_types() -> Seq<NameEntry> {
    seq![NameEntry { name: "Haptic", value: SUBTYPE_SOUND_HAPTIC }]
}

pub open spec fn spec_hardware() -> Seq<NameEntry> {
    seq![
        NameEntry { name: "CammusC5", value: HARDWARE_CAMMUS_C5 },
        NameEntry { name: "CammusC12", value: HARDWARE_CAMMUS_C12 },
        NameEntry { name: "MozaR5", value: HARDWARE_MOZA_R5 },
        NameEntry { name: "MozaR8", value: HARDWARE_MOZA_R5 },
        NameEntry { name: "MozaR3", value: HARDWARE_MOZA_R5 },
        NameEntry { name: "MozaNew", value: HARDWARE_MOZA_NEW },
        NameEntry { name: "MozaR9", value: HARDWARE_MOZA_NEW },
        NameEntry { name: "MozaKSProWheel", value: HARDWARE_MOZA_KS_PRO },
        NameEntry { name: "LogitechG29", value: HARDWARE_LOGITECH_G29 },
        NameEntry { name: "CSLELITEV3PEDALS", value: HARDWARE_CSL_ELITE },
        NameEntry { name: "SIMNETPEDALS", value: HARDWARE_SIMNET },
        NameEntry { name: "SIMAGICP1000PEDALS", value: HARDWARE_SIMAGIC_P1000 },
        NameEntry { name: "SIMAGICGTNEO", value: HARDWARE_SIMAGIC_GT_NEO },
        NameEntry { name: "Revburner", value: HARDWARE_REVBURNER },
    ]
}

pub open spec fn spec_effects() -> Seq<NameEntry> {
    seq![
        NameEntry { name: "Engine", value: EFFECT_ENGINE },
        NameEntry { name: "Gear", value: EFFECT_GEAR },
        NameEntry { name: "ABS", value: EFFECT_ABS },
        NameEntry { name: "TyreSlip", value: EFFECT_TYRE_SLIP },
        NameEntry { name: "Slip", value: EFFECT_TYRE_SLIP },
        NameEntry { name: "TireSlip", value: EFFECT_TYRE_SLIP },
        NameEntry { name: "TyreLock", value: EFFECT_TYRE_LOCK },
        NameEntry { name: "Lock", value: EFFECT_TYRE_LOCK },
        NameEntry { name: "TireLock", value: EFFECT_TYRE_LOCK },
        NameEntry { name: "Suspension", value: EFFECT_SUSPENSION },
    ]
}

pub open spec fn spec_tyres() -> Seq<NameEntry> {
    seq![
        NameEntry { name: "FrontLeft", value: TYRE_FRONT_LEFT },
        NameEntry { name: "FrontRight", value: TYRE_FRONT_RIGHT },
        NameEntry { name: "RearLeft", value: TYRE_REAR_LEFT },
        NameEntry { name: "RearRight", value: TYRE_REAR_RIGHT },
        NameEntry { name: "Fronts", value: TYRE_FRONTS },
        NameEntry { name: "Front", value: TYRE_FRONTS },
        NameEntry { name: "Rears", value: TYRE_REARS },
        NameEntry { name: "Rear", value: TYRE_REARS },
        NameEntry { name: "All", value: TYRE_ALL_FOUR },
    ]
}

pub open spec fn spec_modulations() -> Seq<NameEntry> {
    seq![
        NameEntry { name: "None", value: MODULATION_NONE },
        NameEntry { name: "Frequency", value: MODULATION_FREQUENCY },
        NameEntry { name: "Amplitude", value: MODULATION_AMPLIFY },
        NameEntry { name: "Amplify", value: MODULATION_AMPLIFY },
    ]
}

/// Device classes: USB, Sound, Serial.
pub fn device_classes() -> (t: Vec<NameEntry>)
    ensures t@ == spec_device_classes(),
{
    let t = vec![
        NameEntry { name: "USB", value: DEVICE_USB },
        NameEntry { name: "Sound", value: DEVICE_SOUND },
        NameEntry { name: "Serial", value: DEVICE_SERIAL },
    ];
    assert(t@ == spec_device_classes());
    t
}

/// USB device types.
pub fn usb_types() -> (t: Vec<NameEntry>)
    ensures t@ == spec_usb_types(),
{
    let t = vec![
        NameEntry { name: "Tachometer", value: SUBTYPE_TACHOMETER },
        NameEntry { name: "UsbWheel", value: SUBTYPE_USB_WHEEL },
        NameEntry { name: "Wheel", value: SUBTYPE_USB_WHEEL },
        NameEntry { name: "UsbHaptic", value: SUBTYPE_USB_HAPTIC },
        NameEntry { name: "Haptic", value: SUBTYPE_USB_HAPTIC },
    ];
    assert(t@ == spec_usb_types());
    t
}

/// Serial device types.
pub fn serial_types() -> (t: Vec<NameEntry>)
    ensures t@ == spec_serial_types(),
{
    let t = vec![
        NameEntry { name: "ShiftLights", value: SUBTYPE_SHIFT_LIGHTS },
        NameEntry { name: "Simleds", value: SUBTYPE_SIMLED },
        NameEntry { name: "ArduinoCustom", value: SUBTYPE_ARDUINO_CUSTOM },
        NameEntry { name: "Custom", value: SUBTYPE_ARDUINO_CUSTOM },
        NameEntry { name: "SimWind", value: SUBTYPE_SIM_WIND },
        NameEntry { name: "SerialHaptic", value: SUBTYPE_SERIAL_HAPTIC },
        NameEntry { name: "Haptic", value: SUBTYPE_SERIAL_HAPTIC },
        NameEntry { name: "Wheel", value: SUBTYPE_SERIAL_WHEEL },
    ];
    assert(t@ == spec_serial_types());
    t
}

/// Sound device types.
pub fn sound_types() -> (t: Vec<NameEntry>)
    ensures t@ == spec_sound_types(),
{
    let t = vec![NameEntry { name: "Haptic", value: SUBTYPE_SOUND_HAPTIC }];
    assert(t@ == spec_sound_types());
    t
}

/// Wheel, pedal and tachometer hardware, with their aliases.
pub fn hardware() -> (t: Vec<NameEntry>)
    ensures t@ == spec_hardware(),
{
    let t = vec![
        NameEntry { name: "CammusC5", value: HARDWARE_CAMMUS_C5 },
        NameEntry { name: "CammusC12", value: HARDWARE_CAMMUS_C12 },
        NameEntry { name: "MozaR5", value: HARDWARE_MOZA_R5 },
        NameEntry { name: "MozaR8", value: HARDWARE_MOZA_R5 },
        NameEntry { name: "MozaR3", value: HARDWARE_MOZA_R5 },
        NameEntry { name: "MozaNew", value: HARDWARE_MOZA_NEW },
        NameEntry { name: "MozaR9", value: HARDWARE_MOZA_NEW },
        NameEntry { name: "MozaKSProWheel", value: HARDWARE_MOZA_KS_PRO },
        NameEntry { name: "LogitechG29", value: HARDWARE_LOGITECH_G29 },
        NameEntry { name: "CSLELITEV3PEDALS", value: HARDWARE_CSL_ELITE },
        NameEntry { name: "SIMNETPEDALS", value: HARDWARE_SIMNET },
        NameEntry { name: "SIMAGICP1000PEDALS", value: HARDWARE_SIMAGIC_P1000 },
        NameEntry { name: "SIMAGICGTNEO", value: HARDWARE_SIMAGIC_GT_NEO },
        NameEntry { name: "Revburner", value: HARDWARE_REVBURNER },
    ];
    assert(t@ == spec_hardware());
    t
}

/// Haptic effects, with their aliases.
pub fn effects() -> (t: Vec<NameEntry>)
    ensures t@ == spec_effects(),
{
    let t = vec![
        NameEntry { name: "Engine", value: EFFECT_ENGINE },
        NameEntry { name: "Gear", value: EFFECT_GEAR },
        NameEntry { name: "ABS", value: EFFECT_ABS },
        NameEntry { name: "TyreSlip", value: EFFECT_TYRE_SLIP },
        NameEntry { name: "Slip", value: EFFECT_TYRE_SLIP },
        NameEntry { name: "TireSlip", value: EFFECT_TYRE_SLIP },
        NameEntry { name: "TyreLock", value: EFFECT_TYRE_LOCK },
        NameEntry { name: "Lock", value: EFFECT_TYRE_LOCK },
        NameEntry { name: "TireLock", value: EFFECT_TYRE_LOCK },
        NameEntry { name: "Suspension", value: EFFECT_SUSPENSION },
    ];
    assert(t@ == spec_effects());
    t
}

/// Tyre selections.
pub fn tyres() -> (t: Vec<NameEntry>)
    ensures t@ == spec_tyres(),
{
    let t = vec![
        NameEntry { name: "FrontLeft", value: TYRE_FRONT_LEFT },
        NameEntry { name: "FrontRight", value: TYRE_FRONT_RIGHT },
        NameEntry { name: "RearLeft", value: TYRE_REAR_LEFT },
        NameEntry { name: "RearRight", value: TYRE_REAR_RIGHT },
        NameEntry { name: "Fronts", value: TYRE_FRONTS },
        NameEntry { name: "Front", value: TYRE_FRONTS },
        NameEntry { name: "Rears", value: TYRE_REARS },
        NameEntry { name: "Rear", value: TYRE_REARS },
        NameEntry { name: "All", value: TYRE_ALL_FOUR },
    ];
    assert(t@ == spec_tyres());
    t
}

/// Haptic modulations.
pub fn modulations() -> (t: Vec<NameEntry>)
    ensures t@ == spec_modulations(),
{
    let t = vec![
        NameEntry { name: "None", value: MODULATION_NONE },
        NameEntry { name: "Frequency", value: MODULATION_FREQUENCY },
        NameEntry { name: "Amplitude", value: MODULATION_AMPLIFY },
        NameEntry { name: "Amplify", value: MODULATION_AMPLIFY },
    ];
    assert(t@ == spec_modulations());
    t
}

/// ASCII lower-casing of one byte.
pub fn lower_byte(b: u8) -> (r: u8)
    ensures r == lower(b),
{
    if 65 <= b && b <= 90 { b + 32 } else { b }
}

/// Byte-wise comparison that ignores ASCII case.
pub fn bytes_eq_ignore_case(a: &[u8], b: &[u8]) -> (r: bool)
    ensures r == eq_ignore_case(a@, b@),
{
    if a.len() != b.len() {
        return false;
    }
    let mut i: usize = 0;
    while i < a.len()
        invariant
            a@.len() == b@.len(),
            i <= a@.len(),
            forall|j: int| 0 <= j < i ==> lower(#[trigger] a@[j]) == lower(b@[j]),
        decreases a@.len() - i,
    {
        if lower_byte(a[i]) != lower_byte(b[i]) {
            return false;
        }
        i += 1;
    }
    true
}

/// `str` comparison that ignores ASCII case, as `str::eq_ignore_ascii_case` does.
pub fn str_eq_ignore_case(a: &str, b: &str) -> (r: bool)
    ensures r == eq_ignore_case(a.spec_bytes(), b.spec_bytes()),
{
    bytes_eq_ignore_case(a.as_bytes(), b.as_bytes())
}

/// The value of the first entry whose name matches `name` ignoring ASCII case.
pub fn lookup(table: &[NameEntry], name: &str) -> (r: Option<i32>)
    ensures r == spec_lookup(table@, name),
{
    if name.as_bytes().len() == 0 {
        return None;
    }
    let mut i: usize = 0;
    while i < table.len()
        invariant
            i <= table@.len(),
            name.spec_bytes().len() != 0,
            find_name(table@, name.spec_bytes(), 0) == find_name(table@, name.spec_bytes(), i as int),
        decreases table@.len() - i,
    {
        if str_eq_ignore_case(table[i].name, name) {
            return Some(table[i].value);
        }
        i += 1;
    }
    None
}

/// The name written back for `value`: that of its first entry.
pub fn name_for(table: &[NameEntry], value: i32) -> (r: Option<&'static str>)
    ensures r == find_value(table@, value, 0),
{
    let mut i: usize = 0;
    while i < table.len()
        invariant
            i <= table@.len(),
            find_value(table@, value, 0) == find_value(table@, value, i as int),
        decreases table@.len() - i,
    {
        if table[i].value == value {
            return Some(table[i].name);
        }
        i += 1;
    }
    None
}

/// The configured tyre, or all four when the name is not known.
pub fn tyre_or_all_four(name: &str) -> (r: i32)
    ensures
        r == match spec_lookup(spec_tyres(), name) {
            Some(v) => v,
            None => TYRE_ALL_FOUR,
        },
{
    let t = tyres();
    match lookup(&t, name) {
        Some(v) => v,
        None => TYRE_ALL_FOUR,
    }
}

/// The subtype of a device of class `class_name` and type `kind_name`.
pub open spec fn spec_map_device(class_name: &str, kind_name: &str) -> Result<i32, i32> {
    match spec_lookup(spec_device_classes(), class_name) {
        None => Err(ERROR_INVALID_DEV),
        Some(class) => if class == DEVICE_SOUND {
            Ok(SUBTYPE_SOUND_HAPTIC)
        } else {
            let table = if class == DEVICE_USB { spec_usb_types() } else { spec_serial_types() };
            match spec_lookup(table, kind_name) {
                Some(v) => Ok(v),
                None => Err(ERROR_INVALID_DEV),
            }
        },
    }
}

/// Maps a class and type name to a subtype; unknown names give `ERROR_INVALID_DEV`.
pub fn map_device(class_name: &str, kind_name: &str) -> (r: Result<i32, i32>)
    ensures r == spec_map_device(class_name, kind_name),
{
    let classes = device_classes();
    let class = match lookup(&classes, class_name) {
        Some(c) => c,
        None => return Err(ERROR_INVALID_DEV),
    };
    proof {
        // every class value is one of the three known classes
        reveal_with_fuel(find_name, 4);
    }
    if class == DEVICE_SOUND {
        return Ok(SUBTYPE_SOUND_HAPTIC);
    }
    let table = if class == DEVICE_USB { usb_types() } else { serial_types() };
    match lookup(&table, kind_name) {
        Some(v) => Ok(v),
        None => Err(ERROR_INVALID_DEV),
    }
}

/// Frames per second held to `FPS_MIN..=FPS_MAX`.
pub fn clamp_fps(fps: i32) -> (r: i32)
    ensures
        r == (if fps < FPS_MIN { FPS_MIN } else if fps > FPS_MAX { FPS_MAX } else { fps }),
        FPS_MIN <= r <= FPS_MAX,
{
    if fps < FPS_MIN {
        return FPS_MIN;
    }
    if fps > FPS_MAX {
        return FPS_MAX;
    }
    fps
}

/// The profile to load: the first when none was requested, unset when out of range.
pub fn resolve_profile_index(profile_count: usize, requested: i32) -> (r: i32)
    ensures
        r == (if profile_count == 0 {
            CONFIG_INDEX_UNSET
        } else if requested < 0 {
            CONFIG_INDEX_FIRST
        } else if requested >= profile_count {
            CONFIG_INDEX_UNSET
        } else {
            requested
        }),
        r == CONFIG_INDEX_UNSET || 0 <= r < profile_count,
{
    if profile_count == 0 {
        return CONFIG_INDEX_UNSET;
    }
    if requested < 0 {
        return CONFIG_INDEX_FIRST;
    }
    if requested as usize >= profile_count {
        return CONFIG_INDEX_UNSET;
    }
    requested
}

/// Every name of the table is non-empty, and no two names are equal ignoring ASCII case.
pub open spec fn names_distinct(table: Seq<NameEntry>) -> bool {
    &&& forall|i: int| 0 <= i < table.len() ==> #[trigger] table[i].name.spec_bytes().len() > 0
    &&& forall|i: int, j: int|
        0 <= i < j < table.len() ==> !eq_ignore_case(
            #[trigger] table[i].name.spec_bytes(),
            #[trigger] table[j].name.spec_bytes(),
        )
}

proof fn lemma_find_name_respects_case(table: Seq<NameEntry>, a: Seq<u8>, b: Seq<u8>, i: int)
    requires
        eq_ignore_case(a, b),
    ensures
        find_name(table, a, i) == find_name(table, b, i),
    decreases table.len() - i,
{
    if 0 <= i < table.len() {
        let n = table[i].name.spec_bytes();
        assert(eq_ignore_case(n, a) == eq_ignore_case(n, b)) by {
            if eq_ignore_case(n, a) {
                assert forall|k: int| 0 <= k < n.len() implies lower(#[trigger] n[k]) == lower(b[k]) by {
                    assert(lower(n[k]) == lower(a[k]));
                    assert(lower(a[k]) == lower(b[k]));
                }
            }
            if eq_ignore_case(n, b) {
                assert forall|k: int| 0 <= k < n.len() implies lower(#[trigger] n[k]) == lower(a[k]) by {
                    assert(lower(n[k]) == lower(b[k]));
                    assert(lower(a[k]) == lower(b[k]));
                }
            }
        }
        lemma_find_name_respects_case(table, a, b, i + 1);
    }
}

/// Names are case-insensitive: two names that differ only in ASCII case look up
/// the same value in any table.
pub proof fn lookup_ignores_ascii_case(table: Seq<NameEntry>, a: &str, b: &str)
    requires
        eq_ignore_case(a.spec_bytes(), b.spec_bytes()),
    ensures
        spec_lookup(table, a) == spec_lookup(table, b),
{
    lemma_find_name_respects_case(table, a.spec_bytes(), b.spec_bytes(), 0);
}

proof fn lemma_round_trip_from(table: Seq<NameEntry>, value: i32, i: int)
    requires
        names_distinct(table),
        0 <= i,
        find_value(table, value, i) is Some,
    ensures
        find_name(table, find_value(table, value, i).unwrap().spec_bytes(), i) == Some(value),
    decreases table.len() - i,
{
    let name = find_value(table, value, i).unwrap();
    if i < table.len() {
        if table[i].value == value {
            let n = table[i].name.spec_bytes();
            assert(eq_ignore_case(n, n));
        } else {
            lemma_round_trip_from(table, value, i + 1);
            // the written-back name sits at some later index k, whose name differs from entry i
            let k = choose_index(table, value, i + 1);
            assert(table[k].name == name);
            assert(!eq_ignore_case(table[i].name.spec_bytes(), table[k].name.spec_bytes()));
        }
    }
}

/// The index at or after `i` where `find_value` stops.
spec fn index_of_value(table: Seq<NameEntry>, value: i32, i: int) -> int
    decreases table.len() - i,
{
    if i < 0 || i >= table.len() {
        -1
    } else if table[i].value == value {
        i
    } else {
        index_of_value(table, value, i + 1)
    }
}

proof fn lemma_index_of_value(table: Seq<NameEntry>, value: i32, i: int)
    requires
        0 <= i,
        find_value(table, value, i) is Some,
    ensures
        i <= index_of_value(table, value, i) < table.len(),
        table[index_of_value(table, value, i)].name == find_value(table, value, i).unwrap(),
    decreases table.len() - i,
{
    if i < table.len() && table[i].value != value {
        lemma_index_of_value(table, value, i + 1);
    }
}

proof fn choose_index(table: Seq<NameEntry>, value: i32, i: int) -> (k: int)
    requires
        0 <= i,
        find_value(table, value, i) is Some,
    ensures
        i <= k < table.len(),
        table[k].name == find_value(table, value, i).unwrap(),
{
    lemma_index_of_value(table, value, i);
    index_of_value(table, value, i)
}

/// The name written back for a value looks that value up again, in a table whose
/// names are non-empty and pairwise distinct ignoring ASCII case.
pub proof fn name_for_round_trip(table: Seq<NameEntry>, value: i32)
    requires
        names_distinct(table),
        find_value(table, value, 0) is Some,
    ensures
        spec_lookup(table, find_value(table, value, 0).unwrap()) == Some(value),
{
    let k = choose_index(table, value, 0);
    assert(table[k].name.spec_bytes().len() > 0);
    lemma_round_trip_from(table, value, 0);
}


/// The first entry at or after `i` whose name matches gives the lookup.
proof fn lemma_first_match(table: Seq<NameEntry>, name: Seq<u8>, k: int, i: int)
    requires
        0 <= i <= k < table.len(),
        eq_ignore_case(table[k].name.spec_bytes(), name),
        forall|j: int| i <= j < k ==> !eq_ignore_case(#[trigger] table[j].name.spec_bytes(), name),
    ensures
        find_name(table, name, i) == Some(table[k].value),
    decreases k - i,
{
    if i < k {
        lemma_first_match(table, name, k, i + 1);
    }
}

/// An ASCII text's bytes are as many as its characters.
proof fn lemma_ascii_len(s: &str)
    requires
        vstd::utf8::is_ascii_chars(s@),
    ensures
        s.spec_bytes().len() == s@.len(),
{
    broadcast use vstd::utf8::is_ascii_chars_encode_utf8;
}

proof fn lemma_class_names()
    ensures
        "USB".spec_bytes().len() == 3,
        "Sound".spec_bytes().len() == 5,
        "Serial".spec_bytes().len() == 6,
{
    reveal_strlit("USB");
    reveal_strlit("Sound");
    reveal_strlit("Serial");
    lemma_ascii_len("USB");
    lemma_ascii_len("Sound");
    lemma_ascii_len("Serial");
}

proof fn lemma_type_names_nonempty()
    ensures
        forall|k: int| 0 <= k < spec_serial_types().len() ==> (#[trigger] spec_serial_types()[k]).name.spec_bytes().len() > 0,
        forall|k: int| 0 <= k < spec_usb_types().len() ==> (#[trigger] spec_usb_types()[k]).name.spec_bytes().len() > 0,
{
    reveal_strlit("ShiftLights");
    reveal_strlit("Simleds");
    reveal_strlit("ArduinoCustom");
    reveal_strlit("Custom");
    reveal_strlit("SimWind");
    reveal_strlit("SerialHaptic");
    reveal_strlit("Haptic");
    reveal_strlit("Wheel");
    reveal_strlit("Tachometer");
    reveal_strlit("UsbWheel");
    reveal_strlit("UsbHaptic");
    lemma_ascii_len("ShiftLights");
    lemma_ascii_len("Simleds");
    lemma_ascii_len("ArduinoCustom");
    lemma_ascii_len("Custom");
    lemma_ascii_len("SimWind");
    lemma_ascii_len("SerialHaptic");
    lemma_ascii_len("Haptic");
    lemma_ascii_len("Wheel");
    lemma_ascii_len("Tachometer");
    lemma_ascii_len("UsbWheel");
    lemma_ascii_len("UsbHaptic");
}

/// A type name is read in the table of its own class: in the serial class,
/// a name that first matches serial entry `k` maps to that entry's subtype;
/// in the USB class, one that first matches USB entry `k` maps to its.
pub proof fn map_device_reads_the_class_table(class_name: &str, kind_name: &str, k: int)
    requires
        0 <= k,
        (eq_ignore_case(class_name.spec_bytes(), "Serial".spec_bytes()) && k < spec_serial_types().len()
            && eq_ignore_case(spec_serial_types()[k].name.spec_bytes(), kind_name.spec_bytes())
            && forall|j: int| 0 <= j < k ==> !eq_ignore_case(#[trigger] spec_serial_types()[j].name.spec_bytes(), kind_name.spec_bytes()))
        || (eq_ignore_case(class_name.spec_bytes(), "USB".spec_bytes()) && k < spec_usb_types().len()
            && eq_ignore_case(spec_usb_types()[k].name.spec_bytes(), kind_name.spec_bytes())
            && forall|j: int| 0 <= j < k ==> !eq_ignore_case(#[trigger] spec_usb_types()[j].name.spec_bytes(), kind_name.spec_bytes())),
    ensures
        spec_map_device(class_name, kind_name) == Ok::<i32, i32>(
            if eq_ignore_case(class_name.spec_bytes(), "USB".spec_bytes()) { spec_usb_types()[k].value } else { spec_serial_types()[k].value },
        ),
{
    lemma_class_names();
    lemma_type_names_nonempty();
    let classes = spec_device_classes();
    let cb = class_name.spec_bytes();
    if eq_ignore_case(cb, "USB".spec_bytes()) {
        lemma_first_match(classes, cb, 0, 0);
        lemma_first_match(spec_usb_types(), kind_name.spec_bytes(), k, 0);
    } else {
        assert(!eq_ignore_case(classes[0].name.spec_bytes(), cb));
        assert(!eq_ignore_case(classes[1].name.spec_bytes(), cb));
        lemma_first_match(classes, cb, 2, 0);
        lemma_first_match(spec_serial_types(), kind_name.spec_bytes(), k, 0);
    }
}

} // verus!
