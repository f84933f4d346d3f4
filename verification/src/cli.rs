//! Command line: subcommands, flags, and version text.
use vstd::prelude::*;
use vstd::string::StrSliceExecFns;
use crate::scheduler::{clamp_fps, spec_clamp_fps};
use crate::text::{eq_ascii_ci, lower_char, push_str, str_is, str_is_ascii_ci, string_of};

verus! {

pub const PROGRAM_NAME: &'static str = "cargopit";
pub const VERSION: &'static str = "0.4.0";
pub const BUG_URL: &'static str = "github.com/M4X1K02/cargopit";
pub const FPS_DEFAULT: i32 = 60;
pub const CONFIG_INDEX_UNSET: i32 = -1;
pub const DEVICE_INDEX_ALL: i32 = -1;
pub const VERBOSITY_MAX: u8 = 2;

/// What the program was asked to do.
#[derive(Clone, Copy, Debug, PartialEq, Eq, Structural)]
pub enum ProgramAction {
    Play,
    Test,
    ConfigTach,
    Exit,
}

/// The parsed command line.
#[derive(Clone, Debug)]
pub struct Invocation {
    pub action: ProgramAction,
    pub fps: i32,
    pub verbosity: u8,
    pub force_udp: bool,
    pub disable_audio: bool,
    pub config_file: Option<String>,
    pub config_dir: Option<String>,
    pub config_index: i32,
    pub device_index: i32,
    pub max_revs: u32,
    pub granularity: u32,
    pub save_file: Option<String>,
    pub log_file: Option<String>,
    pub version_line: Option<String>,
    pub usage: bool,
}

/// An `Invocation` with its texts as character sequences.
pub struct InvocationView {
    pub action: ProgramAction,
    pub fps: i32,
    pub verbosity: u8,
    pub force_udp: bool,
    pub disable_audio: bool,
    pub config_file: Option<Seq<char>>,
    pub config_dir: Option<Seq<char>>,
    pub config_index: i32,
    pub device_index: i32,
    pub max_revs: u32,
    pub granularity: u32,
    pub save_file: Option<Seq<char>>,
    pub log_file: Option<Seq<char>>,
    pub version_line: Option<Seq<char>>,
    pub usage: bool,
}

pub open spec fn opt_text(o: Option<String>) -> Option<Seq<char>> {
    match o {
        Some(s) => Some(s@),
        None => None,
    }
}

impl View for Invocation {
    type V = InvocationView;

    open spec fn view(&self) -> InvocationView {
        InvocationView {
            action: self.action,
            fps: self.fps,
            verbosity: self.verbosity,
            force_udp: self.force_udp,
            disable_audio: self.disable_audio,
            config_file: opt_text(self.config_file),
            config_dir: opt_text(self.config_dir),
            config_index: self.config_index,
            device_index: self.device_index,
            max_revs: self.max_revs,
            granularity: self.granularity,
            save_file: opt_text(self.save_file),
            log_file: opt_text(self.log_file),
            version_line: opt_text(self.version_line),
            usage: self.usage,
        }
    }
}

/// Nothing parsed yet: exit, 60 fps, every index unset, granularity one.
pub open spec fn defaults_view() -> InvocationView {
    InvocationView {
        action: ProgramAction::Exit,
        fps: FPS_DEFAULT,
        verbosity: 0,
        force_udp: false,
        disable_audio: false,
        config_file: None,
        config_dir: None,
        config_index: CONFIG_INDEX_UNSET,
        device_index: DEVICE_INDEX_ALL,
        max_revs: 0,
        granularity: 1,
        save_file: None,
        log_file: None,
        version_line: None,
        usage: false,
    }
}

fn defaults() -> (r: Invocation)
    ensures
        r@ == defaults_view(),
{
    Invocation {
        action: ProgramAction::Exit,
        fps: FPS_DEFAULT,
        verbosity: 0,
        force_udp: false,
        disable_audio: false,
        config_file: None,
        config_dir: None,
        config_index: CONFIG_INDEX_UNSET,
        device_index: DEVICE_INDEX_ALL,
        max_revs: 0,
        granularity: 1,
        save_file: None,
        log_file: None,
        version_line: None,
        usage: false,
    }
}

/// `program version`.
pub open spec fn spec_version_line() -> Seq<char> {
    PROGRAM_NAME@ + " "@ + VERSION@
}

/// `cargopit 0.4.0`.
pub fn version_line() -> (s: String)
    ensures
        s@ == spec_version_line(),
{
    let mut s = string_of(PROGRAM_NAME);
    push_str(&mut s, " ");
    push_str(&mut s, VERSION);
    s
}

/// One more `-v`, up to two.
pub open spec fn bumped(v: u8) -> u8 {
    if v >= VERBOSITY_MAX { VERBOSITY_MAX } else { (v + 1) as u8 }
}

fn bump_verbosity(parsed: &mut Invocation)
    ensures
        final(parsed)@ == (InvocationView { verbosity: bumped(old(parsed).verbosity), ..old(parsed)@ }),
{
    parsed.verbosity = if parsed.verbosity >= VERBOSITY_MAX { VERBOSITY_MAX } else { parsed.verbosity + 1 };
}

/// A decimal digit.
pub open spec fn is_digit(c: char) -> bool {
    '0' <= c <= '9'
}

/// Every character is a decimal digit.
pub open spec fn all_digits(s: Seq<char>) -> bool {
    forall|i: int| 0 <= i < s.len() ==> #[trigger] is_digit(s[i])
}

/// The number the decimal digits spell.
pub open spec fn digits_value(s: Seq<char>) -> int
    decreases s.len(),
{
    if s.len() == 0 {
        0
    } else {
        digits_value(s.drop_last()) * 10 + ((s.last() as int) - ('0' as int))
    }
}

/// Larger than any value a parse here accepts.
pub const DIGITS_CAP: u64 = 10_000_000_000;

/// `str::parse::<i32>`: an optional sign, then one or more decimal digits,
/// nothing else, in range.
pub open spec fn spec_parse_i32(s: Seq<char>) -> Option<i32> {
    let neg = s.len() > 0 && s[0] == '-';
    let body = if s.len() > 0 && (s[0] == '-' || s[0] == '+') { s.drop_first() } else { s };
    if body.len() == 0 || !all_digits(body) {
        None
    } else {
        let v = if neg { -digits_value(body) } else { digits_value(body) };
        if i32::MIN <= v <= i32::MAX { Some(v as i32) } else { None }
    }
}

/// `str::parse::<u32>`: an optional `+`, then one or more decimal digits,
/// nothing else, in range.
pub open spec fn spec_parse_u32(s: Seq<char>) -> Option<u32> {
    let body = if s.len() > 0 && s[0] == '+' { s.drop_first() } else { s };
    if body.len() == 0 || !all_digits(body) {
        None
    } else {
        let v = digits_value(body);
        if v <= u32::MAX { Some(v as u32) } else { None }
    }
}

pub proof fn lemma_digits_nonneg(s: Seq<char>)
    requires
        all_digits(s),
    ensures
        digits_value(s) >= 0,
    decreases s.len(),
{
    if s.len() > 0 {
        assert(all_digits(s.drop_last())) by {
            assert forall|i: int| 0 <= i < s.drop_last().len() implies #[trigger] is_digit(s.drop_last()[i]) by {
                assert(is_digit(s[i]));
            }
        }
        lemma_digits_nonneg(s.drop_last());
        assert(is_digit(s.last()));
    }
}

/// The digits of `s` from `start` on: `None` unless there is at least one and all
/// are digits; else their value, capped at `DIGITS_CAP`.
fn take_digits(s: &str, start: usize) -> (r: Option<u64>)
    requires
        start <= s@.len(),
    ensures
        match r {
            None => s@.len() == start || !all_digits(s@.subrange(start as int, s@.len() as int)),
            Some(v) => s@.len() > start && all_digits(s@.subrange(start as int, s@.len() as int)) && v == (
            if digits_value(s@.subrange(start as int, s@.len() as int)) >= DIGITS_CAP {
                DIGITS_CAP as int
            } else {
                digits_value(s@.subrange(start as int, s@.len() as int))
            }),
        },
{
    let n = s.unicode_len();
    if n == start {
        return None;
    }
    let mut value: u64 = 0;
    let mut i: usize = start;
    while i < n
        invariant
            n == s@.len(),
            start <= i <= n,
            all_digits(s@.subrange(start as int, i as int)),
            value == (if digits_value(s@.subrange(start as int, i as int)) >= DIGITS_CAP {
                DIGITS_CAP as int
            } else {
                digits_value(s@.subrange(start as int, i as int))
            }),
        decreases n - i,
    {
        let c = s.get_char(i);
        if !('0' <= c && c <= '9') {
            assert(!all_digits(s@.subrange(start as int, n as int))) by {
                let sub = s@.subrange(start as int, n as int);
                assert(sub[i - start] == c);
                assert(!is_digit(sub[i - start]));
            }
            return None;
        }
        let d = (c as u32 - '0' as u32) as u64;
        proof {
            let pre = s@.subrange(start as int, i as int);
            let next = s@.subrange(start as int, i as int + 1);
            assert(next.drop_last() =~= pre);
            assert(next.last() == c);
            assert(all_digits(next)) by {
                assert forall|j: int| 0 <= j < next.len() implies #[trigger] is_digit(next[j]) by {
                    if j < pre.len() {
                        assert(next[j] == pre[j]);
                    }
                }
            }
            lemma_digits_nonneg(pre);
            assert(digits_value(next) == digits_value(pre) * 10 + d);
        }
        value = if value >= DIGITS_CAP { DIGITS_CAP } else {
            let v = value * 10 + d;
            if v >= DIGITS_CAP { DIGITS_CAP } else { v }
        };
        i += 1;
    }
    Some(value)
}

/// `str::parse::<i32>`.
pub fn parse_i32(s: &str) -> (r: Option<i32>)
    ensures
        r == spec_parse_i32(s@),
{
    let n = s.unicode_len();
    let mut neg = false;
    let mut start: usize = 0;
    if n > 0 {
        let c = s.get_char(0);
        if c == '-' {
            neg = true;
            start = 1;
        } else if c == '+' {
            start = 1;
        }
    }
    let body = Ghost(s@.subrange(start as int, n as int));
    proof {
        if s@.len() > 0 && (s@[0] == '-' || s@[0] == '+') {
            assert(body@ =~= s@.drop_first());
        } else {
            assert(body@ =~= s@);
        }
    }
    match take_digits(s, start) {
        None => None,
        Some(v) => {
            proof { lemma_digits_nonneg(body@); }
            if neg {
                if v <= 2_147_483_648 {
                    Some((0i64 - v as i64) as i32)
                } else {
                    None
                }
            } else if v <= 2_147_483_647 {
                Some(v as i32)
            } else {
                None
            }
        },
    }
}

/// `str::parse::<u32>`.
pub fn parse_u32(s: &str) -> (r: Option<u32>)
    ensures
        r == spec_parse_u32(s@),
{
    let n = s.unicode_len();
    let mut start: usize = 0;
    if n > 0 && s.get_char(0) == '+' {
        start = 1;
    }
    let body = Ghost(s@.subrange(start as int, n as int));
    proof {
        if s@.len() > 0 && s@[0] == '+' {
            assert(body@ =~= s@.drop_first());
        } else {
            assert(body@ =~= s@);
        }
    }
    match take_digits(s, start) {
        None => None,
        Some(v) => {
            proof { lemma_digits_nonneg(body@); }
            if v <= 4_294_967_295 {
                Some(v as u32)
            } else {
                None
            }
        },
    }
}

/// Granularities 1, 2 and 4 are kept; anything else becomes 1.
pub open spec fn spec_accepted_granularity(value: u32) -> u32 {
    if value == 1 || value == 2 || value == 4 { value } else { 1 }
}

fn accepted_granularity(value: u32) -> (r: u32)
    ensures
        r == spec_accepted_granularity(value),
{
    if 1 <= value && value <= 4 && value != 3 {
        return value;
    }
    1
}

/// The flag is one of the two spellings.
pub open spec fn is_flag(arg: Seq<char>, short: Seq<char>, long: Seq<char>) -> bool {
    arg == short || arg == long
}

/// The value of `parse` or `default`.
pub open spec fn i32_or(v: Option<i32>, default: i32) -> i32 {
    match v {
        Some(x) => x,
        None => default,
    }
}

/// The value of `parse` or `default`.
pub open spec fn u32_or(v: Option<u32>, default: u32) -> u32 {
    match v {
        Some(x) => x,
        None => default,
    }
}

/// Stops with the usage text.
pub open spec fn usage_exit(p: InvocationView) -> InvocationView {
    InvocationView { usage: true, action: ProgramAction::Exit, ..p }
}

/// One `play` flag at argument `i`: the parse after it, where the next flag
/// starts, and whether the parse stopped there.
pub open spec fn play_step(p: InvocationView, a: Seq<Seq<char>>, i: int) -> (InvocationView, int, bool) {
    let arg = a[i];
    let next = i + 1 < a.len();
    if is_flag(arg, "-d"@, "--udp"@) {
        (InvocationView { force_udp: true, ..p }, i + 1, false)
    } else if is_flag(arg, "-a"@, "--disable_audio"@) {
        (InvocationView { disable_audio: true, ..p }, i + 1, false)
    } else if is_flag(arg, "-v"@, "--verbose"@) {
        (InvocationView { verbosity: bumped(p.verbosity), ..p }, i + 1, false)
    } else if arg == "-vv"@ {
        (InvocationView { verbosity: bumped(bumped(p.verbosity)), ..p }, i + 1, false)
    } else if is_flag(arg, "-l"@, "--log"@) && next {
        (InvocationView { log_file: Some(a[i + 1]), ..p }, i + 2, false)
    } else if is_flag(arg, "-c"@, "--config-file"@) && next {
        (InvocationView { config_file: Some(a[i + 1]), ..p }, i + 2, false)
    } else if arg == "--config-dir"@ && next {
        (InvocationView { config_dir: Some(a[i + 1]), ..p }, i + 2, false)
    } else if is_flag(arg, "-f"@, "--fps"@) && next {
        (InvocationView { fps: spec_clamp_fps(i32_or(spec_parse_i32(a[i + 1]), FPS_DEFAULT)) as i32, ..p }, i + 2, false)
    } else if arg == "--config-index"@ && next {
        (InvocationView { config_index: i32_or(spec_parse_i32(a[i + 1]), CONFIG_INDEX_UNSET), ..p }, i + 2, false)
    } else {
        (usage_exit(p), i, true)
    }
}

/// The `play` flags from argument `i` on.
pub open spec fn play_flags(p: InvocationView, a: Seq<Seq<char>>, i: int) -> InvocationView
    decreases a.len() - i,
{
    if i < 0 || i >= a.len() {
        p
    } else {
        let (q, j, stop) = play_step(p, a, i);
        if stop || j <= i { q } else { play_flags(q, a, j) }
    }
}

/// One `test` flag at argument `i`: the parse after it, where the next flag
/// starts, and whether the parse stopped there.
pub open spec fn test_step(p: InvocationView, a: Seq<Seq<char>>, i: int) -> (InvocationView, int, bool) {
    let arg = a[i];
    let next = i + 1 < a.len();
    if is_flag(arg, "-a"@, "--disable_audio"@) {
        (InvocationView { disable_audio: true, ..p }, i + 1, false)
    } else if is_flag(arg, "-v"@, "--verbose"@) {
        (InvocationView { verbosity: bumped(p.verbosity), ..p }, i + 1, false)
    } else if arg == "-vv"@ {
        (InvocationView { verbosity: bumped(bumped(p.verbosity)), ..p }, i + 1, false)
    } else if is_flag(arg, "-c"@, "--config-file"@) && next {
        (InvocationView { config_file: Some(a[i + 1]), ..p }, i + 2, false)
    } else if arg == "--device-index"@ && next {
        (InvocationView { device_index: i32_or(spec_parse_i32(a[i + 1]), DEVICE_INDEX_ALL), ..p }, i + 2, false)
    } else if arg == "--config-index"@ && next {
        (InvocationView { config_index: i32_or(spec_parse_i32(a[i + 1]), CONFIG_INDEX_UNSET), ..p }, i + 2, false)
    } else {
        (usage_exit(p), i, true)
    }
}

/// The `test` flags from argument `i` on.
pub open spec fn test_flags(p: InvocationView, a: Seq<Seq<char>>, i: int) -> InvocationView
    decreases a.len() - i,
{
    if i < 0 || i >= a.len() {
        p
    } else {
        let (q, j, stop) = test_step(p, a, i);
        if stop || j <= i { q } else { test_flags(q, a, j) }
    }
}

/// One `config tachometer` flag at argument `i`: the parse after it, where
/// the next flag starts, whether the max revs and the save file were seen, and
/// whether the parse stopped there.
pub open spec fn tach_step(p: InvocationView, a: Seq<Seq<char>>, i: int, revs: bool, save: bool) -> (
    InvocationView,
    int,
    bool,
    bool,
    bool,
) {
    let arg = a[i];
    let next = i + 1 < a.len();
    if is_flag(arg, "-v"@, "--verbose"@) {
        (InvocationView { verbosity: bumped(p.verbosity), ..p }, i + 1, revs, save, false)
    } else if arg == "-vv"@ {
        (InvocationView { verbosity: bumped(bumped(p.verbosity)), ..p }, i + 1, revs, save, false)
    } else if is_flag(arg, "-m"@, "--max_revs"@) && next {
        (InvocationView { max_revs: u32_or(spec_parse_u32(a[i + 1]), 0), ..p }, i + 2, true, save, false)
    } else if is_flag(arg, "-g"@, "--granularity"@) && next {
        (
            InvocationView { granularity: spec_accepted_granularity(u32_or(spec_parse_u32(a[i + 1]), 1)), ..p },
            i + 2,
            revs,
            save,
            false,
        )
    } else if is_flag(arg, "-s"@, "--savefile"@) && next {
        (InvocationView { save_file: Some(a[i + 1]), ..p }, i + 2, revs, true, false)
    } else {
        (usage_exit(p), i, revs, save, true)
    }
}

/// The `config tachometer` flags from argument `i` on: the parse, whether the
/// max revs and the save file were seen, and whether a flag stopped the parse.
pub open spec fn tach_flags(p: InvocationView, a: Seq<Seq<char>>, i: int, revs: bool, save: bool) -> (
    InvocationView,
    bool,
    bool,
    bool,
)
    decreases a.len() - i,
{
    if i < 0 || i >= a.len() {
        (p, revs, save, false)
    } else {
        let (q, j, r2, s2, stop) = tach_step(p, a, i, revs, save);
        if stop || j <= i { (q, r2, s2, true) } else { tach_flags(q, a, j, r2, s2) }
    }
}

/// `config tachometer`: the flags after `tachometer`, then usage unless both
/// the max revs and the save file were given.
pub open spec fn config_args(p: InvocationView, a: Seq<Seq<char>>) -> InvocationView {
    if a.len() == 0 || !eq_ascii_ci(a[0], "tachometer"@) {
        InvocationView { usage: true, ..p }
    } else {
        let (q, revs, save, stopped) = tach_flags(InvocationView { action: ProgramAction::ConfigTach, ..p }, a, 1, false, false);
        if stopped {
            q
        } else if !revs || !save {
            usage_exit(q)
        } else {
            q
        }
    }
}

/// The characters of each argument.
pub open spec fn arg_texts(args: Seq<String>) -> Seq<Seq<char>> {
    Seq::new(args.len(), |i: int| args[i]@)
}

/// The command line: `--version` anywhere prints the
/// version; no arguments or `--help` anywhere prints the usage; else the first
/// argument (any ASCII case) picks `play`, `test` or `config`.
pub open spec fn spec_parse(a: Seq<Seq<char>>) -> InvocationView {
    let d = defaults_view();
    if a.contains("--version"@) {
        InvocationView { version_line: Some(spec_version_line()), action: ProgramAction::Exit, ..d }
    } else if a.len() == 0 || a.contains("--help"@) {
        InvocationView { usage: true, action: ProgramAction::Exit, ..d }
    } else if eq_ascii_ci(a[0], "play"@) {
        play_flags(InvocationView { action: ProgramAction::Play, ..d }, a, 1)
    } else if eq_ascii_ci(a[0], "test"@) {
        test_flags(InvocationView { action: ProgramAction::Test, ..d }, a, 1)
    } else if eq_ascii_ci(a[0], "config"@) {
        config_args(d, a.drop_first())
    } else {
        InvocationView { usage: true, ..d }
    }
}

fn any_arg_is(args: &[String], lit: &str) -> (r: bool)
    ensures
        r == arg_texts(args@).contains(lit@),
{
    let mut i: usize = 0;
    while i < args.len()
        invariant
            i <= args@.len(),
            forall|j: int| 0 <= j < i ==> args@[j]@ != lit@,
        decreases args@.len() - i,
    {
        if str_is(args[i].as_str(), lit) {
            assert(arg_texts(args@)[i as int] == lit@);
            return true;
        }
        i += 1;
    }
    proof {
        if arg_texts(args@).contains(lit@) {
            let k = choose|k: int| 0 <= k < arg_texts(args@).len() && arg_texts(args@)[k] == lit@;
            assert(args@[k]@ == lit@);
        }
    }
    false
}

/// Parses the command line.
pub fn parse(args: &[String]) -> (r: Invocation)
    ensures
        r@ == spec_parse(arg_texts(args@)),
{
    let ghost a = arg_texts(args@);
    let mut parsed = defaults();
    if any_arg_is(args, "--version") {
        parsed.version_line = Some(version_line());
        parsed.action = ProgramAction::Exit;
        return parsed;
    }
    if args.len() == 0 || any_arg_is(args, "--help") {
        parsed.usage = true;
        parsed.action = ProgramAction::Exit;
        return parsed;
    }
    let first = args[0].as_str();
    if str_is_ascii_ci(first, "play") {
        parse_play(&mut parsed, args, 1);
    } else if str_is_ascii_ci(first, "test") {
        parse_test(&mut parsed, args, 1);
    } else if str_is_ascii_ci(first, "config") {
        assert(a.drop_first() =~= arg_texts(args@.subrange(1, args@.len() as int)));
        parse_config(&mut parsed, args, 1);
    } else {
        parsed.usage = true;
    }
    parsed
}

fn play_step_exec(parsed: &mut Invocation, args: &[String], index: usize) -> (r: (usize, bool))
    requires
        index < args@.len(),
    ensures
        (final(parsed)@, r.0 as int, r.1) == play_step(old(parsed)@, arg_texts(args@), index as int),
{
    let ghost a = arg_texts(args@);
    let arg = args[index].as_str();
    let next = index + 1 < args.len();
    assert(arg@ == a[index as int]);
    if str_is(arg, "-d") || str_is(arg, "--udp") {
        parsed.force_udp = true;
        (index + 1, false)
    } else if str_is(arg, "-a") || str_is(arg, "--disable_audio") {
        parsed.disable_audio = true;
        (index + 1, false)
    } else if str_is(arg, "-v") || str_is(arg, "--verbose") {
        bump_verbosity(parsed);
        (index + 1, false)
    } else if str_is(arg, "-vv") {
        bump_verbosity(parsed);
        bump_verbosity(parsed);
        (index + 1, false)
    } else if (str_is(arg, "-l") || str_is(arg, "--log")) && next {
        parsed.log_file = Some(args[index + 1].clone());
        (index + 2, false)
    } else if (str_is(arg, "-c") || str_is(arg, "--config-file")) && next {
        parsed.config_file = Some(args[index + 1].clone());
        (index + 2, false)
    } else if str_is(arg, "--config-dir") && next {
        parsed.config_dir = Some(args[index + 1].clone());
        (index + 2, false)
    } else if (str_is(arg, "-f") || str_is(arg, "--fps")) && next {
        let v = match parse_i32(args[index + 1].as_str()) {
            Some(v) => v,
            None => FPS_DEFAULT,
        };
        parsed.fps = clamp_fps(v) as i32;
        (index + 2, false)
    } else if str_is(arg, "--config-index") && next {
        parsed.config_index = match parse_i32(args[index + 1].as_str()) {
            Some(v) => v,
            None => CONFIG_INDEX_UNSET,
        };
        (index + 2, false)
    } else {
        parsed.usage = true;
        parsed.action = ProgramAction::Exit;
        (index, true)
    }
}

fn parse_play(parsed: &mut Invocation, args: &[String], from: usize)
    requires
        from == 1,
        args@.len() >= 1,
    ensures
        final(parsed)@ == play_flags(InvocationView { action: ProgramAction::Play, ..old(parsed)@ }, arg_texts(args@), 1),
{
    let ghost a = arg_texts(args@);
    parsed.action = ProgramAction::Play;
    let ghost goal = play_flags(parsed@, a, 1);
    let mut index: usize = from;
    while index < args.len()
        invariant
            a == arg_texts(args@),
            1 <= index <= args@.len() + 1,
            play_flags(parsed@, a, index as int) == goal,
            goal == play_flags(InvocationView { action: ProgramAction::Play, ..old(parsed)@ }, a, 1),
        decreases args@.len() + 1 - index,
    {
        let ghost before = parsed@;
        let (j, stop) = play_step_exec(parsed, args, index);
        if stop {
            assert(play_flags(before, a, index as int) == parsed@);
            return;
        }
        index = j;
    }
}

fn test_step_exec(parsed: &mut Invocation, args: &[String], index: usize) -> (r: (usize, bool))
    requires
        index < args@.len(),
    ensures
        (final(parsed)@, r.0 as int, r.1) == test_step(old(parsed)@, arg_texts(args@), index as int),
{
    let ghost a = arg_texts(args@);
    let arg = args[index].as_str();
    let next = index + 1 < args.len();
    assert(arg@ == a[index as int]);
    if str_is(arg, "-a") || str_is(arg, "--disable_audio") {
        parsed.disable_audio = true;
        (index + 1, false)
    } else if str_is(arg, "-v") || str_is(arg, "--verbose") {
        bump_verbosity(parsed);
        (index + 1, false)
    } else if str_is(arg, "-vv") {
        bump_verbosity(parsed);
        bump_verbosity(parsed);
        (index + 1, false)
    } else if (str_is(arg, "-c") || str_is(arg, "--config-file")) && next {
        parsed.config_file = Some(args[index + 1].clone());
        (index + 2, false)
    } else if str_is(arg, "--device-index") && next {
        parsed.device_index = match parse_i32(args[index + 1].as_str()) {
            Some(v) => v,
            None => DEVICE_INDEX_ALL,
        };
        (index + 2, false)
    } else if str_is(arg, "--config-index") && next {
        parsed.config_index = match parse_i32(args[index + 1].as_str()) {
            Some(v) => v,
            None => CONFIG_INDEX_UNSET,
        };
        (index + 2, false)
    } else {
        parsed.usage = true;
        parsed.action = ProgramAction::Exit;
        (index, true)
    }
}

fn parse_test(parsed: &mut Invocation, args: &[String], from: usize)
    requires
        from == 1,
        args@.len() >= 1,
    ensures
        final(parsed)@ == test_flags(InvocationView { action: ProgramAction::Test, ..old(parsed)@ }, arg_texts(args@), 1),
{
    let ghost a = arg_texts(args@);
    parsed.action = ProgramAction::Test;
    let ghost goal = test_flags(parsed@, a, 1);
    let mut index: usize = from;
    while index < args.len()
        invariant
            a == arg_texts(args@),
            1 <= index <= args@.len() + 1,
            test_flags(parsed@, a, index as int) == goal,
            goal == test_flags(InvocationView { action: ProgramAction::Test, ..old(parsed)@ }, a, 1),
        decreases args@.len() + 1 - index,
    {
        let ghost before = parsed@;
        let (j, stop) = test_step_exec(parsed, args, index);
        if stop {
            assert(test_flags(before, a, index as int) == parsed@);
            return;
        }
        index = j;
    }
}

fn tach_step_exec(parsed: &mut Invocation, args: &[String], index: usize, revs: bool, save: bool) -> (r: (
    usize,
    bool,
    bool,
    bool,
))
    requires
        1 <= index < args@.len(),
    ensures
        (final(parsed)@, r.0 as int - 1, r.1, r.2, r.3) == tach_step(
            old(parsed)@,
            arg_texts(args@).drop_first(),
            index as int - 1,
            revs,
            save,
        ),
{
    let ghost a = arg_texts(args@).drop_first();
    let arg = args[index].as_str();
    let next = index + 1 < args.len();
    assert(arg@ == a[index - 1]);
    if str_is(arg, "-v") || str_is(arg, "--verbose") {
        bump_verbosity(parsed);
        (index + 1, revs, save, false)
    } else if str_is(arg, "-vv") {
        bump_verbosity(parsed);
        bump_verbosity(parsed);
        (index + 1, revs, save, false)
    } else if (str_is(arg, "-m") || str_is(arg, "--max_revs")) && next {
        assert(args@[index + 1]@ == a[index as int]);
        parsed.max_revs = match parse_u32(args[index + 1].as_str()) {
            Some(v) => v,
            None => 0,
        };
        (index + 2, true, save, false)
    } else if (str_is(arg, "-g") || str_is(arg, "--granularity")) && next {
        assert(args@[index + 1]@ == a[index as int]);
        let v = match parse_u32(args[index + 1].as_str()) {
            Some(v) => v,
            None => 1,
        };
        parsed.granularity = accepted_granularity(v);
        (index + 2, revs, save, false)
    } else if (str_is(arg, "-s") || str_is(arg, "--savefile")) && next {
        assert(args@[index + 1]@ == a[index as int]);
        parsed.save_file = Some(args[index + 1].clone());
        (index + 2, revs, true, false)
    } else {
        parsed.usage = true;
        parsed.action = ProgramAction::Exit;
        (index, revs, save, true)
    }
}

fn parse_config(parsed: &mut Invocation, args: &[String], from: usize)
    requires
        from == 1,
        args@.len() >= 1,
    ensures
        final(parsed)@ == config_args(old(parsed)@, arg_texts(args@).drop_first()),
{
    let ghost a = arg_texts(args@).drop_first();
    if args.len() < 2 || !str_is_ascii_ci(args[1].as_str(), "tachometer") {
        parsed.usage = true;
        return;
    }
    assert(a[0] == args@[1]@);
    parsed.action = ProgramAction::ConfigTach;
    let ghost goal = tach_flags(parsed@, a, 1, false, false);
    let mut index: usize = 2;
    let mut saw_revs = false;
    let mut saw_save = false;
    while index < args.len()
        invariant
            a == arg_texts(args@).drop_first(),
            a.len() == args@.len() - 1,
            2 <= index <= args@.len() + 1,
            tach_flags(parsed@, a, index - 1, saw_revs, saw_save) == goal,
            goal == tach_flags(InvocationView { action: ProgramAction::ConfigTach, ..old(parsed)@ }, a, 1, false, false),
            a.len() >= 1 && eq_ascii_ci(a[0], "tachometer"@),
        decreases args@.len() + 1 - index,
    {
        let ghost before = parsed@;
        let (j, r2, s2, stop) = tach_step_exec(parsed, args, index, saw_revs, saw_save);
        if stop {
            assert(tach_flags(before, a, index - 1, saw_revs, saw_save) == (parsed@, r2, s2, true));
            return;
        }
        index = j;
        saw_revs = r2;
        saw_save = s2;
    }
    if !saw_revs || !saw_save {
        parsed.usage = true;
        parsed.action = ProgramAction::Exit;
    }
}

/// The usage text.
pub open spec fn spec_usage_text() -> Seq<char> {
    "Usage: "@ + PROGRAM_NAME@ + "\nUsage 1: "@ + PROGRAM_NAME@ + " play\nUsage 2: "@ + PROGRAM_NAME@
        + " config tachometer\nUsage 3: "@ + PROGRAM_NAME@ + " test\n\nReport bugs on "@ + BUG_URL@ + ".\n"@
}

/// The usage text: the three subcommands and where to report bugs.
pub fn usage_text() -> (s: String)
    ensures
        s@ == spec_usage_text(),
{
    let mut s = string_of("Usage: ");
    push_str(&mut s, PROGRAM_NAME);
    push_str(&mut s, "\nUsage 1: ");
    push_str(&mut s, PROGRAM_NAME);
    push_str(&mut s, " play\nUsage 2: ");
    push_str(&mut s, PROGRAM_NAME);
    push_str(&mut s, " config tachometer\nUsage 3: ");
    push_str(&mut s, PROGRAM_NAME);
    push_str(&mut s, " test\n\nReport bugs on ");
    push_str(&mut s, BUG_URL);
    push_str(&mut s, ".\n");
    s
}

} // verus!
