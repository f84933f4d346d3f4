//! Finding and starting the simd daemon.
//!
//! The file system and the processes are the caller's: it reports what it
//! found (whether a file is executable, what a `/proc` entry holds, how a
//! start went) and this module decides what happens next.
use vstd::prelude::*;
use vstd::string::StrSliceExecFns;
use crate::paths::{join, join_spec};
use crate::text::{push_char, string_of};

verus! {

pub const BINARY_NAME: &'static str = "simd";
pub const REQUIRED_MESSAGE: &'static str = "simd is required but is not installed";
pub const INSTALL_HINT: &'static str = "Install simd (package simd / simd-git, or run ./install.sh) and try again.";
pub const ENV_SIMD: &'static str = "SIMD";
pub const ENV_HOME: &'static str = "HOME";
pub const ENV_XDG_DATA: &'static str = "XDG_DATA_HOME";
pub const ENV_PATH: &'static str = "PATH";
pub const PID_FILE: &'static str = "/tmp/simd.pid";
pub const SYSTEMD_UNIT: &'static str = "simd.service";
pub const START_TIMEOUT_MS: u64 = 3000;
pub const POLL_MS: u64 = 50;
pub const EXEC_BITS: u32 = 0o111;
pub const XDG_SIMD_BUILD: &'static str = "cargopit/simapi/simd/build";
pub const HOME_SIMD_BUILD: &'static str = ".local/share/cargopit/simapi/simd/build";
pub const LOCAL_BIN: &'static str = ".local/bin";
pub const USR_LOCAL_BIN: &'static str = "/usr/local/bin";
pub const USR_BIN: &'static str = "/usr/bin";
pub const CURRENT_DIR: &'static str = ".";

/// How starting simd ended.
#[derive(Clone, Copy, Debug, PartialEq, Eq, Structural)]
pub enum EnsureStatus {
    Running,
    NotInstalled,
    StartFailed,
}

/// A regular file with any execute bit set.
pub fn is_executable_mode(is_file: bool, mode: u32) -> (r: bool)
    ensures
        r == (is_file && (mode & EXEC_BITS) != 0),
{
    is_file && (mode & EXEC_BITS) != 0
}

/// The first candidate that is present and executable, where `executable[i]`
/// says whether candidate `i` is an executable file.
pub fn find_from_candidates(candidates: &Vec<Option<String>>, executable: &Vec<bool>) -> (r: Option<String>)
    requires
        candidates@.len() == executable@.len(),
    ensures
        match r {
            Some(p) => exists|i: int|
                0 <= i < candidates@.len() && #[trigger] candidates@[i] is Some && executable@[i]
                && candidates@[i].unwrap()@ == p@
                && forall|j: int| 0 <= j < i ==> candidates@[j] is None || !executable@[j],
            None => forall|i: int| 0 <= i < candidates@.len() ==> candidates@[i] is None || !#[trigger] executable@[i],
        },
{
    let mut i: usize = 0;
    while i < candidates.len()
        invariant
            i <= candidates@.len(),
            candidates@.len() == executable@.len(),
            forall|j: int| 0 <= j < i ==> candidates@[j] is None || !#[trigger] executable@[j],
        decreases candidates@.len() - i,
    {
        if let Some(path) = &candidates[i] {
            if executable[i] {
                let found = string_of(path.as_str());
                assert(candidates@[i as int] is Some && executable@[i as int]);
                return Some(found);
            }
        }
        i += 1;
    }
    None
}

/// `<dir>/<build>/simd` when `dir` is set.
fn candidate_under(dir: Option<&str>, build: &str) -> (r: Option<String>)
    ensures
        match dir {
            Some(d) => r is Some && r.unwrap()@ == join_spec(join_spec(d@, build@), BINARY_NAME@),
            None => r is None,
        },
{
    match dir {
        Some(d) => {
            let base = join(d, build);
            Some(join(base.as_str(), BINARY_NAME))
        },
        None => None,
    }
}

/// The places simd is looked for after `$SIMD` and `PATH`, in order:
/// the build under `$XDG_DATA_HOME` (when set and not empty), the build
/// under `~/.local/share`, `~/.local/bin`, `/usr/local/bin` and `/usr/bin`.
pub fn binary_candidates(home: Option<&str>, xdg_data: Option<&str>) -> (r: Vec<Option<String>>)
    ensures
        r@.len() == 5,
        match xdg_data {
            Some(x) => if x@.len() > 0 {
                r@[0] is Some && r@[0].unwrap()@ == join_spec(join_spec(x@, XDG_SIMD_BUILD@), BINARY_NAME@)
            } else {
                r@[0] is None
            },
            None => r@[0] is None,
        },
        match home {
            Some(h) => r@[1] is Some && r@[1].unwrap()@ == join_spec(join_spec(h@, HOME_SIMD_BUILD@), BINARY_NAME@)
                && r@[2] is Some && r@[2].unwrap()@ == join_spec(join_spec(h@, LOCAL_BIN@), BINARY_NAME@),
            None => r@[1] is None && r@[2] is None,
        },
        r@[3] is Some && r@[3].unwrap()@ == join_spec(USR_LOCAL_BIN@, BINARY_NAME@),
        r@[4] is Some && r@[4].unwrap()@ == join_spec(USR_BIN@, BINARY_NAME@),
{
    let xdg = match xdg_data {
        Some(x) => if x.unicode_len() > 0 { Some(x) } else { None },
        None => None,
    };
    let mut v: Vec<Option<String>> = Vec::new();
    v.push(candidate_under(xdg, XDG_SIMD_BUILD));
    v.push(candidate_under(home, HOME_SIMD_BUILD));
    v.push(candidate_under(home, LOCAL_BIN));
    v.push(Some(join(USR_LOCAL_BIN, BINARY_NAME)));
    v.push(Some(join(USR_BIN, BINARY_NAME)));
    v
}

/// The directories of a `PATH` value after the characters `0..k` have been
/// read: the finished ones, and the one being read.
pub open spec fn split_state(s: Seq<char>, k: nat) -> (Seq<Seq<char>>, Seq<char>)
    decreases k,
{
    if k == 0 || k > s.len() {
        (Seq::empty(), Seq::empty())
    } else {
        let (done, cur) = split_state(s, (k - 1) as nat);
        if s[k - 1] == ':' {
            (done.push(cur), Seq::empty())
        } else {
            (done, cur.push(s[k - 1]))
        }
    }
}

/// The directories of a `PATH` value, split at every ':' (an empty value is
/// one empty directory), as `std::env::split_paths` gives them on Unix.
pub open spec fn split_path_spec(s: Seq<char>) -> Seq<Seq<char>> {
    let (done, cur) = split_state(s, s.len());
    done.push(cur)
}

/// Splits a `PATH` value at every ':'.
pub fn split_path(path: &str) -> (r: Vec<String>)
    ensures
        r@.map_values(|d: String| d@) == split_path_spec(path@),
{
    let n = path.unicode_len();
    let mut done: Vec<String> = Vec::new();
    let mut cur = String::new();
    let mut k: usize = 0;
    while k < n
        invariant
            n == path@.len(),
            k <= n,
            (done@.map_values(|d: String| d@), cur@) == split_state(path@, k as nat),
        decreases n - k,
    {
        let c = path.get_char(k);
        if c == ':' {
            let finished = cur;
            cur = String::new();
            done.push(finished);
        } else {
            push_char(&mut cur, c);
        }
        k += 1;
        assert(done@.map_values(|d: String| d@) =~= split_state(path@, k as nat).0);
        assert(cur@ =~= split_state(path@, k as nat).1);
    }
    done.push(cur);
    assert(done@.map_values(|d: String| d@) =~= split_path_spec(path@));
    done
}

/// Where `name` is looked for in one `PATH` directory: `./name` for an
/// empty directory, `dir/name` otherwise.
pub open spec fn on_path_candidate(dir: Seq<char>, name: Seq<char>) -> Seq<char> {
    if dir.len() == 0 { join_spec(CURRENT_DIR@, name) } else { join_spec(dir, name) }
}

/// The places `name` is looked for along `PATH`, in order.
pub fn path_candidates(path: &str, name: &str) -> (r: Vec<String>)
    ensures
        r@.len() == split_path_spec(path@).len(),
        forall|i: int| 0 <= i < r@.len() ==> #[trigger] r@[i]@ == on_path_candidate(split_path_spec(path@)[i], name@),
{
    let dirs = split_path(path);
    let ghost ds = dirs@.map_values(|d: String| d@);
    let mut out: Vec<String> = Vec::new();
    let mut i: usize = 0;
    while i < dirs.len()
        invariant
            i <= dirs@.len(),
            ds == dirs@.map_values(|d: String| d@),
            ds == split_path_spec(path@),
            out@.len() == i,
            forall|j: int| 0 <= j < i ==> #[trigger] out@[j]@ == on_path_candidate(ds[j], name@),
        decreases dirs@.len() - i,
    {
        let dir = dirs[i].as_str();
        assert(ds[i as int] == dir@);
        if dir.unicode_len() == 0 {
            out.push(join(CURRENT_DIR, name));
        } else {
            out.push(join(dir, name));
        }
        i += 1;
    }
    out
}

/// `char::is_whitespace`: the Unicode White_Space characters.
pub open spec fn is_white_space(c: char) -> bool {
    ||| '\t' <= c <= '\r'
    ||| c == ' '
    ||| c == '\u{85}'
    ||| c == '\u{a0}'
    ||| c == '\u{1680}'
    ||| '\u{2000}' <= c <= '\u{200a}'
    ||| c == '\u{2028}'
    ||| c == '\u{2029}'
    ||| c == '\u{202f}'
    ||| c == '\u{205f}'
    ||| c == '\u{3000}'
}

fn white_space(c: char) -> (r: bool)
    ensures
        r == is_white_space(c),
{
    ('\t' <= c && c <= '\r') || c == ' ' || c == '\u{85}' || c == '\u{a0}' || c == '\u{1680}'
        || ('\u{2000}' <= c && c <= '\u{200a}') || c == '\u{2028}' || c == '\u{2029}'
        || c == '\u{202f}' || c == '\u{205f}' || c == '\u{3000}'
}

/// `s.trim()`: `s` without leading and trailing white space.
pub open spec fn trimmed(s: Seq<char>, start: int, end: int) -> bool {
    &&& 0 <= start <= end <= s.len()
    &&& forall|i: int| 0 <= i < start ==> is_white_space(#[trigger] s[i])
    &&& forall|i: int| end <= i < s.len() ==> is_white_space(#[trigger] s[i])
    &&& start < end ==> !is_white_space(s[start]) && !is_white_space(s[end - 1])
}

/// A `/proc` entry is simd's: its name is all ASCII digits and its `comm`
/// file, trimmed of white space, reads `simd`.
pub open spec fn is_simd_entry_spec(name: Seq<char>, comm: Seq<char>) -> bool {
    &&& forall|i: int| 0 <= i < name.len() ==> '0' <= #[trigger] name[i] <= '9'
    &&& exists|start: int, end: int| trimmed(comm, start, end) && comm.subrange(start, end) == BINARY_NAME@
}

/// Whether a `/proc` entry with this name and `comm` text is a running simd.
pub fn is_simd_entry(name: &str, comm: &str) -> (r: bool)
    ensures
        r == is_simd_entry_spec(name@, comm@),
{
    let n = name.unicode_len();
    let mut i: usize = 0;
    while i < n
        invariant
            n == name@.len(),
            i <= n,
            forall|j: int| 0 <= j < i ==> '0' <= #[trigger] name@[j] <= '9',
        decreases n - i,
    {
        let c = name.get_char(i);
        if !('0' <= c && c <= '9') {
            assert(!('0' <= name@[i as int] <= '9'));
            return false;
        }
        i += 1;
    }
    let m = comm.unicode_len();
    let mut start: usize = 0;
    while start < m && white_space(comm.get_char(start))
        invariant
            m == comm@.len(),
            start <= m,
            forall|j: int| 0 <= j < start ==> is_white_space(#[trigger] comm@[j]),
        decreases m - start,
    {
        start += 1;
    }
    let mut end: usize = m;
    while end > start && white_space(comm.get_char(end - 1))
        invariant
            m == comm@.len(),
            start <= end <= m,
            forall|j: int| end <= j < m ==> is_white_space(#[trigger] comm@[j]),
        decreases end - start,
    {
        end -= 1;
    }
    assert(trimmed(comm@, start as int, end as int));
    proof {
        reveal_strlit("simd");
        lemma_trim_unique(comm@, start as int, end as int);
    }
    let word = comm.substring_char(start, end);
    crate::text::str_is(word, BINARY_NAME)
}

proof fn lemma_trim_unique(s: Seq<char>, start: int, end: int)
    requires
        trimmed(s, start, end),
    ensures
        forall|a: int, b: int| trimmed(s, a, b) ==> s.subrange(a, b) == s.subrange(start, end),
{
    assert forall|a: int, b: int| trimmed(s, a, b) implies s.subrange(a, b) == s.subrange(start, end) by {
        if start < end {
            if a < start {
                assert(is_white_space(s[a]));
            }
            if start < a {
                assert(is_white_space(s[start]));
            }
            assert(a == start);
            if b > end {
                assert(is_white_space(s[b - 1]));
            }
            if b < end {
                assert(is_white_space(s[end - 1]));
            }
            assert(b == end);
        } else {
            if a < b {
                if a < start {
                    assert(is_white_space(s[a]));
                } else {
                    assert(a >= end);
                    assert(is_white_space(s[a]));
                }
            }
            assert(s.subrange(a, b) =~= s.subrange(start, end));
        }
    }
}

/// How many times a start is polled before it is given up on.
pub fn start_polls() -> (r: u64)
    ensures
        r == START_TIMEOUT_MS / POLL_MS,
{
    START_TIMEOUT_MS / POLL_MS
}

/// Where starting simd stands, and what the caller does next.
#[derive(Clone, Copy, Debug, PartialEq, Eq, Structural)]
pub enum EnsurePhase {
    /// Check whether simd is already running.
    CheckRunning,
    /// Remove a stale pid file (only when simd is not running).
    RemoveStalePid,
    /// Start the user service and wait until simd runs.
    StartService,
    /// Look for the simd binary.
    FindBinary,
    /// Run the binary and wait until simd runs.
    SpawnBinary,
    /// Finished.
    Done(EnsureStatus),
}

/// The next phase, given whether the current phase's work succeeded
/// (for `CheckRunning` whether simd runs, for `FindBinary` whether a binary
/// was found; `RemoveStalePid` has nothing to report).
pub fn ensure_step(phase: EnsurePhase, ok: bool) -> (next: EnsurePhase)
    ensures
        next == ensure_step_spec(phase, ok),
{
    match phase {
        EnsurePhase::CheckRunning => if ok { EnsurePhase::Done(EnsureStatus::Running) } else { EnsurePhase::RemoveStalePid },
        EnsurePhase::RemoveStalePid => EnsurePhase::StartService,
        EnsurePhase::StartService => if ok { EnsurePhase::Done(EnsureStatus::Running) } else { EnsurePhase::FindBinary },
        EnsurePhase::FindBinary => if ok { EnsurePhase::SpawnBinary } else { EnsurePhase::Done(EnsureStatus::NotInstalled) },
        EnsurePhase::SpawnBinary => if ok { EnsurePhase::Done(EnsureStatus::Running) } else { EnsurePhase::Done(EnsureStatus::StartFailed) },
        EnsurePhase::Done(s) => EnsurePhase::Done(s),
    }
}

/// The status `ensure` ends with, from the outcomes of its steps in order:
/// simd was running, the service started it, a binary was found, the binary
/// started it.
pub open spec fn ensure_outcome(running: bool, service: bool, found: bool, spawned: bool) -> EnsureStatus {
    if running || service {
        EnsureStatus::Running
    } else if !found {
        EnsureStatus::NotInstalled
    } else if spawned {
        EnsureStatus::Running
    } else {
        EnsureStatus::StartFailed
    }
}

/// Walking the phases from `CheckRunning` with the outcomes of the steps
/// that are reached ends in `ensure_outcome`; at most five steps are taken.
pub proof fn ensure_walk_ends_in_the_outcome(running: bool, service: bool, found: bool, spawned: bool)
    ensures
        ({
            let p1 = ensure_step_spec(EnsurePhase::CheckRunning, running);
            let p2 = ensure_step_spec(p1, true);
            let p3 = ensure_step_spec(p2, service);
            let p4 = ensure_step_spec(p3, found);
            let p5 = ensure_step_spec(p4, spawned);
            p5 == EnsurePhase::Done(ensure_outcome(running, service, found, spawned))
        }),
{
}

/// `ensure_step` as a spec function.
pub open spec fn ensure_step_spec(phase: EnsurePhase, ok: bool) -> EnsurePhase {
    match phase {
        EnsurePhase::CheckRunning => if ok { EnsurePhase::Done(EnsureStatus::Running) } else { EnsurePhase::RemoveStalePid },
        EnsurePhase::RemoveStalePid => EnsurePhase::StartService,
        EnsurePhase::StartService => if ok { EnsurePhase::Done(EnsureStatus::Running) } else { EnsurePhase::FindBinary },
        EnsurePhase::FindBinary => if ok { EnsurePhase::SpawnBinary } else { EnsurePhase::Done(EnsureStatus::NotInstalled) },
        EnsurePhase::SpawnBinary => if ok { EnsurePhase::Done(EnsureStatus::Running) } else { EnsurePhase::Done(EnsureStatus::StartFailed) },
        EnsurePhase::Done(s) => EnsurePhase::Done(s),
    }
}

/// The message printed when no binary is found.
pub fn not_installed_message() -> (s: String)
    ensures
        s@ == REQUIRED_MESSAGE@ + ".\n"@ + INSTALL_HINT@,
{
    let mut s = string_of(REQUIRED_MESSAGE);
    crate::text::push_str(&mut s, ".\n");
    crate::text::push_str(&mut s, INSTALL_HINT);
    s
}

} // verus!
