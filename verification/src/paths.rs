//! XDG base directories and the files this program keeps under them.
//!
//! The environment is read by the caller and handed in as an `XdgEnv`; every
//! path here is a function of those values alone, joined as `PathBuf::join` does.
use vstd::prelude::*;
use vstd::string::StrSliceExecFns;
use crate::text::{push_str, string_of};

verus! {

pub const CONFIG_FILE_NAME: &'static str = "cargopit.config";
pub const CONFIG_DIR_NAME: &'static str = "cargopit";
pub const SIMD_CONFIG_DIR_NAME: &'static str = "simd";
pub const SIMD_CONFIG_FILE_NAME: &'static str = "simd.config";
pub const DIAMETERS_FILE_NAME: &'static str = "diameters.config";
pub const TUI_STATE_FILE_NAME: &'static str = "tui-state.json";
pub const CACHE_DIR_NAME: &'static str = "cargopit";
pub const ENV_XDG_CONFIG_HOME: &'static str = "XDG_CONFIG_HOME";
pub const ENV_XDG_CACHE_HOME: &'static str = "XDG_CACHE_HOME";
pub const ENV_XDG_DATA_HOME: &'static str = "XDG_DATA_HOME";
pub const ENV_XDG_STATE_HOME: &'static str = "XDG_STATE_HOME";
pub const ENV_HOME: &'static str = "HOME";
pub const ENV_PATH: &'static str = "PATH";
pub const XDG_CONFIG_FALLBACK: &'static str = ".config";
pub const XDG_CACHE_FALLBACK: &'static str = ".cache";
pub const XDG_DATA_FALLBACK: &'static str = ".local/share";
pub const XDG_STATE_FALLBACK: &'static str = ".local/state";
pub const PATH_SEPARATOR: &'static str = ":";
pub const LOCAL_BIN_DIRNAME: &'static str = ".local/bin";
pub const BUILD_DIRNAME: &'static str = "build";
pub const CONF_DIRNAME: &'static str = "conf";
pub const SHARE_DIRNAME: &'static str = "share";
pub const USR_PREFIX: &'static str = "/usr";
pub const ROOT_DIR: &'static str = "/";

/// The environment variables the base directories are read from, each as
/// the process found it (`None` when unset).
#[derive(Clone, Debug)]
pub struct XdgEnv {
    pub home: Option<String>,
    pub config_home: Option<String>,
    pub cache_home: Option<String>,
    pub data_home: Option<String>,
    pub state_home: Option<String>,
}

/// `base.join(part)` on paths as text: an absolute `part` replaces `base`;
/// otherwise `part` follows `base`, with one '/' between them unless `base`
/// is empty or already ends in '/'.
pub open spec fn join_spec(base: Seq<char>, part: Seq<char>) -> Seq<char> {
    if part.len() > 0 && part[0] == '/' {
        part
    } else if base.len() == 0 || base[base.len() - 1] == '/' {
        base + part
    } else {
        base + seq!['/'] + part
    }
}

/// `$HOME`, or `/` when it is unset.
pub open spec fn home_spec(env: XdgEnv) -> Seq<char> {
    match env.home {
        Some(h) => h@,
        None => ROOT_DIR@,
    }
}

/// An XDG variable when it is set and not empty, else `fallback` under the home directory.
pub open spec fn xdg_spec(value: Option<String>, env: XdgEnv, fallback: Seq<char>) -> Seq<char> {
    match value {
        Some(v) => if v@.len() > 0 { v@ } else { join_spec(home_spec(env), fallback) },
        None => join_spec(home_spec(env), fallback),
    }
}

pub open spec fn config_home_spec(env: XdgEnv) -> Seq<char> {
    xdg_spec(env.config_home, env, XDG_CONFIG_FALLBACK@)
}

pub open spec fn cache_home_spec(env: XdgEnv) -> Seq<char> {
    xdg_spec(env.cache_home, env, XDG_CACHE_FALLBACK@)
}

pub open spec fn data_home_spec(env: XdgEnv) -> Seq<char> {
    xdg_spec(env.data_home, env, XDG_DATA_FALLBACK@)
}

pub open spec fn state_home_spec(env: XdgEnv) -> Seq<char> {
    xdg_spec(env.state_home, env, XDG_STATE_FALLBACK@)
}

/// `base.join(part)`.
pub fn join(base: &str, part: &str) -> (r: String)
    ensures
        r@ == join_spec(base@, part@),
{
    let plen = part.unicode_len();
    if plen > 0 && part.get_char(0) == '/' {
        return string_of(part);
    }
    let blen = base.unicode_len();
    let mut s = string_of(base);
    if blen > 0 && base.get_char(blen - 1) != '/' {
        push_str(&mut s, "/");
    }
    push_str(&mut s, part);
    proof {
        reveal_strlit("/");
    }
    assert(s@ =~= join_spec(base@, part@));
    s
}

/// `$HOME`, or `/` when it is unset.
pub fn home_dir(env: &XdgEnv) -> (r: String)
    ensures
        r@ == home_spec(*env),
{
    match &env.home {
        Some(h) => string_of(h.as_str()),
        None => string_of(ROOT_DIR),
    }
}

fn xdg_dir(value: &Option<String>, env: &XdgEnv, fallback: &str) -> (r: String)
    ensures
        r@ == xdg_spec(*value, *env, fallback@),
{
    if let Some(v) = value {
        if v.as_str().unicode_len() > 0 {
            return string_of(v.as_str());
        }
    }
    let home = home_dir(env);
    join(home.as_str(), fallback)
}

/// `$XDG_CONFIG_HOME`, or `~/.config`.
pub fn config_home(env: &XdgEnv) -> (r: String)
    ensures
        r@ == config_home_spec(*env),
{
    xdg_dir(&env.config_home, env, XDG_CONFIG_FALLBACK)
}

/// `$XDG_CACHE_HOME`, or `~/.cache`.
pub fn cache_home(env: &XdgEnv) -> (r: String)
    ensures
        r@ == cache_home_spec(*env),
{
    xdg_dir(&env.cache_home, env, XDG_CACHE_FALLBACK)
}

/// `$XDG_DATA_HOME`, or `~/.local/share`.
pub fn data_home(env: &XdgEnv) -> (r: String)
    ensures
        r@ == data_home_spec(*env),
{
    xdg_dir(&env.data_home, env, XDG_DATA_FALLBACK)
}

/// `$XDG_STATE_HOME`, or `~/.local/state`.
pub fn state_home(env: &XdgEnv) -> (r: String)
    ensures
        r@ == state_home_spec(*env),
{
    xdg_dir(&env.state_home, env, XDG_STATE_FALLBACK)
}

fn join2(base: String, a: &str, b: &str) -> (r: String)
    ensures
        r@ == join_spec(join_spec(base@, a@), b@),
{
    let first = join(base.as_str(), a);
    join(first.as_str(), b)
}

/// `<config home>/cargopit/cargopit.config`.
pub fn default_config_path(env: &XdgEnv) -> (r: String)
    ensures
        r@ == join_spec(join_spec(config_home_spec(*env), CONFIG_DIR_NAME@), CONFIG_FILE_NAME@),
{
    join2(config_home(env), CONFIG_DIR_NAME, CONFIG_FILE_NAME)
}

/// `<config home>/simd/simd.config`.
pub fn simd_config_path(env: &XdgEnv) -> (r: String)
    ensures
        r@ == join_spec(join_spec(config_home_spec(*env), SIMD_CONFIG_DIR_NAME@), SIMD_CONFIG_FILE_NAME@),
{
    join2(config_home(env), SIMD_CONFIG_DIR_NAME, SIMD_CONFIG_FILE_NAME)
}

/// `<config home>/cargopit/diameters.config`.
pub fn diameters_path(env: &XdgEnv) -> (r: String)
    ensures
        r@ == join_spec(join_spec(config_home_spec(*env), CONFIG_DIR_NAME@), DIAMETERS_FILE_NAME@),
{
    join2(config_home(env), CONFIG_DIR_NAME, DIAMETERS_FILE_NAME)
}

/// `<state home>/cargopit/tui-state.json`.
pub fn tui_state_path(env: &XdgEnv) -> (r: String)
    ensures
        r@ == join_spec(join_spec(state_home_spec(*env), CONFIG_DIR_NAME@), TUI_STATE_FILE_NAME@),
{
    join2(state_home(env), CONFIG_DIR_NAME, TUI_STATE_FILE_NAME)
}

/// `<cache home>/cargopit`.
pub fn log_dir(env: &XdgEnv) -> (r: String)
    ensures
        r@ == join_spec(cache_home_spec(*env), CACHE_DIR_NAME@),
{
    let base = cache_home(env);
    join(base.as_str(), CACHE_DIR_NAME)
}

/// `~/.local/bin`.
pub fn local_bin_dir(env: &XdgEnv) -> (r: String)
    ensures
        r@ == join_spec(home_spec(*env), LOCAL_BIN_DIRNAME@),
{
    let home = home_dir(env);
    join(home.as_str(), LOCAL_BIN_DIRNAME)
}

/// What `expand_tilde` makes of a path: `~/rest` is `rest` under the home
/// directory, `~` alone is the home directory, anything else is unchanged.
pub open spec fn expand_tilde_spec(path: Seq<char>, env: XdgEnv) -> Seq<char> {
    if path.len() >= 2 && path[0] == '~' && path[1] == '/' {
        join_spec(home_spec(env), path.subrange(2, path.len() as int))
    } else if path == seq!['~'] {
        home_spec(env)
    } else {
        path
    }
}

/// Expands a leading `~` to the home directory.
pub fn expand_tilde(path: &str, env: &XdgEnv) -> (r: String)
    ensures
        r@ == expand_tilde_spec(path@, *env),
{
    let n = path.unicode_len();
    if n >= 2 && path.get_char(0) == '~' && path.get_char(1) == '/' {
        let rest = path.substring_char(2, n);
        let home = home_dir(env);
        return join(home.as_str(), rest);
    }
    if n == 1 && path.get_char(0) == '~' {
        assert(path@ =~= seq!['~']);
        return home_dir(env);
    }
    string_of(path)
}

/// The directories searched for bundled data files, in order: `conf` in the
/// source tree, `cargopit/conf` under the data home, and
/// `/usr/share/cargopit/conf`.
pub fn bundled_conf_dirs(source_root: &str, env: &XdgEnv) -> (r: Vec<String>)
    ensures
        r@.len() == 3,
        r@[0]@ == join_spec(source_root@, CONF_DIRNAME@),
        r@[1]@ == join_spec(join_spec(data_home_spec(*env), CONFIG_DIR_NAME@), CONF_DIRNAME@),
        r@[2]@ == join_spec(join_spec(join_spec(USR_PREFIX@, SHARE_DIRNAME@), CONFIG_DIR_NAME@), CONF_DIRNAME@),
{
    let mut dirs: Vec<String> = Vec::new();
    dirs.push(join(source_root, CONF_DIRNAME));
    dirs.push(join2(data_home(env), CONFIG_DIR_NAME, CONF_DIRNAME));
    let share = join(USR_PREFIX, SHARE_DIRNAME);
    dirs.push(join2(share, CONFIG_DIR_NAME, CONF_DIRNAME));
    dirs
}

/// The first candidate whose flag says it is there, with its index.
pub fn first_present(candidates: &Vec<String>, present: &Vec<bool>) -> (r: Option<usize>)
    requires
        candidates@.len() == present@.len(),
    ensures
        match r {
            Some(i) => i < present@.len() && present@[i as int] && forall|j: int| 0 <= j < i ==> !present@[j],
            None => forall|j: int| 0 <= j < present@.len() ==> !present@[j],
        },
{
    let mut i: usize = 0;
    while i < present.len()
        invariant
            i <= present@.len(),
            forall|j: int| 0 <= j < i ==> !present@[j],
        decreases present@.len() - i,
    {
        if present[i] {
            return Some(i);
        }
        i += 1;
    }
    None
}

/// The places a bundled file `name` is looked for, one in each of
/// `bundled_conf_dirs`, in the same order.
pub fn bundled_file_candidates(source_root: &str, env: &XdgEnv, name: &str) -> (r: Vec<String>)
    ensures
        r@.len() == 3,
        r@[0]@ == join_spec(join_spec(source_root@, CONF_DIRNAME@), name@),
        r@[1]@ == join_spec(join_spec(join_spec(data_home_spec(*env), CONFIG_DIR_NAME@), CONF_DIRNAME@), name@),
        r@[2]@ == join_spec(join_spec(join_spec(join_spec(USR_PREFIX@, SHARE_DIRNAME@), CONFIG_DIR_NAME@), CONF_DIRNAME@), name@),
{
    let dirs = bundled_conf_dirs(source_root, env);
    let mut out: Vec<String> = Vec::new();
    let mut i: usize = 0;
    while i < dirs.len()
        invariant
            i <= dirs@.len(),
            dirs@.len() == 3,
            out@.len() == i,
            forall|j: int| 0 <= j < i ==> #[trigger] out@[j]@ == join_spec(dirs@[j]@, name@),
        decreases dirs@.len() - i,
    {
        out.push(join(dirs[i].as_str(), name));
        i += 1;
    }
    out
}

/// The directories put in front of `PATH`: the build directory of the
/// source tree, then `~/.local/bin`.
pub fn search_path_prefix(source_root: &str, env: &XdgEnv) -> (r: Vec<String>)
    ensures
        r@.len() == 2,
        r@[0]@ == join_spec(source_root@, BUILD_DIRNAME@),
        r@[1]@ == join_spec(home_spec(*env), LOCAL_BIN_DIRNAME@),
{
    let mut v: Vec<String> = Vec::new();
    v.push(join(source_root, BUILD_DIRNAME));
    v.push(local_bin_dir(env));
    v
}

/// `PATH` with the extra directories in front, separated by ':'; the current
/// value is appended only when it is not empty.
pub open spec fn search_path_spec(extra: Seq<Seq<char>>, current: Seq<char>) -> Seq<char>
    decreases extra.len(),
{
    if extra.len() == 0 {
        current
    } else if extra.len() == 1 && current.len() == 0 {
        extra[0]
    } else {
        extra[0] + PATH_SEPARATOR@ + search_path_spec(extra.drop_first(), current)
    }
}

/// Joins the extra directories and the current `PATH` with ':'.
pub fn search_path(extra: &Vec<String>, current: &str) -> (r: String)
    ensures
        r@ == search_path_spec(extra@.map_values(|s: String| s@), current@),
{
    let ghost ex = extra@.map_values(|s: String| s@);
    let n = extra.len();
    let cur_empty = current.unicode_len() == 0;
    let mut s = String::new();
    assert(ex.subrange(0, n as int) =~= ex);
    assert(s@ + search_path_spec(ex.subrange(0, n as int), current@) =~= search_path_spec(ex, current@));
    let mut i: usize = 0;
    while i < n
        invariant
            n == extra@.len(),
            ex == extra@.map_values(|s: String| s@),
            i <= n,
            cur_empty == (current@.len() == 0),
            s@ + search_path_spec(ex.subrange(i as int, n as int), current@) == search_path_spec(ex, current@),
        decreases n - i,
    {
        let ghost rest = ex.subrange(i as int, n as int);
        assert(rest.drop_first() =~= ex.subrange(i as int + 1, n as int));
        assert(rest[0] == extra@[i as int]@);
        push_str(&mut s, extra[i].as_str());
        if i + 1 < n || !cur_empty {
            push_str(&mut s, PATH_SEPARATOR);
        }
        i += 1;
        assert(s@ + search_path_spec(ex.subrange(i as int, n as int), current@) =~= search_path_spec(ex, current@));
    }
    assert(ex.subrange(n as int, n as int) =~= Seq::<Seq<char>>::empty());
    push_str(&mut s, current);
    s
}

} // verus!
