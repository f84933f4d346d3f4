//! The play-session control protocol: one command line in, one JSON line out.
use vstd::prelude::*;
use vstd::string::{StrSliceExecFns, StringSliceAdditionalSpecFns};
use crate::text::{dec, dec_int, push_char, push_i64, push_str, push_u64, string_of};

verus! {

pub const SOCKET_NAME: &'static str = "cargopit.sock";
pub const RUNTIME_DIR_ENV: &'static str = "XDG_RUNTIME_DIR";
pub const CMD_STATUS: &'static str = "status";
pub const CMD_RELOAD: &'static str = "reload";
pub const CMD_STOP: &'static str = "stop";
pub const SIM_NONE: &'static str = "none";
pub const REPLY_OK: &'static str = "{\"ok\":true}";
pub const REPLY_UNKNOWN: &'static str = "{\"ok\":false,\"error\":\"unknown command\"}";
pub const REPLY_TOO_LONG: &'static str = "{\"ok\":false,\"error\":\"command too long\"}";
pub const LINE_MAX: usize = 64;

/// What the session reports on `status`.
#[derive(Clone, Debug)]
pub struct SessionStatus {
    pub state: String,
    pub releasing: bool,
    pub paused: bool,
    pub config_index: i32,
    pub sim: String,
    pub devices: u64,
    pub updates: u64,
    pub overruns: u64,
}

/// What a command asks of the play loop.
#[derive(Clone, Copy, Debug, PartialEq, Eq, Structural)]
pub enum ControlEffect {
    NoEffect,
    Reload,
    Stop,
}

/// The socket in the runtime directory, or `/tmp/cargopit-<uid>.sock` without one.
pub fn socket_path(runtime_dir: Option<&str>, uid: u32) -> (s: String)
    ensures
        s@ == (match runtime_dir {
            Some(dir) => if dir@.len() > 0 { dir@ + "/"@ + SOCKET_NAME@ } else { "/tmp/cargopit-"@ + dec(uid as nat) + ".sock"@ },
            None => "/tmp/cargopit-"@ + dec(uid as nat) + ".sock"@,
        }),
{
    if let Some(dir) = runtime_dir {
        if dir.unicode_len() > 0 {
            let mut s = string_of(dir);
            push_str(&mut s, "/");
            push_str(&mut s, SOCKET_NAME);
            return s;
        }
    }
    let mut s = string_of("/tmp/cargopit-");
    push_u64(&mut s, uid as u64);
    push_str(&mut s, ".sock");
    s
}

/// The bytes without their trailing newlines.
pub open spec fn trim_newlines(b: Seq<u8>) -> Seq<u8>
    decreases b.len(),
{
    if b.len() > 0 && b.last() == 0x0a { trim_newlines(b.drop_last()) } else { b }
}

fn trimmed_len(b: &[u8]) -> (n: usize)
    ensures
        n <= b@.len(),
        b@.subrange(0, n as int) == trim_newlines(b@),
{
    let mut n = b.len();
    assert(b@.subrange(0, b@.len() as int) =~= b@);
    while n > 0 && b[n - 1] == 0x0a
        invariant
            n <= b@.len(),
            trim_newlines(b@.subrange(0, n as int)) == trim_newlines(b@),
        decreases n,
    {
        assert(b@.subrange(0, n as int).drop_last() =~= b@.subrange(0, n - 1));
        n -= 1;
    }
    n
}

fn bytes_are(b: &[u8], n: usize, lit: &str) -> (r: bool)
    requires
        n <= b@.len(),
    ensures
        r == (b@.subrange(0, n as int) == lit.spec_bytes()),
{
    let l = lit.as_bytes();
    if l.len() != n {
        return false;
    }
    let mut i: usize = 0;
    while i < n
        invariant
            n <= b@.len(),
            l@ == lit.spec_bytes(),
            l@.len() == n,
            i <= n,
            forall|j: int| 0 <= j < i ==> b@[j] == l@[j],
        decreases n - i,
    {
        if b[i] != l[i] {
            assert(b@.subrange(0, n as int)[i as int] != l@[i as int]);
            return false;
        }
        i += 1;
    }
    assert(b@.subrange(0, n as int) =~= l@);
    true
}

/// The command a line asks for, trailing newlines aside: `reload`, `stop`, or nothing.
pub open spec fn spec_effect(command: Seq<u8>) -> ControlEffect {
    let c = trim_newlines(command);
    if c == CMD_RELOAD.spec_bytes() {
        ControlEffect::Reload
    } else if c == CMD_STOP.spec_bytes() {
        ControlEffect::Stop
    } else {
        ControlEffect::NoEffect
    }
}

/// What a command line asks of the play loop.
pub fn effect(command: &str) -> (r: ControlEffect)
    ensures
        r == spec_effect(command.spec_bytes()),
{
    let b = command.as_bytes();
    let n = trimmed_len(b);
    if bytes_are(b, n, CMD_RELOAD) {
        ControlEffect::Reload
    } else if bytes_are(b, n, CMD_STOP) {
        ControlEffect::Stop
    } else {
        ControlEffect::NoEffect
    }
}

/// `char::is_control`: the C0 and C1 control characters.
pub open spec fn is_control(c: char) -> bool {
    (c as u32) <= 0x1f || (0x7f <= (c as u32) && (c as u32) <= 0x9f)
}

/// Kept in JSON text: not a quote, a backslash or a control character.
pub open spec fn json_keeps(c: char) -> bool {
    c != '"' && c != '\\' && !is_control(c)
}

/// The text with quotes, backslashes and control characters left out.
pub open spec fn spec_json_safe(t: Seq<char>) -> Seq<char>
    decreases t.len(),
{
    if t.len() == 0 {
        Seq::empty()
    } else {
        spec_json_safe(t.drop_last()) + (if json_keeps(t.last()) { seq![t.last()] } else { Seq::empty() })
    }
}

fn json_safe(text: &str) -> (s: String)
    ensures
        s@ == spec_json_safe(text@),
{
    let n = text.unicode_len();
    let mut s = String::new();
    let mut i: usize = 0;
    while i < n
        invariant
            n == text@.len(),
            i <= n,
            s@ == spec_json_safe(text@.subrange(0, i as int)),
        decreases n - i,
    {
        let c = text.get_char(i);
        let code = c as u32;
        proof {
            let next = text@.subrange(0, i as int + 1);
            assert(next.drop_last() =~= text@.subrange(0, i as int));
        }
        if c != '"' && c != '\\' && !(code <= 0x1f || (0x7f <= code && code <= 0x9f)) {
            push_char(&mut s, c);
        }
        i += 1;
    }
    assert(text@.subrange(0, n as int) =~= text@);
    s
}

/// JSON `true` or `false`.
pub open spec fn json_bool(v: bool) -> Seq<char> {
    if v { "true"@ } else { "false"@ }
}

/// The status reply.
pub open spec fn spec_status_json(st: SessionStatus) -> Seq<char> {
    "{\"ok\":true,\"state\":\""@ + st.state@ + "\",\"releasing\":"@ + json_bool(st.releasing) + ",\"paused\":"@
        + json_bool(st.paused) + ",\"config_index\":"@ + dec_int(st.config_index as int) + ",\"sim\":\""@
        + spec_json_safe(st.sim@) + "\",\"devices\":"@ + dec(st.devices as nat) + ",\"updates\":"@ + dec(
        st.updates as nat,
    ) + ",\"overruns\":"@ + dec(st.overruns as nat) + "}"@
}

fn status_json(status: &SessionStatus) -> (s: String)
    ensures
        s@ == spec_status_json(*status),
{
    let mut s = string_of("{\"ok\":true,\"state\":\"");
    push_str(&mut s, status.state.as_str());
    push_str(&mut s, "\",\"releasing\":");
    push_str(&mut s, if status.releasing { "true" } else { "false" });
    push_str(&mut s, ",\"paused\":");
    push_str(&mut s, if status.paused { "true" } else { "false" });
    push_str(&mut s, ",\"config_index\":");
    push_i64(&mut s, status.config_index as i64);
    push_str(&mut s, ",\"sim\":\"");
    let sim = json_safe(status.sim.as_str());
    push_str(&mut s, sim.as_str());
    push_str(&mut s, "\",\"devices\":");
    push_u64(&mut s, status.devices);
    push_str(&mut s, ",\"updates\":");
    push_u64(&mut s, status.updates);
    push_str(&mut s, ",\"overruns\":");
    push_u64(&mut s, status.overruns);
    push_str(&mut s, "}");
    s
}

/// The reply to a command line, trailing newlines aside: too long from 64
/// bytes on; the status JSON for `status`; ok for `reload` and `stop`;
/// unknown otherwise.
pub open spec fn spec_reply(command: Seq<u8>, status: SessionStatus) -> Seq<char> {
    let c = trim_newlines(command);
    if c.len() >= LINE_MAX {
        REPLY_TOO_LONG@
    } else if c == CMD_STATUS.spec_bytes() {
        spec_status_json(status)
    } else if c == CMD_RELOAD.spec_bytes() || c == CMD_STOP.spec_bytes() {
        REPLY_OK@
    } else {
        REPLY_UNKNOWN@
    }
}

/// The reply to a command line.
pub fn reply(command: &str, status: &SessionStatus) -> (s: String)
    ensures
        s@ == spec_reply(command.spec_bytes(), *status),
{
    let b = command.as_bytes();
    let n = trimmed_len(b);
    if n >= LINE_MAX {
        return string_of(REPLY_TOO_LONG);
    }
    if bytes_are(b, n, CMD_STATUS) {
        status_json(status)
    } else if bytes_are(b, n, CMD_RELOAD) || bytes_are(b, n, CMD_STOP) {
        string_of(REPLY_OK)
    } else {
        string_of(REPLY_UNKNOWN)
    }
}

/// A command that changes the session is answered ok: `reload` and `stop`
/// have an effect and the plain ok reply, and a command with an effect is
/// one of them.
pub proof fn effect_commands_are_answered_ok(command: Seq<u8>, status: SessionStatus)
    ensures
        spec_effect(command) != ControlEffect::NoEffect ==> spec_reply(command, status) == REPLY_OK@,
{
    reveal_strlit("reload");
    reveal_strlit("stop");
    reveal_strlit("status");
    vstd::string::is_ascii_spec_bytes(CMD_RELOAD);
    vstd::string::is_ascii_spec_bytes(CMD_STOP);
    vstd::string::is_ascii_spec_bytes(CMD_STATUS);
    assert(vstd::string::is_ascii(CMD_RELOAD));
    assert(vstd::string::is_ascii(CMD_STOP));
    assert(vstd::string::is_ascii(CMD_STATUS));
    assert(CMD_RELOAD.spec_bytes() != CMD_STATUS.spec_bytes()) by {
        assert(CMD_RELOAD.spec_bytes()[0] != CMD_STATUS.spec_bytes()[0]);
    }
    assert(CMD_STOP.spec_bytes() != CMD_STATUS.spec_bytes()) by {
        assert(CMD_STOP.spec_bytes().len() != CMD_STATUS.spec_bytes().len());
    }
}

} // verus!
