//! The exact command lines handed to the privileged runner, and the
//! payload written to the child's standard input.

use vstd::prelude::*;
use vstd::string::StringExecFns;

verus! {

/// The character sequences of a vector of strings.
pub open spec fn views_of(v: Seq<String>) -> Seq<Seq<char>> {
    Seq::new(v.len(), |i: int| v[i]@)
}

/// The argument vector that launches the VPN client: privilege
/// elevation, the GlobalProtect protocol, password on standard input,
/// then portal and user exactly as given — no trimming, no validation.
pub open spec fn spec_connect_argv(portal: Seq<char>, username: Seq<char>) -> Seq<Seq<char>> {
    seq![
        "sudo"@,
        "openconnect"@,
        "--protocol=gp"@,
        "--passwd-on-stdin"@,
        portal,
        "--user"@,
        username,
    ]
}

/// The argument vector of one kill pass: non-interactive privilege
/// elevation, the absolute `pkill` path, `-9` only on the hard pass.
pub open spec fn spec_pkill_argv(hard: bool) -> Seq<Seq<char>> {
    if hard {
        seq!["sudo"@, "-n"@, "/usr/bin/pkill"@, "-9"@, "-f"@, "openconnect"@]
    } else {
        seq!["sudo"@, "-n"@, "/usr/bin/pkill"@, "-f"@, "openconnect"@]
    }
}

/// The argument vector that probes the sudoers policy.
pub open spec fn spec_permission_probe_argv() -> Seq<Seq<char>> {
    seq!["sudo"@, "-n"@, "openconnect"@, "--version"@]
}

/// The argument vector that looks the client binary up on `PATH`.
pub open spec fn spec_which_argv() -> Seq<Seq<char>> {
    seq!["which"@, "openconnect"@]
}

/// Builds the spawn command line for one connection attempt.
/// Portal and username pass through verbatim, empty or not.
pub fn connect_argv(portal: &str, username: &str) -> (r: Vec<String>)
    ensures
        views_of(r@) == spec_connect_argv(portal@, username@),
{
    let mut r: Vec<String> = Vec::new();
    r.push(String::from_str("sudo"));
    r.push(String::from_str("openconnect"));
    r.push(String::from_str("--protocol=gp"));
    r.push(String::from_str("--passwd-on-stdin"));
    r.push(String::from_str(portal));
    r.push(String::from_str("--user"));
    r.push(String::from_str(username));
    proof {
        assert(views_of(r@) =~= spec_connect_argv(portal@, username@));
    }
    r
}

/// Builds one kill pass of the termination sequence.
pub fn pkill_argv(hard: bool) -> (r: Vec<String>)
    ensures
        views_of(r@) == spec_pkill_argv(hard),
{
    let mut r: Vec<String> = Vec::new();
    r.push(String::from_str("sudo"));
    r.push(String::from_str("-n"));
    r.push(String::from_str("/usr/bin/pkill"));
    if hard {
        r.push(String::from_str("-9"));
    }
    r.push(String::from_str("-f"));
    r.push(String::from_str("openconnect"));
    proof {
        assert(views_of(r@) =~= spec_pkill_argv(hard));
    }
    r
}

/// Builds the sudoers-policy probe command line.
pub fn permission_probe_argv() -> (r: Vec<String>)
    ensures
        views_of(r@) == spec_permission_probe_argv(),
{
    let mut r: Vec<String> = Vec::new();
    r.push(String::from_str("sudo"));
    r.push(String::from_str("-n"));
    r.push(String::from_str("openconnect"));
    r.push(String::from_str("--version"));
    proof {
        assert(views_of(r@) =~= spec_permission_probe_argv());
    }
    r
}

/// Builds the `PATH` lookup command line.
pub fn which_argv() -> (r: Vec<String>)
    ensures
        views_of(r@) == spec_which_argv(),
{
    let mut r: Vec<String> = Vec::new();
    r.push(String::from_str("which"));
    r.push(String::from_str("openconnect"));
    proof {
        assert(views_of(r@) =~= spec_which_argv());
    }
    r
}

/// Builds the standard-input payload for one connection attempt: the
/// password followed by a newline, or nothing at all — the child then
/// prompts on its own channel, which the log captures.
pub fn stdin_payload(password: &Option<String>) -> (r: Option<String>)
    ensures
        match (r, password) {
            (Some(payload), Some(p)) => payload@ == p@ + "\n"@,
            (None, None) => true,
            _ => false,
        },
{
    match password {
        Some(p) => {
            let mut payload = String::from_str(p.as_str());
            payload.append("\n");
            Some(payload)
        },
        None => None,
    }
}

/// Everything one connection attempt hands to the runner: the spawn
/// command line and what to write to the child's standard input.
pub struct ConnectPlan {
    pub argv: Vec<String>,
    pub stdin: Option<String>,
}

/// Builds the whole plan for one connection attempt. The command line
/// is the same whether or not a password is present: a record without
/// one still spawns, and the child prompts on its own channel.
pub fn connect_plan(cfg: &crate::config::VpnConfig) -> (r: ConnectPlan)
    ensures
        views_of(r.argv@) == spec_connect_argv(cfg.portal@, cfg.username@),
        match (r.stdin, cfg.password) {
            (Some(payload), Some(p)) => payload@ == p@ + "\n"@,
            (None, None) => true,
            _ => false,
        },
{
    ConnectPlan { argv: connect_argv(cfg.portal.as_str(), cfg.username.as_str()), stdin: stdin_payload(&cfg.password) }
}

/// The milliseconds of pacing between the soft and the hard kill pass,
/// left for the child to unwind its tunnel teardown.
pub open spec fn spec_kill_pause_millis() -> u64 {
    300
}

/// The two passes of the termination sequence with the pacing between
/// them, in the order they must run.
pub struct KillSequence {
    pub soft: Vec<String>,
    pub hard: Vec<String>,
    pub pause_millis: u64,
}

/// Builds the full termination sequence: soft kill, pause, hard kill.
/// It runs on `disconnect`, on Quit and on application exit.
pub fn kill_sequence() -> (r: KillSequence)
    ensures
        views_of(r.soft@) == spec_pkill_argv(false),
        views_of(r.hard@) == spec_pkill_argv(true),
        r.pause_millis == spec_kill_pause_millis(),
{
    KillSequence {
        soft: pkill_argv(false),
        hard: pkill_argv(true),
        pause_millis: 300,
    }
}

} // verus!
