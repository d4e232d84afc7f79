//! The public entry points: each validates its inputs, resolves the exact
//! command line, and either hands back a plan for the caller to run in the
//! background (scans, fetches) or drives the tunnel registry synchronously
//! (tunnel start and stop). A returned plan means the request was accepted;
//! how the spawned process fares is reported only through the event stream.

use vstd::prelude::*;
use vstd::string::StringExecFns;
use crate::commands::fetch_command;
use crate::commands::fetch_command_spec;
use crate::commands::scan_command;
use crate::commands::scan_command_spec;
use crate::commands::ssh_scan_command;
use crate::commands::ssh_scan_command_spec;
use crate::commands::tunnel_command;
use crate::commands::tunnel_command_spec;
use crate::registry::StartOutcome;
use crate::registry::StopOutcome;
use crate::registry::TunnelRegistry;
use crate::text::key_for;
use crate::text::key_of;

verus! {

/// The work a local scan request resolves to: the configured command with
/// its target substituted, or the built-in simulated scan when no command
/// template is configured.
#[derive(Debug, Clone, PartialEq, Eq)]
pub enum ScanPlan {
    Simulated,
    Run { command_line: String },
}

/// The text an absent optional argument stands for: nothing.
pub open spec fn opt_text(o: Option<&str>) -> Seq<char> {
    match o {
        Some(s) => s@,
        None => Seq::empty(),
    }
}

/// Resolves a local scan request. Always accepted: with a configured
/// template the target is substituted into it; without one the simulated
/// scan is the plan.
pub fn plan_scan(template: Option<&str>, target: Option<&str>) -> (p: ScanPlan)
    ensures
        template matches Some(t) ==> (p matches ScanPlan::Run { command_line }
            && command_line@ == scan_command_spec(t@, opt_text(target))),
        template matches None ==> p matches ScanPlan::Simulated,
{
    match template {
        Some(t) => {
            let target_text = match target {
                Some(s) => s,
                None => "",
            };
            proof {
                reveal_strlit("");
                assert(""@ =~= Seq::<char>::empty());
            }
            ScanPlan::Run { command_line: scan_command(t, target_text) }
        },
        None => ScanPlan::Simulated,
    }
}

/// Resolves a remote file fetch: the command is owed whenever the target
/// and path are present, and only then.
pub fn plan_fetch(ssh_target: &str, remote_path: &str) -> (r: Result<String, String>)
    ensures
        ssh_target@.len() == 0 || remote_path@.len() == 0 ==> (r matches Err(m)
            && m@ == "ssh target and remote path must not be empty"@),
        ssh_target@.len() > 0 && remote_path@.len() > 0 ==> r matches Ok(_),
        r matches Ok(cmd) ==> ssh_target@.len() > 0 && remote_path@.len() > 0 && cmd@
            == fetch_command_spec(ssh_target@, remote_path@),
{
    if ssh_target.is_empty() || remote_path.is_empty() {
        return Err("ssh target and remote path must not be empty".to_owned());
    }
    Ok(fetch_command(ssh_target, remote_path))
}

/// Resolves a remote scan: the command is owed whenever the SSH target and
/// the scan target are present, and only then.
pub fn plan_scan_ssh(ssh_target: &str, scan_cmd_template: &str, scan_target: &str) -> (r: Result<
    String,
    String,
>)
    ensures
        ssh_target@.len() == 0 || scan_target@.len() == 0 ==> (r matches Err(m)
            && m@ == "ssh target and scan target must not be empty"@),
        ssh_target@.len() > 0 && scan_target@.len() > 0 ==> r matches Ok(_),
        r matches Ok(cmd) ==> ssh_target@.len() > 0 && scan_target@.len() > 0 && cmd@
            == ssh_scan_command_spec(ssh_target@, scan_cmd_template@, scan_target@),
{
    if ssh_target.is_empty() || scan_target.is_empty() {
        return Err("ssh target and scan target must not be empty".to_owned());
    }
    Ok(ssh_scan_command(ssh_target, scan_cmd_template, scan_target))
}

/// Whether a tunnel request names everything it must.
pub open spec fn tunnel_params_valid(
    host: Seq<char>,
    username: Seq<char>,
    remote_host: Seq<char>,
) -> bool {
    host.len() > 0 && username.len() > 0 && remote_host.len() > 0
}

/// Starts an SSH tunnel for `username@host`. Synchronous: the registry is
/// checked and, only for a fresh key, `spawn` is invoked on the exact
/// tunnel command and the handle registered, all in one exclusive step.
/// `Ok("running")` and `Ok("already_running")` are the two accepted
/// outcomes; a spawn failure is the only error on valid input.
pub fn start_ssh_tunnel<H, F: FnOnce(String) -> Result<H, String>>(
    registry: &mut TunnelRegistry<H>,
    host: &str,
    username: &str,
    local_port: u16,
    remote_host: &str,
    remote_port: u16,
    spawn: F,
) -> (r: Result<String, String>)
    requires
        old(registry).wf(),
        forall|c: String|
            c@ == tunnel_command_spec(username@, host@, local_port, remote_host@, remote_port)
                ==> #[trigger] call_requires(spawn, (c,)),
    ensures
        final(registry).wf(),
        !tunnel_params_valid(host@, username@, remote_host@) ==> (r matches Err(m)
            && m@ == "host, username and remote host must not be empty"@
            && final(registry)@ == old(registry)@),
        tunnel_params_valid(host@, username@, remote_host@) && old(registry)@.contains_key(
            key_of(username@, host@),
        ) ==> (r matches Ok(s) && s@ == "already_running"@ && final(registry)@ == old(
            registry,
        )@),
        tunnel_params_valid(host@, username@, remote_host@) && !old(registry)@.contains_key(
            key_of(username@, host@),
        ) ==> ((r matches Ok(s) && s@ == "running"@) || r matches Err(_)),
        tunnel_params_valid(host@, username@, remote_host@) && !old(registry)@.contains_key(
            key_of(username@, host@),
        ) ==> (r matches Ok(s) ==> (s@ == "running"@ && exists|c: String, h: H|
            c@ == tunnel_command_spec(username@, host@, local_port, remote_host@, remote_port)
                && #[trigger] call_ensures(spawn, (c,), Ok::<H, String>(h))
                && final(registry)@ == old(registry)@.insert(key_of(username@, host@), h)
        )),
        tunnel_params_valid(host@, username@, remote_host@) && !old(registry)@.contains_key(
            key_of(username@, host@),
        ) ==> (r matches Err(m) ==> (
        final(registry)@ == old(registry)@ && exists|c: String, e: String|
            c@ == tunnel_command_spec(username@, host@, local_port, remote_host@, remote_port)
                && #[trigger] call_ensures(spawn, (c,), Err::<H, String>(e))
                && m@ == "failed to spawn ssh: "@ + e@)),
{
    if host.is_empty() || username.is_empty() || remote_host.is_empty() {
        return Err("host, username and remote host must not be empty".to_owned());
    }
    let key = key_for(username, host);
    let cmd = tunnel_command(username, host, local_port, remote_host, remote_port);
    let ghost kv = key_of(username@, host@);
    let ghost cs = tunnel_command_spec(username@, host@, local_port, remote_host@, remote_port);
    match registry.start(key.as_str(), cmd, spawn) {
        StartOutcome::Started => {
            proof {
                let h = choose|h: H|
                    call_ensures(spawn, (cmd, ), Ok::<H, String>(h)) && registry@ == old(
                        registry,
                    )@.insert(key@, h);
                assert(exists|c: String, h2: H|
                    c@ == cs && #[trigger] call_ensures(spawn, (c, ), Ok::<H, String>(h2))
                        && registry@ == old(registry)@.insert(kv, h2)) by {
                    assert(cmd@ == cs && call_ensures(spawn, (cmd, ), Ok::<H, String>(h))
                        && registry@ == old(registry)@.insert(kv, h));
                }
            }
            Ok("running".to_owned())
        },
        StartOutcome::AlreadyRunning => Ok("already_running".to_owned()),
        StartOutcome::SpawnFailed(e) => {
            let mut m = String::new();
            m.append("failed to spawn ssh: ");
            m.append(e.as_str());
            proof {
                assert(exists|c: String, e2: String|
                    c@ == cs && #[trigger] call_ensures(spawn, (c, ), Err::<H, String>(e2))
                        && m@ == "failed to spawn ssh: "@ + e2@) by {
                    assert(cmd@ == cs && call_ensures(spawn, (cmd, ), Err::<H, String>(e))
                        && m@ == "failed to spawn ssh: "@ + e@);
                }
            }
            Err(m)
        },
    }
}

/// Stops the tunnel for `username@host`. The entry is removed before the
/// process is killed and reaped, so a following start for the key cannot
/// race the teardown. `Ok("stopped")` and `Ok("not_found")` are the two
/// accepted outcomes; a failed kill is the only error on valid input, and
/// the entry stays removed.
pub fn stop_ssh_tunnel<H, F: FnOnce(H) -> Result<(), String>>(
    registry: &mut TunnelRegistry<H>,
    host: &str,
    username: &str,
    kill: F,
) -> (r: Result<String, String>)
    requires
        old(registry).wf(),
        old(registry)@.contains_key(key_of(username@, host@)) ==> call_requires(
            kill,
            (old(registry)@[key_of(username@, host@)],),
        ),
    ensures
        final(registry).wf(),
        host@.len() == 0 || username@.len() == 0 ==> (r matches Err(m)
            && m@ == "host and username must not be empty"@ && final(registry)@ == old(
            registry,
        )@),
        host@.len() > 0 && username@.len() > 0 && !old(registry)@.contains_key(
            key_of(username@, host@),
        ) ==> (r matches Ok(s) && s@ == "not_found"@ && final(registry)@ == old(registry)@),
        host@.len() > 0 && username@.len() > 0 && old(registry)@.contains_key(
            key_of(username@, host@),
        ) ==> (final(registry)@ == old(registry)@.remove(key_of(username@, host@)) && ((
        r matches Ok(s) && s@ == "stopped"@) || r matches Err(_))),
        host@.len() > 0 && username@.len() > 0 && old(registry)@.contains_key(
            key_of(username@, host@),
        ) ==> (r matches Ok(s) ==> (s@ == "stopped"@ && call_ensures(
            kill,
            (old(registry)@[key_of(username@, host@)],),
            Ok::<(), String>(()),
        ))),
        host@.len() > 0 && username@.len() > 0 && old(registry)@.contains_key(
            key_of(username@, host@),
        ) ==> (r matches Err(m) ==> (exists|e: String|
            #[trigger] call_ensures(
                kill,
                (old(registry)@[key_of(username@, host@)],),
                Err::<(), String>(e),
            ) && m@ == "failed to kill tunnel process: "@ + e@)),
{
    if host.is_empty() || username.is_empty() {
        return Err("host and username must not be empty".to_owned());
    }
    let key = key_for(username, host);
    let ghost kv = key_of(username@, host@);
    match registry.stop(key.as_str(), kill) {
        StopOutcome::Stopped => Ok("stopped".to_owned()),
        StopOutcome::NotFound => Ok("not_found".to_owned()),
        StopOutcome::KillFailed(e) => {
            let mut m = String::new();
            m.append("failed to kill tunnel process: ");
            m.append(e.as_str());
            proof {
                assert(exists|e2: String|
                    #[trigger] call_ensures(
                        kill,
                        (old(registry)@[kv],),
                        Err::<(), String>(e2),
                    ) && m@ == "failed to kill tunnel process: "@ + e2@) by {
                    assert(call_ensures(kill, (old(registry)@[kv],), Err::<(), String>(e))
                        && m@ == "failed to kill tunnel process: "@ + e@);
                }
            }
            Err(m)
        },
    }
}

} // verus!
