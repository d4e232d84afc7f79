//! The exact command lines the manager hands to the platform shell: the
//! substituted local scan command, the SSH-wrapped remote scan, the remote
//! file fetch, and the port-forward tunnel.

use vstd::prelude::*;
use vstd::string::StringExecFns;
use crate::shell::push_quoted;
use crate::shell::quoted;
use crate::text::dec_rep;
use crate::text::key_for;
use crate::text::key_of;
use crate::text::push_decimal;
use crate::text::replace_all;
use crate::text::replaced;

verus! {

/// A command template with its `{target}` placeholder substituted.
pub open spec fn scan_command_spec(template: Seq<char>, target: Seq<char>) -> Seq<char> {
    replaced(template, "{target}"@, target)
}

/// The local scan command: the configured template with the target spliced
/// in. It runs under the shell as the operator configured it, unquoted.
pub fn scan_command(template: &str, target: &str) -> (r: String)
    ensures
        r@ == scan_command_spec(template@, target@),
{
    proof {
        reveal_strlit("{target}");
    }
    replace_all(template, "{target}", target)
}

/// `ssh <target> cat '<path>'`, the path quoted as one literal argument.
pub open spec fn fetch_command_spec(ssh_target: Seq<char>, remote_path: Seq<char>) -> Seq<
    char,
> {
    "ssh "@ + ssh_target + " cat "@ + quoted(remote_path)
}

/// Builds the remote file fetch command.
pub fn fetch_command(ssh_target: &str, remote_path: &str) -> (r: String)
    ensures
        r@ == fetch_command_spec(ssh_target@, remote_path@),
{
    let mut s = String::new();
    s.append("ssh ");
    s.append(ssh_target);
    s.append(" cat ");
    push_quoted(&mut s, remote_path);
    proof {
        assert(s@ =~= fetch_command_spec(ssh_target@, remote_path@));
    }
    s
}

/// `ssh <target> sh -lc '<command>'`: the substituted remote scan command,
/// quoted so the remote login shell receives it as one argument.
pub open spec fn ssh_scan_command_spec(
    ssh_target: Seq<char>,
    template: Seq<char>,
    scan_target: Seq<char>,
) -> Seq<char> {
    "ssh "@ + ssh_target + " sh -lc "@ + quoted(replaced(template, "{target}"@, scan_target))
}

/// Builds the remote scan command.
pub fn ssh_scan_command(ssh_target: &str, scan_cmd_template: &str, scan_target: &str) -> (r:
    String)
    ensures
        r@ == ssh_scan_command_spec(ssh_target@, scan_cmd_template@, scan_target@),
{
    proof {
        reveal_strlit("{target}");
    }
    let remote = replace_all(scan_cmd_template, "{target}", scan_target);
    let mut s = String::new();
    s.append("ssh ");
    s.append(ssh_target);
    s.append(" sh -lc ");
    push_quoted(&mut s, remote.as_str());
    proof {
        assert(s@ =~= ssh_scan_command_spec(ssh_target@, scan_cmd_template@, scan_target@));
    }
    s
}

/// The tunnel command: a local-to-remote TCP forward through
/// `username@host` that fails fast if the forward cannot be established,
/// probes the link every minute, and never allocates a remote shell.
pub open spec fn tunnel_command_spec(
    username: Seq<char>,
    host: Seq<char>,
    local_port: u16,
    remote_host: Seq<char>,
    remote_port: u16,
) -> Seq<char> {
    "ssh -L "@ + dec_rep(local_port as nat) + ":"@ + remote_host + ":"@ + dec_rep(
        remote_port as nat,
    ) + " -N -o ExitOnForwardFailure=yes -o ServerAliveInterval=60 "@ + key_of(username, host)
}

/// Builds the tunnel command.
pub fn tunnel_command(
    username: &str,
    host: &str,
    local_port: u16,
    remote_host: &str,
    remote_port: u16,
) -> (r: String)
    ensures
        r@ == tunnel_command_spec(username@, host@, local_port, remote_host@, remote_port),
{
    let mut s = String::new();
    s.append("ssh -L ");
    push_decimal(&mut s, local_port);
    s.append(":");
    s.append(remote_host);
    s.append(":");
    push_decimal(&mut s, remote_port);
    s.append(" -N -o ExitOnForwardFailure=yes -o ServerAliveInterval=60 ");
    let key = key_for(username, host);
    s.append(key.as_str());
    proof {
        assert(s@ =~= tunnel_command_spec(
            username@,
            host@,
            local_port,
            remote_host@,
            remote_port,
        ));
    }
    s
}

} // verus!
