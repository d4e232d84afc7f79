use ironsight_core::facade::plan_fetch;
use ironsight_core::facade::plan_scan;
use ironsight_core::facade::plan_scan_ssh;
use ironsight_core::facade::start_ssh_tunnel;
use ironsight_core::facade::stop_ssh_tunnel;
use ironsight_core::facade::ScanPlan;
use ironsight_core::registry::StartOutcome;
use ironsight_core::registry::StopOutcome;
use ironsight_core::registry::TunnelRegistry;
use ironsight_core::vault::delete_ssh_credential;
use ironsight_core::vault::has_ssh_credential;
use ironsight_core::vault::store_ssh_credential;
use ironsight_core::vault::MemVault;
use ironsight_core::vault::VaultDelete;

fn ok_spawn(_arg: ()) -> Result<u32, String> {
    Ok(7)
}

fn ok_kill(_handle: u32) -> Result<(), String> {
    Ok(())
}

#[test]
fn second_start_for_same_key_is_rejected() {
    let mut registry: TunnelRegistry<u32> = TunnelRegistry::new();
    let first = registry.start("alice@gw", (), ok_spawn);
    let second = registry.start("alice@gw", (), ok_spawn);
    assert_eq!(first, StartOutcome::Started);
    assert_eq!(second, StartOutcome::AlreadyRunning);
}

#[test]
fn stop_without_entry_is_not_found() {
    let mut registry: TunnelRegistry<u32> = TunnelRegistry::new();
    assert_eq!(registry.stop("nobody@nowhere", ok_kill), StopOutcome::NotFound);
    assert!(!registry.is_running("nobody@nowhere"));
    // No side effect: a fresh start still succeeds.
    assert_eq!(registry.start("nobody@nowhere", (), ok_spawn), StartOutcome::Started);
}

#[test]
fn key_is_reusable_after_clean_stop() {
    let mut registry: TunnelRegistry<u32> = TunnelRegistry::new();
    assert_eq!(registry.start("alice@gw", (), ok_spawn), StartOutcome::Started);
    assert_eq!(registry.stop("alice@gw", ok_kill), StopOutcome::Stopped);
    assert_eq!(registry.start("alice@gw", (), ok_spawn), StartOutcome::Started);
}

#[test]
fn spawn_failure_keeps_key_free() {
    let mut registry: TunnelRegistry<u32> = TunnelRegistry::new();
    let outcome = registry.start("alice@gw", (), |_arg: ()| Err("boom".to_string()));
    assert_eq!(outcome, StartOutcome::SpawnFailed("boom".to_string()));
    assert!(!registry.is_running("alice@gw"));
    assert_eq!(registry.start("alice@gw", (), ok_spawn), StartOutcome::Started);
}

#[test]
fn failed_kill_still_removes_entry() {
    let mut registry: TunnelRegistry<u32> = TunnelRegistry::new();
    assert_eq!(registry.start("alice@gw", (), ok_spawn), StartOutcome::Started);
    let outcome = registry.stop("alice@gw", |_handle: u32| Err("no permission".to_string()));
    assert_eq!(outcome, StopOutcome::KillFailed("no permission".to_string()));
    assert!(!registry.is_running("alice@gw"));
}

#[test]
fn tunnel_facade_runs_and_deduplicates() {
    let mut registry: TunnelRegistry<u32> = TunnelRegistry::new();
    let spawn = |cmd: String| {
        assert_eq!(
            cmd,
            "ssh -L 8080:db:5432 -N -o ExitOnForwardFailure=yes -o ServerAliveInterval=60 alice@gw"
        );
        Ok(1u32)
    };
    let r = start_ssh_tunnel(&mut registry, "gw", "alice", 8080, "db", 5432, spawn);
    assert_eq!(r, Ok("running".to_string()));
    let r = start_ssh_tunnel(&mut registry, "gw", "alice", 8080, "db", 5432, |_c: String| {
        Ok(2u32)
    });
    assert_eq!(r, Ok("already_running".to_string()));

    let r = stop_ssh_tunnel(&mut registry, "gw", "alice", |handle: u32| {
        assert_eq!(handle, 1);
        Ok(())
    });
    assert_eq!(r, Ok("stopped".to_string()));
    let r = stop_ssh_tunnel(&mut registry, "gw", "alice", ok_kill);
    assert_eq!(r, Ok("not_found".to_string()));
}

#[test]
fn tunnel_facade_reports_spawn_failure() {
    let mut registry: TunnelRegistry<u32> = TunnelRegistry::new();
    let r = start_ssh_tunnel(&mut registry, "gw", "alice", 1, "db", 2, |_c: String| {
        Err::<u32, String>("No such file or directory".to_string())
    });
    assert_eq!(r, Err("failed to spawn ssh: No such file or directory".to_string()));
    assert!(!registry.is_running("alice@gw"));
}

#[test]
fn tunnel_facade_validates_fields() {
    let mut registry: TunnelRegistry<u32> = TunnelRegistry::new();
    let r = start_ssh_tunnel(&mut registry, "", "alice", 1, "db", 2, |_c: String| Ok(1u32));
    assert_eq!(r, Err("host, username and remote host must not be empty".to_string()));
    let r = stop_ssh_tunnel(&mut registry, "gw", "", ok_kill);
    assert_eq!(r, Err("host and username must not be empty".to_string()));
}

#[test]
fn scan_plans_simulate_without_template() {
    assert_eq!(plan_scan(None, Some("10.0.0.1")), ScanPlan::Simulated);
    assert_eq!(
        plan_scan(Some("nmap {target}"), Some("10.0.0.1")),
        ScanPlan::Run { command_line: "nmap 10.0.0.1".to_string() }
    );
    assert_eq!(
        plan_scan(Some("nmap {target}"), None),
        ScanPlan::Run { command_line: "nmap ".to_string() }
    );
}

#[test]
fn fetch_plan_builds_command_or_rejects() {
    assert_eq!(
        plan_fetch("admin@db", "/var/log/app.log"),
        Ok("ssh admin@db cat '/var/log/app.log'".to_string())
    );
    assert_eq!(
        plan_fetch("", "/var/log/app.log"),
        Err("ssh target and remote path must not be empty".to_string())
    );
    assert_eq!(
        plan_fetch("admin@db", ""),
        Err("ssh target and remote path must not be empty".to_string())
    );
}

#[test]
fn ssh_scan_plan_builds_command_or_rejects() {
    assert_eq!(
        plan_scan_ssh("root@edge", "nikto -h {target}", "10.9.8.7"),
        Ok("ssh root@edge sh -lc 'nikto -h 10.9.8.7'".to_string())
    );
    assert_eq!(
        plan_scan_ssh("root@edge", "nikto -h {target}", ""),
        Err("ssh target and scan target must not be empty".to_string())
    );
}

#[test]
fn credential_round_trip() {
    let mut vault = MemVault::new();
    assert_eq!(has_ssh_credential(&vault, "db", "alice"), Ok(false));
    assert_eq!(store_ssh_credential(&mut vault, "db", "alice", "hunter2"), Ok(()));
    assert_eq!(has_ssh_credential(&vault, "db", "alice"), Ok(true));
    assert_eq!(delete_ssh_credential(&mut vault, "db", "alice"), Ok(VaultDelete::Deleted));
    assert_eq!(has_ssh_credential(&vault, "db", "alice"), Ok(false));
}

#[test]
fn credential_delete_without_entry_is_not_found() {
    let mut vault = MemVault::new();
    assert_eq!(delete_ssh_credential(&mut vault, "db", "alice"), Ok(VaultDelete::NotFound));
}

#[test]
fn credential_keys_are_distinct_per_user_and_host() {
    let mut vault = MemVault::new();
    store_ssh_credential(&mut vault, "db", "alice", "secret-a").unwrap();
    store_ssh_credential(&mut vault, "db", "bob", "secret-b").unwrap();
    assert_eq!(has_ssh_credential(&vault, "db", "alice"), Ok(true));
    assert_eq!(has_ssh_credential(&vault, "db", "bob"), Ok(true));
    assert_eq!(has_ssh_credential(&vault, "other", "alice"), Ok(false));
    delete_ssh_credential(&mut vault, "db", "alice").unwrap();
    assert_eq!(has_ssh_credential(&vault, "db", "alice"), Ok(false));
    assert_eq!(has_ssh_credential(&vault, "db", "bob"), Ok(true));
}

#[test]
fn credential_calls_validate_fields() {
    let mut vault = MemVault::new();
    assert_eq!(
        store_ssh_credential(&mut vault, "", "alice", "x"),
        Err("host and username must not be empty".to_string())
    );
    assert_eq!(
        has_ssh_credential(&vault, "db", ""),
        Err("host and username must not be empty".to_string())
    );
    assert_eq!(
        delete_ssh_credential(&mut vault, "", ""),
        Err("host and username must not be empty".to_string())
    );
}
