use ironsight_core::commands::fetch_command;
use ironsight_core::commands::scan_command;
use ironsight_core::commands::ssh_scan_command;
use ironsight_core::commands::tunnel_command;
use ironsight_core::events::emit_all;
use ironsight_core::events::fetch_failure_events;
use ironsight_core::events::fetch_success_events;
use ironsight_core::events::scan_launch_failure_events;
use ironsight_core::events::scan_stream_events;
use ironsight_core::events::simulated_scan_events;
use ironsight_core::events::ssh_scan_launch_failure_events;
use ironsight_core::events::Event;
use ironsight_core::events::FetchOutcome;
use ironsight_core::events::RecordingSink;
use ironsight_core::events::SIMULATED_STEP_MILLIS;
use ironsight_core::text::escape_single_quotes;
use ironsight_core::text::key_for;

#[test]
fn escape_leaves_plain_text_alone() {
    assert_eq!(escape_single_quotes("nmap -sV host"), "nmap -sV host");
    assert_eq!(escape_single_quotes(""), "");
}

#[test]
fn escape_rewrites_each_single_quote() {
    assert_eq!(escape_single_quotes("a'b"), "a'\\''b");
    assert_eq!(escape_single_quotes("''"), "'\\'''\\''");
}

#[test]
fn key_is_username_at_host() {
    assert_eq!(key_for("alice", "10.1.2.3"), "alice@10.1.2.3");
}

#[test]
fn scan_command_substitutes_target() {
    assert_eq!(scan_command("nmap -A {target}", "10.0.0.5"), "nmap -A 10.0.0.5");
    assert_eq!(scan_command("echo fixed", "10.0.0.5"), "echo fixed");
    assert_eq!(
        scan_command("scan {target} and {target}", "x"),
        "scan x and x"
    );
}

#[test]
fn fetch_command_quotes_the_path() {
    assert_eq!(
        fetch_command("admin@db", "/var/log/app.log"),
        "ssh admin@db cat '/var/log/app.log'"
    );
}

#[test]
fn fetch_command_escapes_embedded_quote() {
    // A quote in the path cannot close the quoting: it is rewritten so the
    // remote shell still sees one literal argument.
    assert_eq!(
        fetch_command("admin@db", "/tmp/o'brien; rm -rf /"),
        "ssh admin@db cat '/tmp/o'\\''brien; rm -rf /'"
    );
}

#[test]
fn ssh_scan_command_wraps_and_substitutes() {
    assert_eq!(
        ssh_scan_command("root@edge", "nmap -sV {target}", "10.0.0.5"),
        "ssh root@edge sh -lc 'nmap -sV 10.0.0.5'"
    );
}

#[test]
fn ssh_scan_command_escapes_quotes_in_remote_command() {
    assert_eq!(
        ssh_scan_command("root@edge", "echo '{target}'", "x"),
        "ssh root@edge sh -lc 'echo '\\''x'\\'''"
    );
}

#[test]
fn tunnel_command_exact_text() {
    assert_eq!(
        tunnel_command("alice", "gw.example", 8080, "db.internal", 5432),
        "ssh -L 8080:db.internal:5432 -N -o ExitOnForwardFailure=yes -o ServerAliveInterval=60 alice@gw.example"
    );
}

#[test]
fn tunnel_command_renders_edge_ports() {
    assert_eq!(
        tunnel_command("u", "h", 0, "r", 65535),
        "ssh -L 0:r:65535 -N -o ExitOnForwardFailure=yes -o ServerAliveInterval=60 u@h"
    );
}

#[test]
fn simulated_scan_emits_five_lines_then_complete() {
    let events = simulated_scan_events();
    assert_eq!(events.len(), 6);
    for (i, event) in events.iter().take(5).enumerate() {
        match event {
            Event::ScanProgress { line } => {
                assert_eq!(line, &format!("simulated progress {}/5", i + 1));
            }
            other => panic!("expected progress, got {:?}", other),
        }
        assert_eq!(event.name(), "scan-progress");
    }
    match &events[5] {
        Event::ScanComplete { status } => assert_eq!(status, "simulated"),
        other => panic!("expected complete, got {:?}", other),
    }
    assert_eq!(events[5].name(), "scan-complete");
    assert_eq!(SIMULATED_STEP_MILLIS, 400);
}

#[test]
fn launch_failure_emits_no_progress() {
    let events = scan_launch_failure_events();
    assert_eq!(events.len(), 1);
    assert_eq!(
        events[0],
        Event::ScanComplete { status: "failed to launch".to_string() }
    );

    let events = ssh_scan_launch_failure_events();
    assert_eq!(events.len(), 1);
    assert_eq!(
        events[0],
        Event::ScanComplete { status: "failed to launch ssh".to_string() }
    );
}

#[test]
fn scan_stream_maps_lines_in_order() {
    let lines = vec!["first".to_string(), "second".to_string()];
    let events = scan_stream_events(lines, "exit status: 0".to_string());
    assert_eq!(
        events,
        vec![
            Event::ScanProgress { line: "first".to_string() },
            Event::ScanProgress { line: "second".to_string() },
            Event::ScanComplete { status: "exit status: 0".to_string() },
        ]
    );
}

#[test]
fn fetch_events_carry_content_then_terminal() {
    let events = fetch_success_events("/etc/hosts".to_string(), "127.0.0.1".to_string(), Some(0));
    assert_eq!(events.len(), 2);
    assert_eq!(
        events[0],
        Event::RemoteFileContent {
            path: "/etc/hosts".to_string(),
            content: "127.0.0.1".to_string(),
        }
    );
    assert_eq!(events[0].name(), "remote-file-content");
    assert_eq!(
        events[1],
        Event::RemoteFileComplete { outcome: FetchOutcome::Completed { code: Some(0) } }
    );
    assert_eq!(events[1].name(), "remote-file-complete");
}

#[test]
fn fetch_failure_has_only_terminal_event() {
    let events = fetch_failure_events("no such binary".to_string());
    assert_eq!(
        events,
        vec![Event::RemoteFileComplete {
            outcome: FetchOutcome::Failed { message: "no such binary".to_string() },
        }]
    );
}

#[test]
fn recording_sink_keeps_emission_order() {
    let mut sink = RecordingSink::new();
    emit_all(&mut sink, simulated_scan_events());
    emit_all(&mut sink, scan_launch_failure_events());
    let recorded = sink.into_events();
    let mut expected = simulated_scan_events();
    expected.extend(scan_launch_failure_events());
    assert_eq!(recorded, expected);
}
