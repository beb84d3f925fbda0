//! The simulator pipeline, run synchronously: scripted pod commands feed
//! the supervisor; each requested follower produces its synthetic lines;
//! the formatter renders them.

use kube_podlog::clock::ingest_event;
use kube_podlog::config::{ColorBy, HumanFormat};
use kube_podlog::dev::{dev_line_message, dev_pod_script};
use kube_podlog::merge::{format_json, LineFormatter};
use kube_podlog::shutdown::{exit_code_for, Shutdown, ShutdownReason};
use kube_podlog::supervisor::{StreamBackend, StreamSupervisor};
use kube_podlog::types::LogEvent;

/// Run the scripted dev lifecycle and collect every line a live follower
/// would have produced: `dev_lines` lines per spawned follower.
fn dev_events(dev_lines: u64) -> Vec<LogEvent> {
    let shutdown = Shutdown::new();
    let mut sup = StreamSupervisor::new(
        StreamBackend::Dev { rate_ms: 1, max_lines: Some(dev_lines) },
        shutdown.token(),
    );
    let mut events = Vec::new();
    let namespace = "default".to_string();
    for cmd in dev_pod_script(&namespace) {
        for req in sup.handle_command(cmd) {
            for n in 1..=dev_lines {
                if req.token.is_cancelled() {
                    break;
                }
                let msg = dev_line_message(n);
                events.push(ingest_event(&req.key.pod, &req.key.container, msg));
            }
        }
    }
    sup.shutdown_all();
    events
}

#[test]
fn dev_smoke_human_runs_and_exits() {
    let events = dev_events(3);
    assert!(!events.is_empty());
    let fmt = LineFormatter::new(HumanFormat {
        timestamps: true,
        color: false,
        color_by: ColorBy::Pod,
    });
    for (i, ev) in events.iter().enumerate() {
        let line = fmt.format_human(ev);
        // <ts> <pod>/<container> ... | log line <n>
        let (_ts, rest) = line.split_once(' ').expect("line has a timestamp");
        let prefix = format!("dev-pod-1/{}", ev.container);
        assert!(rest.starts_with(&prefix), "bad prefix in {line}");
        let n = (i % 3) + 1;
        assert!(rest.ends_with(&format!(" | log line {n}")), "bad message in {line}");
    }
    // Both containers of the script appear.
    assert!(events.iter().any(|e| e.container == "app"));
    assert!(events.iter().any(|e| e.container == "sidecar"));
    // The simulator ending is a clean exit.
    assert_eq!(exit_code_for(ShutdownReason::WatcherEnded), 0);
}

#[test]
fn dev_smoke_json_is_valid_ndjson_and_nonempty() {
    let events = dev_events(3);
    let mut count = 0usize;
    let mut output = String::new();
    for ev in &events {
        output.push_str(&format_json(ev));
        output.push('\n');
    }
    for line in output.lines().map(str::trim).filter(|l| !l.is_empty()) {
        let v: serde_json::Value =
            serde_json::from_str(line).expect("each line must be valid JSON");
        for k in ["ts", "namespace", "pod", "container", "message"] {
            assert!(v.get(k).is_some(), "missing key {k} in {v}");
        }
        assert_eq!(v["namespace"], "default");
        assert_eq!(v["pod"], "dev-pod-1");
        count += 1;
    }
    assert!(count > 0, "expected some JSON lines, got 0. output was empty.");
}

#[test]
fn ingested_timestamps_look_like_rfc3339() {
    let events = dev_events(1);
    for ev in events {
        assert!(ev.ts.len() >= 20, "short timestamp {}", ev.ts);
        assert!(ev.ts.contains('T'));
        assert!(ev.ts.is_ascii());
        assert!(!ev.ts.contains('\n'));
        assert!(!ev.ts.contains('"'));
    }
}
