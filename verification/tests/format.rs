use kube_podlog::config::{ColorBy, HumanFormat};
use kube_podlog::dev::{dev_line_message, format_u64};
use kube_podlog::merge::{format_json, json_escape, stable_color_index, LineFormatter};
use kube_podlog::types::LogEvent;

fn event(ts: &str, msg: &str) -> LogEvent {
    LogEvent {
        ts: ts.to_string(),
        namespace: "ns".to_string(),
        pod: "web-1".to_string(),
        container: "app".to_string(),
        message: msg.to_string(),
    }
}

#[test]
fn json_escape_is_exact() {
    assert_eq!(json_escape("plain"), "plain");
    assert_eq!(json_escape("a\"b"), "a\\\"b");
    assert_eq!(json_escape("a\\b"), "a\\\\b");
    assert_eq!(json_escape("a\nb\rc\td"), "a\\nb\\rc\\td");
    assert_eq!(json_escape("\u{1}\u{1f}"), "\\u0001\\u001f");
    assert_eq!(json_escape(""), "");
    assert_eq!(json_escape("héllo ☃"), "héllo ☃");
}

#[test]
fn json_line_has_five_keys_and_round_trips() {
    let ev = event("2024-01-02T03:04:05.6Z", "a \"quoted\" line\twith\\stuff");
    let line = format_json(&ev);
    let v: serde_json::Value = serde_json::from_str(&line).expect("line must parse as JSON");
    for k in ["ts", "namespace", "pod", "container", "message"] {
        assert!(v.get(k).is_some(), "missing key {k}");
    }
    assert_eq!(v["ts"], "2024-01-02T03:04:05.6Z");
    assert_eq!(v["namespace"], "ns");
    assert_eq!(v["pod"], "web-1");
    assert_eq!(v["container"], "app");
    assert_eq!(v["message"], "a \"quoted\" line\twith\\stuff");
}

#[test]
fn json_line_stays_single_even_with_newlines_in_the_message() {
    let ev = event("ts", "first\nsecond");
    let line = format_json(&ev);
    assert!(!line.contains('\n'));
    let v: serde_json::Value = serde_json::from_str(&line).unwrap();
    assert_eq!(v["message"], "first\nsecond");
}

#[test]
fn human_plain_line_is_exact() {
    let fmt = LineFormatter::new(HumanFormat {
        timestamps: true,
        color: false,
        color_by: ColorBy::Pod,
    });
    let line = fmt.format_human(&event("2024-01-02T03:04:05Z", "hello"));
    // prefix "web-1/app" is 9 characters, padded to 36.
    assert_eq!(line, format!("2024-01-02T03:04:05Z {:<36} | {}", "web-1/app", "hello"));
}

#[test]
fn human_line_without_timestamps() {
    let fmt = LineFormatter::new(HumanFormat {
        timestamps: false,
        color: false,
        color_by: ColorBy::Pod,
    });
    let line = fmt.format_human(&event("2024-01-02T03:04:05Z", "hello"));
    assert_eq!(line, format!("{:<36} | hello", "web-1/app"));
}

#[test]
fn long_prefix_is_not_truncated() {
    let fmt = LineFormatter::new(HumanFormat {
        timestamps: false,
        color: false,
        color_by: ColorBy::Pod,
    });
    let mut ev = event("ts", "msg");
    ev.pod = "a".repeat(40);
    let line = fmt.format_human(&ev);
    assert_eq!(line, format!("{}/app | msg", "a".repeat(40)));
}

#[test]
fn human_without_color_has_no_escape_sequence() {
    let fmt = LineFormatter::new(HumanFormat {
        timestamps: true,
        color: false,
        color_by: ColorBy::Container,
    });
    let line = fmt.format_human(&event("2024-01-02T03:04:05Z", "hello"));
    assert!(!line.contains('\u{1b}'));
}

#[test]
fn human_with_color_wraps_the_padded_prefix() {
    let fmt = LineFormatter::new(HumanFormat {
        timestamps: true,
        color: true,
        color_by: ColorBy::Pod,
    });
    let ev = event("2024-01-02T03:04:05Z", "hello");
    let line = fmt.format_human(&ev);
    let idx = stable_color_index("web-1");
    assert!(line.starts_with("2024-01-02T03:04:05Z \u{1b}[1;"));
    assert!(line.contains("\u{1b}[0m | hello"));
    assert!(idx < 11);
    // The painted part is the padded prefix.
    let expected_padded = format!("{:<36}", "web-1/app");
    assert!(line.contains(&expected_padded));
}

#[test]
fn stable_color_index_is_stable() {
    // FNV-1a style hash, reduced to the 11-colour palette.
    assert_eq!(stable_color_index("app"), 6);
    assert_eq!(stable_color_index("sidecar"), 1);
    assert_eq!(stable_color_index("dev-pod-1"), 10);
    assert_eq!(stable_color_index(""), 8);
}

#[test]
fn format_u64_writes_decimal() {
    assert_eq!(format_u64(0), "0");
    assert_eq!(format_u64(7), "7");
    assert_eq!(format_u64(10), "10");
    assert_eq!(format_u64(1024), "1024");
    assert_eq!(format_u64(u64::MAX), "18446744073709551615");
}

#[test]
fn dev_line_message_counts() {
    assert_eq!(dev_line_message(1), "log line 1");
    assert_eq!(dev_line_message(3), "log line 3");
    assert_eq!(dev_line_message(120), "log line 120");
}
