use kube_podlog::podwatch::{PodInfo, PodWatcher, WatchEvent};
use kube_podlog::types::{PodCommand, PodKey};

fn info(ns: &str, name: &str, uid: &str, containers: &[&str]) -> PodInfo {
    PodInfo {
        namespace: ns.to_string(),
        name: name.to_string(),
        uid: uid.to_string(),
        containers: containers.iter().map(|c| c.to_string()).collect(),
    }
}

fn key(ns: &str, name: &str, uid: &str) -> PodKey {
    PodKey { namespace: ns.to_string(), name: name.to_string(), uid: uid.to_string() }
}

fn start(ns: &str, name: &str, uid: &str, containers: &[&str]) -> PodCommand {
    PodCommand::StartPod {
        pod: key(ns, name, uid),
        containers: containers.iter().map(|c| c.to_string()).collect(),
    }
}

fn stop(ns: &str, name: &str, uid: &str) -> PodCommand {
    PodCommand::StopPod { pod: key(ns, name, uid) }
}

#[test]
fn applied_new_pod_starts_it() {
    let mut w = PodWatcher::new(Vec::new());
    let cmds = w.handle_event(WatchEvent::Applied(info("ns", "web-1", "u1", &["app", "sidecar"])));
    assert_eq!(cmds, vec![start("ns", "web-1", "u1", &["app", "sidecar"])]);
}

#[test]
fn pod_replacement_emits_stop_before_start() {
    let mut w = PodWatcher::new(Vec::new());
    let first = w.handle_event(WatchEvent::Applied(info("ns", "web-1", "uid-a", &["app"])));
    assert_eq!(first, vec![start("ns", "web-1", "uid-a", &["app"])]);

    let second = w.handle_event(WatchEvent::Applied(info("ns", "web-1", "uid-b", &["app"])));
    assert_eq!(
        second,
        vec![stop("ns", "web-1", "uid-a"), start("ns", "web-1", "uid-b", &["app"])]
    );
}

#[test]
fn applied_same_uid_emits_nothing() {
    let mut w = PodWatcher::new(Vec::new());
    w.handle_event(WatchEvent::Applied(info("ns", "web-1", "u1", &["app"])));
    let cmds = w.handle_event(WatchEvent::Applied(info("ns", "web-1", "u1", &["app", "extra"])));
    assert_eq!(cmds, Vec::new());
}

#[test]
fn deleted_uses_stored_uid() {
    let mut w = PodWatcher::new(Vec::new());
    w.handle_event(WatchEvent::Applied(info("ns", "web-1", "u1", &["app"])));
    // A tombstone may carry no uid; the stop must use the stored one.
    let cmds = w.handle_event(WatchEvent::Deleted(info("ns", "web-1", "", &[])));
    assert_eq!(cmds, vec![stop("ns", "web-1", "u1")]);
}

#[test]
fn deleted_falls_back_to_event_uid_when_stored_is_empty() {
    let mut w = PodWatcher::new(Vec::new());
    w.handle_event(WatchEvent::Applied(info("ns", "web-1", "", &["app"])));
    let cmds = w.handle_event(WatchEvent::Deleted(info("ns", "web-1", "u9", &[])));
    assert_eq!(cmds, vec![stop("ns", "web-1", "u9")]);
}

#[test]
fn deleted_unknown_pod_emits_nothing() {
    let mut w = PodWatcher::new(Vec::new());
    let cmds = w.handle_event(WatchEvent::Deleted(info("ns", "ghost", "u1", &[])));
    assert_eq!(cmds, Vec::new());
}

#[test]
fn resync_stops_vanished_and_starts_new_without_duplicates() {
    let mut w = PodWatcher::new(Vec::new());
    w.handle_event(WatchEvent::Applied(info("ns", "p1", "u1", &["app"])));
    w.handle_event(WatchEvent::Applied(info("ns", "p2", "u2", &["app"])));

    let cmds = w.handle_event(WatchEvent::Restarted(vec![
        info("ns", "p2", "u2", &["app"]),
        info("ns", "p3", "u3", &["app"]),
    ]));
    assert_eq!(cmds, vec![stop("ns", "p1", "u1"), start("ns", "p3", "u3", &["app"])]);
}

#[test]
fn resync_replaced_uid_stops_old_then_starts_new() {
    let mut w = PodWatcher::new(Vec::new());
    w.handle_event(WatchEvent::Applied(info("ns", "p1", "u1", &["app"])));
    let cmds =
        w.handle_event(WatchEvent::Restarted(vec![info("ns", "p1", "u1b", &["app"])]));
    assert_eq!(cmds, vec![stop("ns", "p1", "u1"), start("ns", "p1", "u1b", &["app"])]);
}

#[test]
fn allow_list_filters_containers_in_order() {
    let mut w = PodWatcher::new(vec!["app".to_string(), "extra".to_string()]);
    let cmds =
        w.handle_event(WatchEvent::Applied(info("ns", "web-1", "u1", &["app", "sidecar"])));
    assert_eq!(cmds, vec![start("ns", "web-1", "u1", &["app"])]);
}

#[test]
fn pod_with_no_matching_container_produces_no_start() {
    let mut w = PodWatcher::new(vec!["app".to_string()]);
    let cmds = w.handle_event(WatchEvent::Applied(info("ns", "web-1", "u1", &["sidecar"])));
    assert_eq!(cmds, Vec::new());
    // It is still tracked: deleting it later emits the stop.
    let cmds = w.handle_event(WatchEvent::Deleted(info("ns", "web-1", "", &[])));
    assert_eq!(cmds, vec![stop("ns", "web-1", "u1")]);
}
