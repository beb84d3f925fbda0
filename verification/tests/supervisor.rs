use kube_podlog::shutdown::Shutdown;
use kube_podlog::supervisor::{SpawnRequest, StreamBackend, StreamSupervisor};
use kube_podlog::types::{PodCommand, PodKey};

fn key(name: &str, uid: &str) -> PodKey {
    PodKey { namespace: "ns".to_string(), name: name.to_string(), uid: uid.to_string() }
}

fn start(name: &str, uid: &str, containers: &[&str]) -> PodCommand {
    PodCommand::StartPod {
        pod: key(name, uid),
        containers: containers.iter().map(|c| c.to_string()).collect(),
    }
}

fn stop(name: &str, uid: &str) -> PodCommand {
    PodCommand::StopPod { pod: key(name, uid) }
}

fn backend() -> StreamBackend {
    StreamBackend::Dev { rate_ms: 1, max_lines: Some(3) }
}

fn request_names(reqs: &[SpawnRequest]) -> Vec<(String, String, String)> {
    reqs.iter()
        .map(|r| (r.key.pod.name.clone(), r.key.pod.uid.clone(), r.key.container.clone()))
        .collect()
}

#[test]
fn start_pod_spawns_one_follower_per_container() {
    let shutdown = Shutdown::new();
    let mut sup = StreamSupervisor::new(backend(), shutdown.token());
    let reqs = sup.handle_command(start("web-1", "u1", &["app", "sidecar"]));
    assert_eq!(
        request_names(&reqs),
        vec![
            ("web-1".to_string(), "u1".to_string(), "app".to_string()),
            ("web-1".to_string(), "u1".to_string(), "sidecar".to_string()),
        ]
    );
}

#[test]
fn start_pod_is_idempotent() {
    let shutdown = Shutdown::new();
    let mut sup = StreamSupervisor::new(backend(), shutdown.token());
    let first = sup.handle_command(start("web-1", "u1", &["app"]));
    assert_eq!(first.len(), 1);
    let second = sup.handle_command(start("web-1", "u1", &["app"]));
    assert_eq!(second.len(), 0);
    // A new container of the same pod still spawns.
    let third = sup.handle_command(start("web-1", "u1", &["app", "extra"]));
    assert_eq!(request_names(&third), vec![(
        "web-1".to_string(),
        "u1".to_string(),
        "extra".to_string(),
    )]);
}

#[test]
fn duplicate_container_names_spawn_once() {
    let shutdown = Shutdown::new();
    let mut sup = StreamSupervisor::new(backend(), shutdown.token());
    let reqs = sup.handle_command(start("web-1", "u1", &["app", "app"]));
    assert_eq!(reqs.len(), 1);
}

#[test]
fn stop_pod_cancels_its_followers_and_removes_their_entries() {
    let shutdown = Shutdown::new();
    let mut sup = StreamSupervisor::new(backend(), shutdown.token());
    let reqs_one = sup.handle_command(start("web-1", "u1", &["app"]));
    let reqs_two = sup.handle_command(start("web-2", "u2", &["app"]));

    let none = sup.handle_command(stop("web-1", "u1"));
    assert_eq!(none.len(), 0);
    assert!(reqs_one[0].token.is_cancelled());
    assert!(!reqs_two[0].token.is_cancelled());

    // The entry is gone: the same pod can start again.
    let again = sup.handle_command(start("web-1", "u1", &["app"]));
    assert_eq!(again.len(), 1);
}

#[test]
fn stop_pod_matches_uid_exactly() {
    let shutdown = Shutdown::new();
    let mut sup = StreamSupervisor::new(backend(), shutdown.token());
    let old = sup.handle_command(start("web-1", "uid-a", &["app"]));
    // Replacement: the new uid starts under a distinct stream key.
    let new = sup.handle_command(start("web-1", "uid-b", &["app"]));
    assert_eq!(new.len(), 1);

    sup.handle_command(stop("web-1", "uid-a"));
    assert!(old[0].token.is_cancelled());
    assert!(!new[0].token.is_cancelled());
}

#[test]
fn requests_carry_the_backend() {
    let shutdown = Shutdown::new();
    let mut sup = StreamSupervisor::new(backend(), shutdown.token());
    let reqs = sup.handle_command(start("web-1", "u1", &["app"]));
    assert_eq!(reqs[0].backend, backend());
}

#[test]
fn shutdown_all_cancels_everything() {
    let shutdown = Shutdown::new();
    let mut sup = StreamSupervisor::new(backend(), shutdown.token());
    let reqs = sup.handle_command(start("web-1", "u1", &["app", "sidecar"]));
    sup.shutdown_all();
    assert!(reqs.iter().all(|r| r.token.is_cancelled()));
    // Table drained: everything can start again.
    let again = sup.handle_command(start("web-1", "u1", &["app", "sidecar"]));
    assert_eq!(again.len(), 2);
}

#[test]
fn root_shutdown_token_cancels_followers() {
    let shutdown = Shutdown::new();
    let mut sup = StreamSupervisor::new(backend(), shutdown.token());
    let reqs = sup.handle_command(start("web-1", "u1", &["app"]));
    assert!(!reqs[0].token.is_cancelled());
    shutdown.cancel();
    assert!(reqs[0].token.is_cancelled());
}
