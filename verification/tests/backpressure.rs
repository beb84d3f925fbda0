//! Backpressure: the bounded event channel, fed by a fast producer and
//! drained by a deliberately slow consumer, must block the producer rather
//! than grow, and must lose nothing.

use std::time::{Duration, Instant};

use kube_podlog::clock::ingest_event;
use kube_podlog::dev::dev_line_message;
use kube_podlog::types::{LogEvent, PodKey};

#[test]
fn slow_merger_backpressures_a_fast_follower_without_loss() {
    let runtime = tokio::runtime::Builder::new_multi_thread()
        .enable_all()
        .build()
        .unwrap();
    runtime.block_on(async {
        let (tx, mut rx) = tokio::sync::mpsc::channel::<LogEvent>(1);
        let pod = PodKey {
            namespace: "ns".to_string(),
            name: "web-1".to_string(),
            uid: "u1".to_string(),
        };
        let container = "app".to_string();

        let producer = tokio::spawn(async move {
            for n in 1..=10u64 {
                let ev = ingest_event(&pod, &container, dev_line_message(n));
                if tx.send(ev).await.is_err() {
                    panic!("channel closed early");
                }
            }
        });

        let started = Instant::now();
        let mut got = Vec::new();
        while let Some(ev) = rx.recv().await {
            tokio::time::sleep(Duration::from_millis(100)).await;
            got.push(ev.message);
        }
        producer.await.unwrap();

        assert_eq!(
            got,
            (1..=10u64).map(|n| format!("log line {n}")).collect::<Vec<_>>(),
            "lines lost or reordered under backpressure"
        );
        assert!(
            started.elapsed() >= Duration::from_millis(900),
            "consumer pacing should bound the producer"
        );
    });
}
