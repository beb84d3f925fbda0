use kube_podlog::stream::{classify_open_status, trim_newline, Backoff, ErrorClass};

#[test]
fn trim_newline_strips_trailing_crlf() {
    assert_eq!(trim_newline(b"hello\r\n"), b"hello");
    assert_eq!(trim_newline(b"hello\n"), b"hello");
    assert_eq!(trim_newline(b"hello"), b"hello");
    assert_eq!(trim_newline(b"hello\n\r\n"), b"hello");
    assert_eq!(trim_newline(b"\n\r\n"), b"");
    assert_eq!(trim_newline(b""), b"");
    // Inner newlines stay.
    assert_eq!(trim_newline(b"a\nb\n"), b"a\nb");
}

#[test]
fn classify_open_status_follows_the_table() {
    assert_eq!(classify_open_status(Some(401)), ErrorClass::Auth);
    assert_eq!(classify_open_status(Some(403)), ErrorClass::Auth);
    assert_eq!(classify_open_status(Some(404)), ErrorClass::NotFound);
    assert_eq!(classify_open_status(Some(429)), ErrorClass::Retry);
    assert_eq!(classify_open_status(Some(500)), ErrorClass::Retry);
    assert_eq!(classify_open_status(Some(503)), ErrorClass::Retry);
    assert_eq!(classify_open_status(None), ErrorClass::Retry);
}

#[test]
fn backoff_doubles_from_min_and_is_jittered() {
    let mut b = Backoff::new(200, 5000, 42);
    let expectations: [(u64, u64); 6] =
        [(200, 450), (400, 650), (800, 1050), (1600, 1850), (3200, 3450), (5000, 5250)];
    for (lo, hi) in expectations {
        let d = b.next_delay_ms();
        assert!(d >= lo && d < hi, "delay {d} outside [{lo}, {hi})");
    }
    // Capped from here on.
    for _ in 0..5 {
        let d = b.next_delay_ms();
        assert!(d >= 5000 && d < 5250, "capped delay {d} outside [5000, 5250)");
    }
}

#[test]
fn backoff_resets_to_min_after_success() {
    let mut b = Backoff::new(200, 5000, 7);
    for _ in 0..4 {
        b.next_delay_ms();
    }
    b.reset();
    let d = b.next_delay_ms();
    assert!(d >= 200 && d < 450, "delay after reset {d} outside [200, 450)");
}

#[test]
fn backoff_handles_min_equal_max() {
    let mut b = Backoff::new(1000, 1000, 1);
    for _ in 0..3 {
        let d = b.next_delay_ms();
        assert!(d >= 1000 && d < 1250);
    }
}
