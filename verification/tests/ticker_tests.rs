use sawtooth_raft::ticker::{add_time, Ticker};

#[test]
fn ticker_signals_once_per_interval() {
    let mut t = Ticker::new(100, 1000);
    assert!(!t.poll(1000));
    assert!(!t.poll(1099));
    assert_eq!(t.remaining(1099), 1);
    assert!(t.poll(1100));
    assert!(!t.poll(1100));
    assert!(!t.poll(1199));
    assert!(t.poll(1250));
    assert_eq!(t.remaining(1250), 100);
    assert!(!t.poll(1349));
    assert!(t.poll(1350));
}

#[test]
fn cancelled_ticker_is_silent() {
    let mut t = Ticker::new(10, 0);
    assert!(t.poll(10));
    t.cancel();
    assert!(t.is_cancelled());
    assert!(!t.poll(20));
    assert!(!t.poll(u64::MAX));
    t.cancel();
    assert!(t.is_cancelled());
    assert!(!t.poll(1000));
}

#[test]
fn ticker_times_saturate() {
    assert_eq!(add_time(5, 7), 12);
    assert_eq!(add_time(u64::MAX - 1, 1), u64::MAX);
    assert_eq!(add_time(u64::MAX - 1, 2), u64::MAX);
    assert_eq!(add_time(u64::MAX, u64::MAX), u64::MAX);
    let mut t = Ticker::new(u64::MAX, 1);
    assert!(!t.poll(u64::MAX - 1));
    assert!(t.poll(u64::MAX));
}

#[test]
fn zero_interval_signals_at_every_poll() {
    let mut t = Ticker::new(0, 50);
    assert!(t.poll(50));
    assert!(t.poll(50));
    assert_eq!(t.remaining(50), 0);
}
