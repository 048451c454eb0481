use loadgen::closeloop::may_run;
use loadgen::openloop::{request_interval_ms, OpenLoop, TickAction};

#[test]
fn interval_values() {
    assert_eq!(request_interval_ms(1), 1000);
    assert_eq!(request_interval_ms(3), 333);
    assert_eq!(request_interval_ms(7), 142);
    assert_eq!(request_interval_ms(1000), 1);
    assert_eq!(request_interval_ms(2000), 0);
}

#[test]
fn interval_equals_float_division() {
    for qps in 1usize..5000 {
        assert_eq!(request_interval_ms(qps), (1000. / qps as f64) as u64, "qps {}", qps);
    }
}

#[test]
fn open_loop_issues_request_num() {
    let mut l = OpenLoop::new(3);
    assert!(!l.is_finished());
    assert_eq!(l.on_tick(), TickAction::Spawn);
    assert_eq!(l.on_tick(), TickAction::Spawn);
    assert!(!l.is_finished());
    assert_eq!(l.on_tick(), TickAction::SpawnLast);
    assert!(l.is_finished());
    assert_eq!(l.issued(), 3);
}

#[test]
fn open_loop_single_request() {
    let mut l = OpenLoop::new(1);
    assert_eq!(l.on_tick(), TickAction::SpawnLast);
    assert!(l.is_finished());
}

#[test]
fn open_loop_zero_requests_never_stops() {
    let mut l = OpenLoop::new(0);
    for k in 1..=50 {
        assert_eq!(l.on_tick(), TickAction::Spawn);
        assert!(!l.is_finished());
        assert_eq!(l.issued(), k);
    }
}

#[test]
fn close_loop_tickets() {
    assert!(may_run(0, 1));
    assert!(!may_run(1, 1));
    assert!(!may_run(0, 0));
    let ran = (0u32..100).filter(|t| may_run(*t, 31)).count();
    assert_eq!(ran, 31);
}

#[test]
fn close_loop_total_read_as_u32() {
    if usize::BITS == 64 {
        let total = (1usize << 32) + 2;
        assert!(may_run(1, total));
        assert!(!may_run(2, total));
    }
}
