use xiangqi_rim::circuit::{Breaker, State};

#[test]
fn closed() {
    let mut breaker = Breaker::new();
    assert_eq!(breaker.state(), State::Closed);
    assert!(breaker.allow(0));
}

#[test]
fn trip() {
    let mut breaker = Breaker::new();
    for _ in 0..5 {
        breaker.record(false, 10);
    }
    assert_eq!(breaker.state(), State::Open);
    assert!(!breaker.allow(10));
}

#[test]
fn recover() {
    let mut breaker = Breaker::new();
    for _ in 0..5 {
        breaker.record(false, 100);
    }
    assert_eq!(breaker.state(), State::Open);
    assert!(breaker.allow(10100));
    assert_eq!(breaker.state(), State::Half);
    for _ in 0..100 {
        breaker.record(true, 10100);
    }
    assert_eq!(breaker.state(), State::Closed);
}
