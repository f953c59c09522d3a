use drbot::meter::{Counter, Gauge, MeterError, RateMeter};

#[test]
fn test_counter() {
    let mut counter = Counter::new();
    assert_eq!(counter.get(), 0);

    counter.inc();
    assert_eq!(counter.get(), 1);

    counter.add(5);
    assert_eq!(counter.get(), 6);

    counter.reset();
    assert_eq!(counter.get(), 0);
}

#[test]
fn test_gauge() {
    let mut gauge = Gauge::new();
    assert_eq!(gauge.get(), 0);

    gauge.set(10);
    assert_eq!(gauge.get(), 10);

    gauge.inc();
    assert_eq!(gauge.get(), 11);

    gauge.dec();
    assert_eq!(gauge.get(), 10);

    gauge.sub(5);
    assert_eq!(gauge.get(), 5);
}

#[test]
fn test_rate_meter() {
    let mut meter = RateMeter::new();
    meter.mark();
    meter.mark();
    meter.mark();
    assert_eq!(meter.count(), 3);
    meter.mark_n(7);
    assert_eq!(meter.count(), 10);
}

#[test]
fn meter_counter_wraps_at_the_top() {
    let mut c = Counter::default();
    c.add(u64::MAX);
    c.inc();
    assert_eq!(c.get(), 0);
}

#[test]
fn meter_gauge_add_then_sub_restores() {
    let mut g = Gauge::with_value(i64::MAX);
    g.add(5);
    assert_eq!(g.get(), i64::MIN + 4);
    g.sub(5);
    assert_eq!(g.get(), i64::MAX);
    let d = Gauge::default();
    assert_eq!(d.get(), 0);
    assert_eq!(MeterError::NotFound("x".to_string()), MeterError::NotFound("x".to_string()));
}
