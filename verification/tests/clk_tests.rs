use vpi_export::{Clk, ClkSchedule, VpiError};

#[test]
fn start_splits_even_period() {
    let s = Clk::start(10, 100).unwrap();
    assert_eq!(s, ClkSchedule { delay: 100, low: 5, high: 5 });
}

#[test]
fn start_splits_odd_period() {
    let s = Clk::start(11, 0).unwrap();
    assert_eq!(s, ClkSchedule { delay: 0, low: 5, high: 6 });
    assert_eq!(s.low + s.high, 11);
}

#[test]
fn start_refuses_small_period() {
    assert!(matches!(Clk::start(1, 0), Err(VpiError::PeriodTooSmall)));
    assert!(matches!(Clk::start(0, 7), Err(VpiError::PeriodTooSmall)));
    assert!(Clk::start(2, 0).is_ok());
}

#[test]
fn edges_toggle_the_clock() {
    let s = Clk::start(7, 3).unwrap();
    let mut c = Clk::new(false);
    assert_eq!(s.to_high(&mut c), 4);
    assert!(c.is_high());
    assert_eq!(s.to_low(&mut c), 3);
    assert!(!c.is_high());
}

#[test]
fn clock_reads_one_bit_nets() {
    assert!(Clk::from_vpi_integer(1, 5).unwrap().is_high());
    assert!(!Clk::from_vpi_integer(1, 0).unwrap().is_high());
    assert!(matches!(
        Clk::from_vpi_integer(2, 1),
        Err(VpiError::BitVectorLengthMissMatch { expected: 1, actual: 2 })
    ));
}

#[test]
fn clock_integer_round_trip() {
    for level in [false, true] {
        let c = Clk::new(level);
        let i = c.to_vpi_integer();
        assert_eq!(i, if level { 1 } else { 0 });
        assert_eq!(Clk::from_vpi_integer(1, i).unwrap(), c);
    }
}

#[test]
fn clock_timeline() {
    let s = Clk::start(10, 100).unwrap();
    let mut c = Clk::new(false);
    let mut t = s.delay;
    let mut edges = Vec::new();
    for k in 0..6 {
        let next = if k % 2 == 0 { s.to_high(&mut c) } else { s.to_low(&mut c) };
        edges.push((t, c.is_high()));
        t += next;
    }
    assert_eq!(
        edges,
        vec![(100, true), (105, false), (110, true), (115, false), (120, true), (125, false)]
    );
}
