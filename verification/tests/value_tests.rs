use vpi_export::value::{str_from_vpi_bytes, VpiInteger};
use vpi_export::{VpiError, VpiTime};
use vpi_export::simulator::{module_lookup_result, net_lookup_result, Context};

#[test]
fn integers_from_the_simulator() {
    assert_eq!(i8::from_vpi_integer(300), 44);
    assert_eq!(i8::from_vpi_integer(-1), -1);
    assert_eq!(i16::from_vpi_integer(0x12345), 0x2345);
    assert_eq!(i32::from_vpi_integer(-7), -7);
    assert_eq!(i64::from_vpi_integer(-7), -7);
    assert_eq!(u8::from_vpi_integer(-1), 255);
    assert_eq!(u16::from_vpi_integer(0x10001), 1);
    assert_eq!(u32::from_vpi_integer(-1), u32::MAX);
    assert_eq!(u64::from_vpi_integer(-1), u64::MAX);
}

#[test]
fn integers_to_the_simulator() {
    assert_eq!((-3i8).to_vpi_integer(), -3);
    assert_eq!(200u8.to_vpi_integer(), 200);
    assert_eq!(u32::MAX.to_vpi_integer(), -1);
    assert_eq!(0x1_0000_0002i64.to_vpi_integer(), 2);
    assert_eq!(u64::MAX.to_vpi_integer(), -1);
}

#[test]
fn integer_round_trip() {
    for x in [i8::MIN, -1, 0, 1, i8::MAX] {
        assert_eq!(i8::from_vpi_integer(x.to_vpi_integer()), x);
    }
    for x in [0u32, 1, 0x8000_0000, u32::MAX] {
        assert_eq!(u32::from_vpi_integer(x.to_vpi_integer()), x);
    }
    for x in [i32::MIN as i64, -1, 0, i32::MAX as i64] {
        assert_eq!(i64::from_vpi_integer(x.to_vpi_integer()), x);
    }
}

#[test]
fn strings_from_the_simulator() {
    assert_eq!(str_from_vpi_bytes(b"hello").unwrap(), "hello");
    assert_eq!(str_from_vpi_bytes(b"").unwrap(), "");
    assert_eq!(str_from_vpi_bytes("h\u{e9}".as_bytes()).unwrap(), "h\u{e9}");
    assert!(matches!(str_from_vpi_bytes(&[0x68, 0xff]), Err(VpiError::Utf8Error(_))));
}

#[test]
fn time_halves() {
    let t = VpiTime::from_ticks(0x1_0000_0005);
    assert_eq!(t, VpiTime { high: 1, low: 5 });
    assert_eq!(t.ticks(), 0x1_0000_0005);
    let m = VpiTime::from_ticks(u64::MAX);
    assert_eq!(m, VpiTime { high: u32::MAX, low: u32::MAX });
    assert_eq!(VpiTime { high: 3, low: 9 }.ticks(), (3u64 << 32) | 9);
}

#[test]
fn context_time() {
    let c = Context;
    assert_eq!(c.get_time(VpiTime { high: 1, low: 2 }), (1u64 << 32) + 2);
    assert_eq!(c.get_time(VpiTime { high: 0, low: 100 }), 100);
}

#[test]
fn lookups() {
    assert_eq!(module_lookup_result(b"top", Some(3u8)).unwrap(), 3);
    match module_lookup_result::<u8>(b"top", None) {
        Err(VpiError::NoModule(n)) => assert_eq!(n, b"top".to_vec()),
        _ => panic!("expected NoModule"),
    }
}

#[test]
fn lookup_keeps_the_bytes_of_the_name() {
    match module_lookup_result::<u8>(&[0xff, 0x41], None) {
        Err(VpiError::NoModule(n)) => assert_eq!(n, vec![0xff, 0x41]),
        _ => panic!("expected NoModule"),
    }
}

#[test]
fn missing_net_reports_the_fixed_text() {
    assert_eq!(net_lookup_result(Some(5u8)).unwrap(), 5);
    match net_lookup_result::<u8>(None) {
        Err(VpiError::NoModule(n)) => assert_eq!(n, b"TODO change error type".to_vec()),
        _ => panic!("expected NoModule"),
    }
}
