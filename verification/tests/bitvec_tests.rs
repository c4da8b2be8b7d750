use vpi_export::literal::parse_vector_literal;
use vpi_export::{BitVector, VpiError};

#[test]
fn from_raw_keeps_low_bits() {
    let v = BitVector::<30>::from_raw(&[1]);
    assert_eq!(v.words(), vec![1]);
    assert_eq!(v.debug_string(), format!("30'b{}1", "0".repeat(29)));
}

#[test]
fn from_raw_keeps_the_words_it_needs() {
    let v = BitVector::<4>::from_raw(&[0xff, 7]);
    assert_eq!(v.words(), vec![0xff]);
    assert_eq!(v.debug_string(), "4'b1111");
}

#[test]
fn from_raw_fills_missing_words_with_zero() {
    let v = BitVector::<40>::from_raw(&[]);
    assert_eq!(v.words(), vec![0, 0]);
    let w = BitVector::<64>::from_raw(&[5]);
    assert_eq!(w.words(), vec![5, 0]);
}

#[test]
fn concat_thirty_and_two_bits() {
    let a = BitVector::<30>::from_raw(&[0b001]);
    let b = BitVector::<2>::from_raw(&[0b10]);
    let c: BitVector<32> = a.concat(b);
    assert_eq!(c.words(), vec![0b110]);
    assert_eq!(c.debug_string(), format!("32'b{}110", "0".repeat(29)));
}

#[test]
fn concat_single_bits() {
    let a = BitVector::<1>::from_raw(&[1]);
    let b = BitVector::<1>::from_raw(&[0]);
    let c: BitVector<2> = a.concat(b);
    assert_eq!(c.words(), vec![2]);
    assert_eq!(c.debug_string(), "2'b10");
}

#[test]
fn concat_across_words() {
    let a = BitVector::<40>::from_raw(&[0xffff_ffff, 0xff]);
    let b = BitVector::<30>::from_raw(&[0x3fff_ffff]);
    let c: BitVector<70> = a.concat(b);
    assert_eq!(c.words(), vec![0xffff_ffff, 0xffff_ffff, 0x3f]);
}

#[test]
fn concat_uneven_widths() {
    let a = BitVector::<3>::from_raw(&[0b101]);
    let b = BitVector::<33>::from_raw(&[0x8000_0001, 1]);
    let c: BitVector<36> = a.concat(b);
    assert_eq!(c.words(), vec![0x8000_0001, 11]);
}

#[test]
fn default_is_all_zero() {
    let v = BitVector::<33>::default();
    assert_eq!(v.words(), vec![0, 0]);
    assert_eq!(v.debug_string(), format!("33'b{}", "0".repeat(33)));
    let e = BitVector::<0>::default();
    assert_eq!(e.words(), Vec::<u32>::new());
    assert_eq!(e.debug_string(), "0'b");
}

#[test]
fn from_u32_holds_the_bits() {
    let v: BitVector<32> = BitVector::from(0x8000_0003u32);
    assert_eq!(v.words(), vec![0x8000_0003]);
    assert_eq!(v.debug_string(), format!("32'b1{}11", "0".repeat(29)));
}

#[test]
fn from_vpi_vector_checks_the_width() {
    let v = BitVector::<8>::from_vpi_vector(8, &[0x1a5]).unwrap();
    assert_eq!(v.words(), vec![0x1a5]);
    assert_eq!(v.debug_string(), "8'b10100101");
    let e = BitVector::<8>::from_vpi_vector(9, &[0]);
    assert!(matches!(
        e,
        Err(VpiError::BitVectorLengthMissMatch { expected: 8, actual: 9 })
    ));
}

#[test]
fn debug_string_parses_back() {
    let v = BitVector::<36>::from_raw(&[0x8000_0001, 11]);
    let s = v.debug_string();
    assert_eq!(s, format!("36'b10111{}1", "0".repeat(30)));
    let lit = parse_vector_literal(&s).unwrap();
    assert_eq!(lit.width, 36);
    assert_eq!(BitVector::<36>::from_raw(&lit.words).words(), v.words());
}

#[test]
fn from_raw_of_words_gives_the_same_vector() {
    let v = BitVector::<45>::from_raw(&[0xdead_beef, 0x1fff_ffff]);
    assert_eq!(v.words(), vec![0xdead_beef, 0x1fff_ffff]);
    let w = BitVector::<45>::from_raw(&v.words());
    assert_eq!(w.words(), v.words());
    assert_eq!(w.debug_string(), v.debug_string());
}

#[test]
fn clone_keeps_the_bits() {
    let v = BitVector::<30>::from_raw(&[0x2aaa_aaaa]);
    let c = v.clone();
    assert_eq!(c.words(), v.words());
    assert_eq!(c.debug_string(), v.debug_string());
}

#[test]
fn concat_reads_only_the_bits_of_the_vectors() {
    let a = BitVector::<3>::from_raw(&[0xff]);
    let b = BitVector::<2>::from_raw(&[0xfe]);
    let c: BitVector<5> = a.concat(b);
    assert_eq!(c.words(), vec![0b11110]);
    assert_eq!(c.debug_string(), "5'b11110");
}
