use scop::numeral::{check_coord_numeral, parse_index_prefix};

fn bytes(s: &str) -> Vec<u8> {
    s.as_bytes().to_vec()
}

#[test]
fn plain_and_signed_decimals_are_coordinates() {
    for good in ["0", "1", "42", "-7", "+3", "1.5", "-0.25", ".5", "3.", "-.5"] {
        assert!(check_coord_numeral(&bytes(good)), "{:?} should be accepted", good);
    }
}

#[test]
fn exponents_are_coordinates() {
    for good in ["1e3", "1E3", "-2.5e-2", "+.5e+1", "9e0"] {
        assert!(check_coord_numeral(&bytes(good)), "{:?} should be accepted", good);
    }
}

#[test]
fn garbled_fields_are_not_coordinates() {
    for bad in ["", "+", "-", ".", "+-1", "1.2.3", "abc", "1e", "e3", "1e2.5", "1ee2", "2-3", "1 2"] {
        assert!(!check_coord_numeral(&bytes(bad)), "{:?} should be rejected", bad);
    }
}

#[test]
fn index_prefixes_evaluate_exactly() {
    let t = bytes("123");
    assert_eq!(parse_index_prefix(&t, 3), Some(123));
    assert_eq!(parse_index_prefix(&t, 2), Some(12));
    assert_eq!(parse_index_prefix(&t, 0), None);

    let z = bytes("007");
    assert_eq!(parse_index_prefix(&z, 3), Some(7));
}

#[test]
fn index_prefixes_reject_non_digits_and_overflow() {
    let t = bytes("12a");
    assert_eq!(parse_index_prefix(&t, 3), None);
    let neg = bytes("-1");
    assert_eq!(parse_index_prefix(&neg, 2), None);

    let max = bytes("4294967295");
    assert_eq!(parse_index_prefix(&max, 10), Some(u32::MAX));
    let over = bytes("4294967296");
    assert_eq!(parse_index_prefix(&over, 10), None);
    let way_over = bytes("99999999999999999999");
    assert_eq!(parse_index_prefix(&way_over, 20), None);
}
