//! Tests of the fractional index algebra.

use eventbook::fractional_index::{
    after, before, between, generate_sequence, initial, is_valid_order, validate_index,
};

#[test]
fn test_initial() {
    let index = initial();
    assert_eq!(index, "a0");
    assert!(validate_index(&index).is_ok());
}

#[test]
fn test_between_simple() {
    let result = between("a0", "b0").unwrap();
    assert!(result.as_str() > "a0" && result.as_str() < "b0");
    assert!(validate_index(&result).is_ok());
}

#[test]
fn test_between_adjacent() {
    let result = between("a0", "a2").unwrap();
    assert!(result.as_str() > "a0" && result.as_str() < "a2");
    assert_eq!(result, "a1");
}

#[test]
fn test_between_very_close() {
    let result = between("a0", "a1").unwrap();
    assert!(result.as_str() > "a0" && result.as_str() < "a1");
    // the key is extended by a middle-of-alphabet digit
    assert!(result.starts_with("a0"));
}

#[test]
fn test_before() {
    let result = before("b0").unwrap();
    assert!(result.as_str() < "b0");
    assert!(validate_index(&result).is_ok());
}

#[test]
fn test_after() {
    let result = after("a0").unwrap();
    assert!(result.as_str() > "a0");
    assert!(validate_index(&result).is_ok());
}

#[test]
fn test_ordering() {
    let indices = vec![
        "a0".to_string(),
        "a1".to_string(),
        "b0".to_string(),
        "c0".to_string(),
    ];
    assert!(is_valid_order(&indices));
}

#[test]
fn test_invalid_ordering() {
    let indices = vec!["b0".to_string(), "a0".to_string()];
    assert!(!is_valid_order(&indices));
}

#[test]
fn test_generate_sequence() {
    let indices = generate_sequence(5);
    assert_eq!(indices.len(), 5);
    assert!(is_valid_order(&indices));
}

#[test]
fn test_validation() {
    assert!(validate_index("a0").is_ok());
    assert!(validate_index("Z9").is_ok());
    assert!(validate_index("").is_err());
    assert!(validate_index("@").is_err());
}

#[test]
fn test_complex_between() {
    // several levels of between operations stay ordered
    let mut indices = vec!["a0".to_string(), "z9".to_string()];

    for _ in 0..5 {
        let mid = between(&indices[0], &indices[1]).unwrap();
        indices.insert(1, mid);
    }

    assert!(is_valid_order(&indices));
    assert_eq!(indices.len(), 7);
}

#[test]
fn test_between_adjacent_key_shape() {
    // the key between two adjacent keys extends the lower one by the
    // middle-of-alphabet digit
    let m = between("a0", "a1").unwrap();
    assert!(m.as_str() > "a0" && m.as_str() < "a1");
    assert!(m.starts_with("a0"));
    assert_eq!(m.len(), 3);
    assert_eq!(m, "a0U");
    assert!(validate_index(&m).is_ok());
}

#[test]
fn test_after_extends_at_alphabet_end() {
    let m = after("zz").unwrap();
    assert!(m.as_str() > "zz");
    assert_eq!(m, "zz1");
}

#[test]
fn test_before_low_key() {
    let m = before("01").unwrap();
    assert!(m.as_str() < "01");
    assert!(validate_index(&m).is_ok());
}

#[test]
fn test_between_rejects_misordered_bounds() {
    assert!(between("b0", "a0").is_err());
    assert!(between("a0", "a0").is_err());
}

#[test]
fn test_between_with_tailed_lower_bound() {
    let m = between("a0z", "a1").unwrap();
    assert!(m.as_str() > "a0z" && m.as_str() < "a1");
    assert!(validate_index(&m).is_ok());

    let m = between("0V", "1").unwrap();
    assert!(m.as_str() > "0V" && m.as_str() < "1");
    assert!(validate_index(&m).is_ok());
}

#[test]
fn test_between_zero_extensions() {
    // a single-zero extension leaves no room at all
    assert!(between("a", "a0").is_err());
    // a longer zero extension still has room
    let m = between("a", "a00").unwrap();
    assert!(m.as_str() > "a" && m.as_str() < "a00");
    assert_eq!(m, "a0");
}

#[test]
fn test_before_drops_trailing_zero() {
    assert_eq!(before("00").unwrap(), "0");
    assert_eq!(before("10").unwrap(), "1");
    assert!(before("00").unwrap().as_str() < "00");
}

#[test]
fn test_before_minimal_key_has_no_predecessor() {
    assert!(before("0").is_err());
}
