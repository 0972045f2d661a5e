use pie_catch::digits::{parse_digits, SourceError};

#[test]
fn parse_digits_well_formed() {
    let bytes: Vec<u8> = b"31415".to_vec();
    let ds = parse_digits(&bytes).unwrap();
    assert_eq!(ds, vec![3, 1, 4, 1, 5]);
}

#[test]
fn parse_digits_empty() {
    let bytes: Vec<u8> = Vec::new();
    let ds = parse_digits(&bytes).unwrap();
    assert_eq!(ds.len(), 0);
}

#[test]
fn parse_digits_malformed() {
    let bytes: Vec<u8> = b"3a4".to_vec();
    assert_eq!(parse_digits(&bytes), Err(SourceError::Unavailable));
    let bytes2: Vec<u8> = b"12 34".to_vec();
    assert_eq!(parse_digits(&bytes2), Err(SourceError::Unavailable));
}
