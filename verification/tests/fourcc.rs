use riffu::FourCC;
use riffu::RiffError;

#[test]
fn create_succeeds_on_four_bytes() {
    let f = FourCC::new(b"1234").unwrap();
    assert_eq!(f.as_bytes(), b"1234");
}

#[test]
fn create_view_equals_input_exactly() {
    let f = FourCC::new(&[0u8, 255u8, 7u8, 128u8]).unwrap();
    assert_eq!(f.as_bytes(), &[0u8, 255u8, 7u8, 128u8]);
    assert_eq!(f.into_bytes(), [0u8, 255u8, 7u8, 128u8]);
}

#[test]
fn create_fails_on_short_input() {
    assert!(matches!(FourCC::new(b"123"), Err(RiffError::ConversionError)));
    assert!(matches!(FourCC::new(b""), Err(RiffError::ConversionError)));
}

#[test]
fn create_fails_on_long_input() {
    assert!(matches!(FourCC::new(b"12345"), Err(RiffError::ConversionError)));
}

#[test]
fn from_text_same_length_rule() {
    let f = FourCC::from_text("WAVE").unwrap();
    assert_eq!(f.as_bytes(), b"WAVE");
    assert!(matches!(FourCC::from_text("WAV"), Err(RiffError::ConversionError)));
    assert!(matches!(FourCC::from_text("WAVES"), Err(RiffError::ConversionError)));
}
