use dfx::field_map::FieldMap;
use dfx::fields::converters::datetime::DateTimeFormat;
use dfx::fields::converters::{FieldValue, TryFrom};
use dfx::fields::{ConversionError, EncryptMethod, HeartBtInt, MsgType, ResetSeqNumFlag};

#[test]
fn typed_fields_write_their_values() {
    assert_eq!(EncryptMethod::string_value(0), "0");
    assert_eq!(HeartBtInt::string_value(30), "30");
    assert_eq!(ResetSeqNumFlag::string_value(true), "Y");
    assert_eq!(ResetSeqNumFlag::string_value(false), "N");
    let hb = HeartBtInt::new(30);
    assert_eq!(hb.tag(), 108);
    assert_eq!(hb.value(), "30");
    let logon = MsgType::new(MsgType::LOGON);
    assert_eq!(logon.tag(), 35);
    assert_eq!(logon.value(), "A");
    let mut map = FieldMap::new();
    map.set_field_base(hb.duplicate(), None);
    assert_eq!(map.get_field(108).value(), "30");
}

#[test]
fn converters_read_numbers_and_text() {
    let v: FieldValue = b"1234".to_vec();
    let n: Result<u32, ConversionError> = TryFrom::try_from(&v);
    assert_eq!(n, Ok(1234));
    let n: Result<u8, ConversionError> = TryFrom::try_from(&v);
    assert_eq!(n, Err(ConversionError::IntParseErr));
    let neg: FieldValue = b"-128".to_vec();
    let n: Result<i8, ConversionError> = TryFrom::try_from(&neg);
    assert_eq!(n, Ok(-128));
    let n: Result<u64, ConversionError> = TryFrom::try_from(&neg);
    assert_eq!(n, Err(ConversionError::IntParseErr));
    let plus: FieldValue = b"+7".to_vec();
    let n: Result<i64, ConversionError> = TryFrom::try_from(&plus);
    assert_eq!(n, Ok(7));
    let bad: FieldValue = vec![0xff, 0xfe];
    let s: Result<&str, ConversionError> = TryFrom::try_from(&bad);
    assert_eq!(s, Err(ConversionError::EncodingError));
    let s: Result<String, ConversionError> = TryFrom::try_from(&bad);
    assert_eq!(s, Ok("\u{ff}\u{fe}".to_string()));
    let min: FieldValue = b"-170141183460469231731687303715884105728".to_vec();
    let n: Result<i128, ConversionError> = TryFrom::try_from(&min);
    assert_eq!(n, Ok(i128::MIN));
}

#[test]
fn datetime_formats() {
    assert_eq!(DateTimeFormat::try_from("Milliseconds".to_string()), Ok(DateTimeFormat::Milliseconds));
    assert!(DateTimeFormat::try_from("Minutes".to_string()).is_err());
    assert_eq!(DateTimeFormat::Seconds.as_datetime_format(), "%Y%m%d-%H:%M:%S.%3f");
    assert_eq!(DateTimeFormat::Nanoseconds.as_time_format(), "%H:%M:%S.%f");
}
