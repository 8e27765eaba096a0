use ec_acpi::guid::{Guid, Variable};
use ec_acpi::text::{cstr_bytes_to_string, holds_zero, TextError};
use ec_acpi::value::{are_nul_free, AcpiArgumentType};
use ec_acpi::{AcpiParseError, AcpiValue};

fn text(s: &str) -> AcpiValue {
    AcpiValue::String(s.to_string())
}

fn package(values: Vec<AcpiValue>) -> AcpiValue {
    AcpiValue::Package(Box::new(values))
}

fn shown(v: &AcpiValue) -> String {
    format!("{:?}", v)
}

fn decoded(data: &[u8]) -> (String, Vec<u8>) {
    let (value, rest) = AcpiValue::try_deserialize(data, false).unwrap().unwrap();
    (shown(&value), rest.to_vec())
}

fn refused(data: &[u8]) -> AcpiParseError {
    AcpiValue::try_deserialize(data, false).unwrap().unwrap_err()
}

#[test]
fn integer_on_the_wire() {
    let bytes = AcpiValue::Integer(0x0102_0304).serialize();
    assert_eq!(bytes, vec![0, 0, 4, 0, 4, 3, 2, 1]);
    assert_eq!(decoded(&bytes), ("Integer(16909060)".to_string(), vec![]));
    assert_eq!(AcpiValue::Integer(u32::MAX).serialize(), vec![0, 0, 4, 0, 255, 255, 255, 255]);
}

#[test]
fn text_on_the_wire() {
    let bytes = text("abc").serialize();
    assert_eq!(bytes, vec![1, 0, 4, 0, b'a', b'b', b'c', 0]);
    assert_eq!(decoded(&bytes), ("String(\"abc\")".to_string(), vec![]));
    assert_eq!(text("").serialize(), vec![1, 0, 1, 0, 0]);
    assert_eq!(text("é").serialize(), vec![1, 0, 3, 0, 0xc3, 0xa9, 0]);
}

#[test]
fn buffer_on_the_wire() {
    let bytes = AcpiValue::Buffer(vec![9, 0, 8]).serialize();
    assert_eq!(bytes, vec![2, 0, 3, 0, 9, 0, 8]);
    assert_eq!(decoded(&bytes), ("Buffer([9, 0, 8])".to_string(), vec![]));
    assert_eq!(AcpiValue::Buffer(vec![]).serialize(), vec![2, 0, 0, 0]);
}

#[test]
fn package_on_the_wire() {
    let bytes = package(vec![AcpiValue::Integer(1), text("a")]).serialize();
    assert_eq!(bytes, vec![3, 0, 14, 0, 0, 0, 4, 0, 1, 0, 0, 0, 1, 0, 2, 0, b'a', 0]);
    assert_eq!(decoded(&bytes), ("Package([Integer(1), String(\"a\")])".to_string(), vec![]));
    assert_eq!(package(vec![]).serialize(), vec![3, 0, 0, 0]);
    assert_eq!(decoded(&[3, 0, 0, 0]), ("Package([])".to_string(), vec![]));
}

#[test]
fn value_reads_back_before_other_bytes() {
    let mut bytes = AcpiValue::Buffer(vec![1, 2]).serialize();
    bytes.extend([7, 7, 7]);
    assert_eq!(decoded(&bytes), ("Buffer([1, 2])".to_string(), vec![7, 7, 7]));
}

#[test]
fn nested_package_reads_back_in_last_place() {
    let v = package(vec![AcpiValue::Integer(1), package(vec![AcpiValue::Integer(2)])]);
    assert_eq!(decoded(&v.serialize()), (shown(&v), vec![]));
}

#[test]
fn package_takes_what_follows_it() {
    let v = package(vec![package(vec![AcpiValue::Integer(1)]), AcpiValue::Integer(2)]);
    let (value, rest) = decoded(&v.serialize());
    assert_eq!(value, "Package([Package([Integer(1), Integer(2)])])");
    assert_eq!(rest, Vec::<u8>::new());
}

#[test]
fn length_is_announced_in_sixteen_bits() {
    let bytes = AcpiValue::Buffer(vec![5; 0x1_0003]).serialize();
    assert_eq!(bytes.len(), 4 + 0x1_0003);
    assert_eq!(&bytes[..4], &[2, 0, 3, 0]);
    let (value, rest) = decoded(&bytes);
    assert_eq!(value, "Buffer([5, 5, 5])");
    assert_eq!(rest.len(), 0x1_0000);
    let longest = "a".repeat(0xfffe);
    assert_eq!(decoded(&text(&longest).serialize()), (shown(&text(&longest)), vec![]));
    assert_eq!(refused(&text(&"a".repeat(0xffff)).serialize()), AcpiParseError::InvalidFormat);
}

#[test]
fn value_at_odd_address_is_refused() {
    let bytes = AcpiValue::Integer(1).serialize();
    let first = AcpiValue::try_deserialize(&bytes, true).unwrap();
    assert_eq!(first.unwrap_err(), AcpiParseError::InvalidFormat);
    let v = package(vec![AcpiValue::Buffer(vec![1]), AcpiValue::Integer(1)]);
    assert_eq!(refused(&v.serialize()), AcpiParseError::InvalidFormat);
    let v = package(vec![AcpiValue::Integer(1), AcpiValue::Buffer(vec![1])]);
    assert_eq!(decoded(&v.serialize()), (shown(&v), vec![]));
}

#[test]
fn refusals() {
    assert_eq!(refused(&[0, 0, 4, 0, 1, 2, 3]), AcpiParseError::InsufficientLength);
    assert_eq!(refused(&[9, 0, 1, 0]), AcpiParseError::InsufficientLength);
    assert_eq!(refused(&[9, 0, 0, 0]), AcpiParseError::InvalidFormat);
    assert_eq!(refused(&[0, 1, 0, 0]), AcpiParseError::InvalidFormat);
    assert_eq!(refused(&[0, 0, 2, 0, 1, 2]), AcpiParseError::InvalidFormat);
    assert_eq!(refused(&[1, 0, 2, 0, b'a', b'b']), AcpiParseError::InvalidFormat);
    assert_eq!(refused(&[1, 0, 0, 0]), AcpiParseError::InvalidFormat);
    assert_eq!(refused(&[1, 0, 2, 0, 0xff, 0]), AcpiParseError::InvalidFormat);
}

#[test]
fn text_ends_at_its_first_zero() {
    assert_eq!(
        decoded(&[1, 0, 5, 0, b'a', 0, b'b', 0xff, 0, 6]),
        ("String(\"a\")".to_string(), vec![6])
    );
}

#[test]
fn cut_header_gives_no_result() {
    assert!(AcpiValue::try_deserialize(&[], false).is_none());
    assert!(AcpiValue::try_deserialize(&[0, 0, 4], false).is_none());
    assert!(AcpiValue::try_deserialize(&[0, 0, 4], true).is_none());
    assert!(AcpiValue::try_deserialize(&[3, 0, 0, 0, 0, 0], false).is_none());
}

#[test]
fn first_value_of_whole_data() {
    let (value, rest) = AcpiValue::deserialize(&[0, 0, 4, 0, 2, 0, 0, 0, 1], false).unwrap();
    assert_eq!(shown(&value), "Integer(2)");
    assert_eq!(rest, &[1]);
}

#[test]
fn terminated_text() {
    assert_eq!(cstr_bytes_to_string(b"hi\0there"), Ok("hi".to_string()));
    assert_eq!(cstr_bytes_to_string(b"\0"), Ok(String::new()));
    assert_eq!(cstr_bytes_to_string("zä\0".as_bytes()), Ok("zä".to_string()));
    assert_eq!(cstr_bytes_to_string(b"hi"), Err(TextError::InvalidByteSlice));
    assert_eq!(cstr_bytes_to_string(b""), Err(TextError::InvalidByteSlice));
    assert_eq!(cstr_bytes_to_string(&[0xc3, 0]), Err(TextError::InvalidCharacters));
    assert_eq!(cstr_bytes_to_string(&[0xff]), Err(TextError::InvalidByteSlice));
}

#[test]
fn zero_bytes_come_from_zero_characters() {
    for s in ["", "a", "\u{80}", "\u{7ff}", "\u{800}", "\u{ffff}", "\u{10000}", "\u{10ffff}"] {
        let bytes = text(s).serialize();
        assert_eq!(bytes[4..].iter().position(|b| *b == 0), Some(s.len()));
        assert_eq!(decoded(&bytes), (shown(&text(s)), vec![]));
    }
}

#[test]
fn argument_types_have_codes() {
    assert_eq!(AcpiArgumentType::Integer.code(), 0);
    assert_eq!(AcpiArgumentType::String.code(), 1);
    assert_eq!(AcpiArgumentType::Buffer.code(), 2);
    assert_eq!(AcpiArgumentType::Package.code(), 3);
    for code in 0u16..4 {
        assert_eq!(AcpiArgumentType::from_code(code).unwrap().code(), code);
    }
    assert_eq!(AcpiArgumentType::from_code(4), Err(AcpiParseError::InvalidFormat));
    assert_eq!(AcpiArgumentType::from_code(0xffff), Err(AcpiParseError::InvalidFormat));
}

#[test]
fn guid_bytes() {
    let guid = Guid { data1: 0xa1a2_a3a4, data2: 0xb1b2, data3: 0xc1c2, data4: 0xd1d2_d3d4_d5d6_d7d8 };
    let want: Vec<u8> = vec![
        0xa4, 0xa3, 0xa2, 0xa1, 0xb2, 0xb1, 0xc2, 0xc1, 0xd1, 0xd2, 0xd3, 0xd4, 0xd5, 0xd6, 0xd7, 0xd8,
    ];
    assert_eq!(shown(&AcpiValue::from_guid(guid)), format!("Buffer({:?})", want));
}

#[test]
fn variables_have_their_guids() {
    let all = [
        (Variable::SensorCrtTemp, "218246e7-baf6-45f1-aa13-07e4845256b8"),
        (Variable::SensorProchotTemp, "22dc52d2-fd0b-47ab-95b8-26552f9831a5"),
        (Variable::FanOnTemp, "ba17b567-c368-48d5-bc6f-a312a41583c1"),
        (Variable::FanRampTemp, "3a62688c-d95b-4d2d-bacc-90d7a5816bcd"),
        (Variable::FanMaxTemp, "dcb758b1-f0fd-4ec7-b2c0-ef1e2a547b76"),
        (Variable::FanMinRpm, "db261c77-934b-45e2-9742-256c62badb7a"),
        (Variable::FanMaxRpm, "5cf839df-8be7-42b9-9ac5-3403ca2c8a6a"),
        (Variable::FanCurrentRpm, "adf95492-0776-4ffc-84f3-b6c8b5269683"),
    ];
    for (variable, text) in all {
        let uuid = uuid::Uuid::parse_str(text).unwrap();
        let (data1, data2, data3, data4) = uuid.as_fields();
        let guid = Guid { data1, data2, data3, data4: u64::from_be_bytes(*data4) };
        assert_eq!(variable.guid(), guid);
        let want = format!("Buffer({:?})", uuid.to_bytes_le());
        assert_eq!(shown(&AcpiValue::from_guid(guid)), want);
    }
}

#[test]
fn different_guids_have_different_bytes() {
    let a = Guid { data1: 1, data2: 2, data3: 3, data4: 4 };
    let b = Guid { data4: 5, ..a };
    assert_ne!(shown(&AcpiValue::from_guid(a)), shown(&AcpiValue::from_guid(b)));
}

#[test]
fn errors_in_words() {
    assert_eq!(AcpiParseError::InsufficientLength.describe(), "InsufficientLength");
    assert_eq!(AcpiParseError::InvalidFormat.describe(), "InvalidFormat");
    for status in [0, 5, 10, 1234567890, i32::MAX, -1, -907, i32::MIN] {
        let e = AcpiParseError::EvaluationFailed(status);
        assert_eq!(e.describe(), format!("{:?}", e));
    }
}

#[test]
fn integers_in_bytes() {
    assert_eq!(ec_acpi::bytes::u32_to_bytes(0x0102_0304), vec![4, 3, 2, 1]);
    assert_eq!(ec_acpi::bytes::u32_from_bytes(&[4, 3, 2, 1, 9]), 0x0102_0304);
    assert_eq!(ec_acpi::bytes::u32_from_bytes(&[255, 255, 255, 255]), u32::MAX);
}

#[test]
fn zero_characters_are_found() {
    assert!(holds_zero("ab\0"));
    assert!(!holds_zero(""));
    assert!(!holds_zero("é0"));

    assert!(AcpiValue::Integer(0).is_nul_free());
    assert!(AcpiValue::Buffer(vec![0]).is_nul_free());
    assert!(text("ab").is_nul_free());
    assert!(!text("\0").is_nul_free());
    assert!(package(vec![]).is_nul_free());
    assert!(package(vec![text("a"), package(vec![text("b")])]).is_nul_free());
    assert!(!package(vec![text("a"), package(vec![text("b\0")])]).is_nul_free());
    assert!(!are_nul_free(&[text("a"), text("\0b")]));
}
