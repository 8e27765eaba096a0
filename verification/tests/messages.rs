use ec_acpi::evaluate::evaluation;
use ec_acpi::message::{
    read_header, response_header, response_values, try_deserialize_acpi_response,
    try_serialize_acpi_request, AcpiEvalOutputBufferV1Header,
};
use ec_acpi::{
    deserialize_acpi_response, serialize_acpi_request, Acpi, AcpiParseError, AcpiValue, MethodCall,
};

fn reply(signature: u32, length: u32, count: u32, payload: &[u8]) -> Vec<u8> {
    let mut bytes = Vec::new();
    bytes.extend(signature.to_le_bytes());
    bytes.extend(length.to_le_bytes());
    bytes.extend(count.to_le_bytes());
    bytes.extend(payload);
    bytes
}

/// Storage that starts at a multiple of four and holds `bytes` from index `at` on.
fn stored(bytes: &[u8], at: usize) -> Vec<u32> {
    let mut words = vec![0u32; (at + bytes.len() + 3) / 4];
    let room: &mut [u8] = bytemuck::cast_slice_mut(&mut words);
    room[at..at + bytes.len()].copy_from_slice(bytes);
    words
}

fn slice(words: &[u32], at: usize, len: usize) -> &[u8] {
    &bytemuck::cast_slice::<u32, u8>(words)[at..at + len]
}

fn decode(bytes: &[u8]) -> Option<Result<Vec<AcpiValue>, AcpiParseError>> {
    let words = stored(bytes, 0);
    try_deserialize_acpi_response(slice(&words, 0, bytes.len()))
}

fn shown(values: &[AcpiValue]) -> String {
    format!("{:?}", values)
}

#[test]
fn request_on_the_wire() {
    let args = [AcpiValue::Integer(1), AcpiValue::Buffer(vec![2, 3])];
    let bytes = serialize_acpi_request("\\_SB.X", &args).unwrap();
    assert_eq!(bytes.len(), 268 + 14);
    assert_eq!(&bytes[..4], b"AeiF");
    assert_eq!(&bytes[4..10], b"\\_SB.X");
    assert!(bytes[10..260].iter().all(|b| *b == 0));
    assert_eq!(&bytes[260..264], &[14, 0, 0, 0]);
    assert_eq!(&bytes[264..268], &[2, 0, 0, 0]);
    assert_eq!(&bytes[268..], &[0, 0, 4, 0, 1, 0, 0, 0, 2, 0, 2, 0, 2, 3]);
}

#[test]
fn request_without_arguments() {
    let bytes = serialize_acpi_request("", &[]).unwrap();
    assert_eq!(bytes.len(), 268);
    assert_eq!(&bytes[..4], b"AeiF");
    assert!(bytes[4..].iter().all(|b| *b == 0));
}

#[test]
fn request_limits() {
    let seven: Vec<AcpiValue> = (0..7).map(AcpiValue::Integer).collect();
    let eight: Vec<AcpiValue> = (0..8).map(AcpiValue::Integer).collect();
    assert_eq!(serialize_acpi_request("m", &seven).unwrap().len(), 268 + 56);
    assert_eq!(serialize_acpi_request("m", &eight), Err(AcpiParseError::InsufficientLength));
    let longest = "n".repeat(256);
    let bytes = serialize_acpi_request(&longest, &[]).unwrap();
    assert_eq!(&bytes[4..260], longest.as_bytes());
    let longer = "n".repeat(257);
    assert_eq!(serialize_acpi_request(&longer, &[]), Err(AcpiParseError::InsufficientLength));
    let wide = "é".repeat(129);
    assert_eq!(serialize_acpi_request(&wide, &[]), Err(AcpiParseError::InsufficientLength));
}

#[test]
fn request_with_a_zero_character_gives_no_result() {
    let zero = || AcpiValue::String("a\0b".to_string());
    assert_eq!(try_serialize_acpi_request("m", &[zero()]), None);
    let nested = AcpiValue::Package(Box::new(vec![AcpiValue::Integer(1), zero()]));
    assert_eq!(try_serialize_acpi_request("m", &[AcpiValue::Integer(1), nested]), None);

    let eight: Vec<AcpiValue> = (0..8).map(|_| zero()).collect();
    assert_eq!(
        try_serialize_acpi_request("m", &eight),
        Some(Err(AcpiParseError::InsufficientLength))
    );
    assert_eq!(
        try_serialize_acpi_request(&"n".repeat(257), &[zero()]),
        Some(Err(AcpiParseError::InsufficientLength))
    );

    let args = [AcpiValue::String("ab".to_string()), AcpiValue::Buffer(vec![0])];
    let bytes = try_serialize_acpi_request("m", &args).unwrap().unwrap();
    assert_eq!(&bytes[268..], &[1, 0, 3, 0, b'a', b'b', 0, 2, 0, 1, 0, 0]);
    assert_eq!(Ok(bytes), serialize_acpi_request("m", &args));
}

#[test]
fn method_call_with_a_zero_character_gives_no_request() {
    let call = MethodCall { name: "m", args: vec![AcpiValue::String("\0".to_string())] };
    assert_eq!(call.try_request(), None);
    let call = MethodCall { name: "m", args: vec![AcpiValue::Integer(5)] };
    assert_eq!(call.try_request(), Some(call.request()));
    assert_eq!(&call.try_request().unwrap().unwrap()[268..], &[0, 0, 4, 0, 5, 0, 0, 0]);
}

#[test]
fn request_arguments_read_back() {
    let args = [AcpiValue::Integer(77), AcpiValue::String("abc".to_string())];
    let bytes = serialize_acpi_request("m", &args).unwrap();
    let (first, rest) = AcpiValue::deserialize(&bytes[268..], false).unwrap();
    let (second, rest) = AcpiValue::deserialize(rest, false).unwrap();
    assert_eq!(shown(&[first, second]), shown(&args));
    assert!(rest.is_empty());
}

#[test]
fn response_reads_back() {
    let values = [AcpiValue::Integer(0), AcpiValue::String("abc".to_string()), AcpiValue::Buffer(vec![1])];
    let payload: Vec<u8> = values.iter().flat_map(|v| v.serialize()).collect();
    let bytes = reply(0x426f_6541, payload.len() as u32, 3, &payload);
    let words = stored(&bytes, 0);
    let got = deserialize_acpi_response(slice(&words, 0, bytes.len())).unwrap();
    assert_eq!(shown(&got), shown(&values));
}

#[test]
fn response_signature_and_spare_bytes_are_ignored() {
    let payload = AcpiValue::Integer(3).serialize();
    let mut bytes = reply(0, 8, 1, &payload);
    bytes.extend([9; 50]);
    assert_eq!(shown(&decode(&bytes).unwrap().unwrap()), "[Integer(3)]");
    bytes[0] = 0xee;
    bytes[30] = 1;
    assert_eq!(shown(&decode(&bytes).unwrap().unwrap()), "[Integer(3)]");
}

#[test]
fn response_count_decides() {
    let mut payload = AcpiValue::Integer(3).serialize();
    payload.extend(AcpiValue::Integer(4).serialize());
    assert_eq!(shown(&decode(&reply(0, 16, 0, &payload)).unwrap().unwrap()), "[]");
    assert_eq!(shown(&decode(&reply(0, 16, 1, &payload)).unwrap().unwrap()), "[Integer(3)]");
    assert_eq!(
        shown(&decode(&reply(0, 16, 2, &payload)).unwrap().unwrap()),
        "[Integer(3), Integer(4)]"
    );
    assert!(decode(&reply(0, 16, 3, &payload)).is_none());
}

#[test]
fn response_refusals() {
    let payload = AcpiValue::Integer(3).serialize();
    let cut = decode(&reply(0, 9, 1, &payload)).unwrap();
    assert_eq!(cut.unwrap_err(), AcpiParseError::InsufficientLength);
    let huge = decode(&reply(0, u32::MAX, 1, &payload)).unwrap();
    assert_eq!(huge.unwrap_err(), AcpiParseError::InsufficientLength);
    let bad = decode(&reply(0, 4, 1, &[9, 0, 0, 0])).unwrap();
    assert_eq!(bad.unwrap_err(), AcpiParseError::InvalidFormat);
}

#[test]
fn response_cut_short_gives_no_result() {
    assert!(try_deserialize_acpi_response(&[]).is_none());
    assert!(try_deserialize_acpi_response(&[0; 11]).is_none());
    assert!(decode(&reply(0, 0, 1, &[])).is_none());
    assert!(decode(&reply(0, 3, 1, &[0, 0, 4, 0, 1, 0, 0, 0])).is_none());
}

#[test]
fn unaligned_response_is_refused() {
    let bytes = reply(0, 8, 1, &AcpiValue::Integer(3).serialize());
    for at in 1..4 {
        let words = stored(&bytes, at);
        let got = try_deserialize_acpi_response(slice(&words, at, bytes.len())).unwrap();
        assert_eq!(got.unwrap_err(), AcpiParseError::InvalidFormat);
    }
    let words = stored(&bytes, 4);
    let got = try_deserialize_acpi_response(slice(&words, 4, bytes.len())).unwrap();
    assert_eq!(shown(&got.unwrap()), "[Integer(3)]");
}

#[test]
fn value_behind_odd_bytes_is_refused() {
    let mut payload = AcpiValue::String("ab".to_string()).serialize();
    payload.extend(AcpiValue::Integer(4).serialize());
    let got = decode(&reply(0, payload.len() as u32, 2, &payload)).unwrap();
    assert_eq!(got.unwrap_err(), AcpiParseError::InvalidFormat);
    let got = decode(&reply(0, payload.len() as u32, 1, &payload)).unwrap();
    assert_eq!(shown(&got.unwrap()), "[String(\"ab\")]");
}

#[test]
fn package_in_response_takes_the_rest() {
    let mut payload = AcpiValue::Package(Box::new(vec![AcpiValue::Integer(1)])).serialize();
    payload.extend(AcpiValue::Integer(2).serialize());
    let got = decode(&reply(0, payload.len() as u32, 1, &payload)).unwrap();
    assert_eq!(shown(&got.unwrap()), "[Package([Integer(1), Integer(2)])]");
}

#[test]
fn values_behind_a_header() {
    let payload = AcpiValue::Integer(3).serialize();
    let header = AcpiEvalOutputBufferV1Header { signature: 1, length: 8, count: 1 };
    assert_eq!(shown(&response_values(Some(header), &payload).unwrap().unwrap()), "[Integer(3)]");
    let none = response_values(None, &payload).unwrap();
    assert_eq!(none.unwrap_err(), AcpiParseError::InvalidFormat);
    let short = response_values(Some(header), &payload[..7]).unwrap();
    assert_eq!(short.unwrap_err(), AcpiParseError::InsufficientLength);
}

#[test]
fn header_of_a_reply() {
    let bytes = reply(0x0403_0201, 0x0807_0605, 0x0c0b_0a09, &[13, 14]);
    assert_eq!(response_header(&bytes), &[1, 2, 3, 4, 5, 6, 7, 8, 9, 10, 11, 12]);
    let words = stored(&bytes, 0);
    assert_eq!(
        read_header(slice(&words, 0, bytes.len())),
        Some(AcpiEvalOutputBufferV1Header {
            signature: 0x0403_0201,
            length: 0x0807_0605,
            count: 0x0c0b_0a09,
        })
    );
    for at in 1..4 {
        let words = stored(&bytes, at);
        assert_eq!(read_header(slice(&words, at, bytes.len())), None);
    }
}

#[test]
fn evaluation_gives_what_was_decoded() {
    let decoded = || Some(Ok(vec![AcpiValue::Integer(3)]));
    assert_eq!(shown(&evaluation(0, decoded()).unwrap().unwrap()), "[Integer(3)]");
    assert!(evaluation(0, None).is_none());
    let refused = evaluation(0, Some(Err(AcpiParseError::InvalidFormat))).unwrap();
    assert_eq!(refused.unwrap_err(), AcpiParseError::InvalidFormat);
    for status in [1, -1, i32::MIN] {
        let failed = evaluation(status, decoded()).unwrap();
        assert_eq!(failed.unwrap_err(), AcpiParseError::EvaluationFailed(status));
        let failed = evaluation(status, None).unwrap();
        assert_eq!(failed.unwrap_err(), AcpiParseError::EvaluationFailed(status));
    }
}

#[test]
fn status_decides_evaluation() {
    let bytes = reply(0, 8, 1, &AcpiValue::Integer(3).serialize());
    let words = stored(&bytes, 0);
    let data = slice(&words, 0, bytes.len());
    assert_eq!(shown(&Acpi::evaluate_result(0, data).unwrap().unwrap()), "[Integer(3)]");
    for status in [1, -1, 1168] {
        let failed = Acpi::evaluate_result(status, data).unwrap();
        assert_eq!(failed.unwrap_err(), AcpiParseError::EvaluationFailed(status));
        let failed = Acpi::evaluate_result(status, &[]).unwrap();
        assert_eq!(failed.unwrap_err(), AcpiParseError::EvaluationFailed(status));
    }
    assert!(Acpi::evaluate_result(0, &[]).is_none());
    let bad = reply(0, 9, 1, &AcpiValue::Integer(3).serialize());
    let words = stored(&bad, 0);
    let refused = Acpi::evaluate_result(0, slice(&words, 0, bad.len())).unwrap();
    assert_eq!(refused.unwrap_err(), AcpiParseError::InsufficientLength);
}

fn battery_values(texts: [&str; 4]) -> Vec<AcpiValue> {
    let mut values: Vec<AcpiValue> = (0..16).map(AcpiValue::Integer).collect();
    values.extend(texts.iter().map(|s| AcpiValue::String(s.to_string())));
    values.push(AcpiValue::Integer(16));
    values
}

#[test]
fn replies_become_results() {
    let one = reply(9, 8, 1, &AcpiValue::Integer(3).serialize());
    assert_eq!(Acpi::evaluate_u32_result(&decode(&one).unwrap()), Ok(3));

    let payload: Vec<u8> = [0, 2982].iter().flat_map(|i| AcpiValue::Integer(*i).serialize()).collect();
    let variable = decode(&reply(9, 16, 2, &payload)).unwrap();
    assert_eq!(Acpi::get_var_result(&variable), Ok(2982));

    let payload: Vec<u8> = [1, 2, 3, 4].iter().flat_map(|i| AcpiValue::Integer(*i).serialize()).collect();
    let state = decode(&reply(9, 32, 4, &payload)).unwrap();
    assert_eq!(
        Acpi::get_bst_result(&state),
        Ok(ec_acpi::source::BstData { state: 1, rate: 2, capacity: 3, voltage: 4 })
    );
}

#[test]
fn battery_information_reply_needs_even_texts() {
    let values = battery_values(["m", "abc", "LiIon", "oem"]);
    let payload: Vec<u8> = values.iter().flat_map(|v| v.serialize()).collect();
    let output = decode(&reply(9, payload.len() as u32, 21, &payload)).unwrap();
    let data = Acpi::get_bix_result(&output).unwrap();
    assert_eq!(data.capacity_gran2, 15);
    assert_eq!(data.model_number, "m");
    assert_eq!(data.oem_info, "oem");
    assert_eq!(data.swap_cap, 16);

    let values = battery_values(["m", "abc", "LION", "oem"]);
    let payload: Vec<u8> = values.iter().flat_map(|v| v.serialize()).collect();
    let output = decode(&reply(9, payload.len() as u32, 21, &payload)).unwrap();
    assert_eq!(output.unwrap_err(), AcpiParseError::InvalidFormat);
}
