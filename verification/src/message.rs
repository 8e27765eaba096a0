//! Requests to evaluate a method, and the replies to them.
use vstd::prelude::*;
use vstd::slice::slice_subrange;
use vstd::utf8::encode_utf8;
use crate::bytes::{le32, u32_at, u32_to_bytes};
use crate::decode::{decode_count, joined, lemma_decode_rest, lemma_joined_push, Decoded};
use crate::error::AcpiParseError;
use crate::layout::dwords_in_place;
use crate::value::{
    all_nul_free, are_nul_free, data_of, encode_all, lemma_encode_all_push, AcpiValue, Datum,
};

verus! {

/// Marks a request: the bytes `AeiF`.
pub const ACPI_EVAL_INPUT_BUFFER_COMPLEX_SIGNATURE_EX: u32 = 0x4669_6541;

/// The room for the method's name in a request, in bytes.
pub const ACPI_MAX_METHOD_NAME_LEN: usize = 256;

/// The number of arguments that a method can take.
pub const ACPI_MAX_ARGUMENTS: usize = 7;

/// The size of the header of a reply, in bytes.
pub const ACPI_EVAL_OUTPUT_HEADER_LEN: usize = 12;

/// The bytes of a method's name, filled up with zeros to the room for it.
pub open spec fn method_name(name: Seq<char>) -> Seq<u8> {
    let bytes = encode_utf8(name);
    bytes + Seq::new((ACPI_MAX_METHOD_NAME_LEN - bytes.len()) as nat, |i: int| 0u8)
}

/// A request on the wire: the signature, the method's name, the size of the arguments modulo 2 to
/// the 32, their number, and the arguments.
pub open spec fn request(name: Seq<char>, args: Seq<Datum>) -> Seq<u8> {
    le32(ACPI_EVAL_INPUT_BUFFER_COMPLEX_SIGNATURE_EX) + method_name(name) + le32(
        (encode_all(args).len() % 0x1_0000_0000) as u32,
    ) + le32(args.len() as u32) + encode_all(args)
}

/// A request can hold the method's name and the arguments.
pub open spec fn fits_request(name: Seq<char>, args: Seq<Datum>) -> bool {
    &&& args.len() <= ACPI_MAX_ARGUMENTS
    &&& encode_utf8(name).len() <= ACPI_MAX_METHOD_NAME_LEN
}

/// The request to evaluate the method `name`. A longer name than there is room for, or more
/// arguments than a method can take, are refused. No text in the arguments may hold the
/// character zero.
pub fn serialize_acpi_request(name: &str, args: &[AcpiValue]) -> (bytes: Result<
    Vec<u8>,
    AcpiParseError,
>)
    requires
        fits_request(name@, data_of(args@)) ==> all_nul_free(data_of(args@)),
    ensures
        match bytes {
            Ok(b) => fits_request(name@, data_of(args@)) && b@ == request(name@, data_of(args@)),
            Err(e) => !fits_request(name@, data_of(args@)) && e == AcpiParseError::InsufficientLength,
        },
{
    let name_bytes = name.as_bytes();
    if args.len() > ACPI_MAX_ARGUMENTS {
        return Err(AcpiParseError::InsufficientLength);
    }
    if name_bytes.len() > ACPI_MAX_METHOD_NAME_LEN {
        return Err(AcpiParseError::InsufficientLength);
    }
    let ghost data = data_of(args@);
    let mut args_buffer: Vec<u8> = Vec::new();
    let mut i: usize = 0;
    while i < args.len()
        invariant
            i <= args.len(),
            data == data_of(args@),
            all_nul_free(data),
            args_buffer@ == encode_all(data.take(i as int)),
        decreases args.len() - i,
    {
        assert(data[i as int] == args@[i as int]@);
        assert(data.take(i + 1) == data.take(i as int).push(data[i as int]));
        proof {
            lemma_encode_all_push(data.take(i as int), data[i as int]);
        }
        let encoded = args[i].serialize();
        args_buffer.extend_from_slice(encoded.as_slice());
        i = i + 1;
    }
    assert(data.take(i as int) == data);

    let mut result = u32_to_bytes(ACPI_EVAL_INPUT_BUFFER_COMPLEX_SIGNATURE_EX);
    result.extend_from_slice(name_bytes);
    let mut room: usize = ACPI_MAX_METHOD_NAME_LEN - name_bytes.len();
    while room > 0
        invariant
            room + encode_utf8(name@).len() <= ACPI_MAX_METHOD_NAME_LEN,
            result@ == le32(ACPI_EVAL_INPUT_BUFFER_COMPLEX_SIGNATURE_EX) + (encode_utf8(name@)
                + Seq::new(
                (ACPI_MAX_METHOD_NAME_LEN - encode_utf8(name@).len() - room) as nat,
                |i: int| 0u8,
            )),
        decreases room,
    {
        result.push(0);
        room = room - 1;
    }
    let size: u32 = (args_buffer.len() as u64 % 0x1_0000_0000) as u32;
    let size_bytes = u32_to_bytes(size);
    let count_bytes = u32_to_bytes(args.len() as u32);
    result.extend_from_slice(size_bytes.as_slice());
    result.extend_from_slice(count_bytes.as_slice());
    result.extend_from_slice(args_buffer.as_slice());
    Ok(result)
}

/// An outcome of [`try_serialize_acpi_request`] is the one for this name and these arguments.
pub open spec fn is_request(
    got: Option<Result<Vec<u8>, AcpiParseError>>,
    name: Seq<char>,
    args: Seq<Datum>,
) -> bool {
    if !fits_request(name, args) {
        got matches Some(Err(e)) && e == AcpiParseError::InsufficientLength
    } else if all_nul_free(args) {
        got matches Some(Ok(b)) && b@ == request(name, args)
    } else {
        got is None
    }
}

/// The request to evaluate the method `name`, as [`serialize_acpi_request`] gives it. There is no
/// result where a text in the arguments holds the character zero and would have to be encoded.
pub fn try_serialize_acpi_request(name: &str, args: &[AcpiValue]) -> (bytes: Option<
    Result<Vec<u8>, AcpiParseError>,
>)
    ensures
        is_request(bytes, name@, data_of(args@)),
{
    if args.len() <= ACPI_MAX_ARGUMENTS && name.as_bytes().len() <= ACPI_MAX_METHOD_NAME_LEN
        && !are_nul_free(args) {
        return None;
    }
    Some(serialize_acpi_request(name, args))
}

/// The header of a reply.
#[derive(Debug, Clone, Copy, PartialEq, Eq, Structural)]
pub struct AcpiEvalOutputBufferV1Header {
    pub signature: u32,
    /// The number of bytes behind the header that hold the results.
    pub length: u32,
    /// The number of the results.
    pub count: u32,
}

impl AcpiEvalOutputBufferV1Header {
    /// The header that the bytes of a reply begin with.
    pub open spec fn of(data: Seq<u8>) -> AcpiEvalOutputBufferV1Header {
        AcpiEvalOutputBufferV1Header {
            signature: u32_at(data, 0),
            length: u32_at(data, 4),
            count: u32_at(data, 8),
        }
    }
}

/// The results in `payload`, the bytes behind the header of a reply. A header that could not be
/// read in place is none; behind one that could, the bytes start at an even address.
pub open spec fn decode_payload(
    header: Option<AcpiEvalOutputBufferV1Header>,
    payload: Seq<u8>,
) -> Decoded<Seq<Datum>> {
    match header {
        None => Decoded::Refused(AcpiParseError::InvalidFormat),
        Some(h) => if payload.len() < h.length {
            Decoded::Refused(AcpiParseError::InsufficientLength)
        } else {
            decode_count(h.count as nat, payload.take(h.length as int), false)
        },
    }
}

/// The results in a reply.
///
/// Its header is read in place, which takes an address that is a multiple of four: `aligned` says
/// that `data` starts at one.
pub open spec fn decode_response(data: Seq<u8>, aligned: bool) -> Decoded<Seq<Datum>> {
    if data.len() < ACPI_EVAL_OUTPUT_HEADER_LEN {
        Decoded::Cut
    } else {
        decode_payload(
            if aligned {
                Some(AcpiEvalOutputBufferV1Header::of(data))
            } else {
                None
            },
            data.skip(ACPI_EVAL_OUTPUT_HEADER_LEN as int),
        )
    }
}

/// An outcome of decoding a reply is the one that `want` says.
pub open spec fn are_values(
    got: Option<Result<Vec<AcpiValue>, AcpiParseError>>,
    want: Decoded<Seq<Datum>>,
) -> bool {
    match want {
        Decoded::Done(vs) => got matches Some(Ok(xs)) && data_of(xs@) == vs,
        Decoded::Refused(e) => got matches Some(Err(x)) && x == e,
        Decoded::Cut => got is None,
    }
}

/// Takes the results from the bytes behind the header of a reply. There is no result where the
/// bytes end before a header that must be read.
pub fn response_values(header: Option<AcpiEvalOutputBufferV1Header>, payload: &[u8]) -> (values: Option<
    Result<Vec<AcpiValue>, AcpiParseError>,
>)
    ensures
        are_values(values, decode_payload(header, payload@)),
{
    let (length, count): (u32, u32) = match header {
        Some(h) => (h.length, h.count),
        None => {
            return Some(Err(AcpiParseError::InvalidFormat));
        },
    };
    if (payload.len() as u64) < length as u64 {
        return Some(Err(AcpiParseError::InsufficientLength));
    }
    let body = slice_subrange(payload, 0, length as usize);
    let ghost want = decode_count(count as nat, body@, false);
    assert(body@ == payload@.take(length as int));
    let mut result: Vec<AcpiValue> = Vec::new();
    let mut remaining: &[u8] = body;
    let mut odd: bool = false;
    let mut left: u32 = count;
    assert(data_of(result@) == Seq::<Datum>::empty());
    proof {
        if let Decoded::Done(vs) = decode_count(left as nat, remaining@, odd) {
            assert(data_of(result@) + vs == vs);
        }
    }
    while left > 0
        invariant
            want == decode_payload(header, payload@),
            joined(data_of(result@), decode_count(left as nat, remaining@, odd)) == want,
        decreases left,
    {
        proof {
            lemma_decode_rest(remaining@, odd);
        }
        match AcpiValue::try_deserialize(remaining, odd) {
            Some(Ok((value, rest))) => {
                let ghost before = data_of(result@);
                odd = odd != ((remaining.len() - rest.len()) % 2 == 1);
                result.push(value);
                remaining = rest;
                left = left - 1;
                proof {
                    assert(data_of(result@) == before.push(value@));
                    lemma_joined_push(before, value@, decode_count(left as nat, remaining@, odd));
                }
            },
            Some(Err(e)) => {
                return Some(Err(e));
            },
            None => {
                return None;
            },
        }
    }
    assert(data_of(result@) + Seq::<Datum>::empty() == data_of(result@));
    Some(Ok(result))
}

/// The bytes of the header of a reply.
pub fn response_header(data: &[u8]) -> (header: &[u8])
    requires
        data@.len() >= ACPI_EVAL_OUTPUT_HEADER_LEN,
    ensures
        header@ == data@.take(ACPI_EVAL_OUTPUT_HEADER_LEN as int),
{
    let (header, _) = data.split_at(ACPI_EVAL_OUTPUT_HEADER_LEN);
    assert(header@ == data@.take(ACPI_EVAL_OUTPUT_HEADER_LEN as int));
    header
}

/// The header is what came of reading the first bytes of `data` in place: the words that they hold,
/// or none where they could not be read.
pub closed spec fn is_read_in_place(
    data: &[u8],
    header: Option<AcpiEvalOutputBufferV1Header>,
) -> bool {
    exists|bytes: &[u8], words: Result<(u32, u32, u32), bytemuck::PodCastError>|
        {
            &&& call_ensures(response_header, (data,), bytes)
            &&& #[trigger] call_ensures(dwords_in_place, (bytes,), words)
            &&& header == match words {
                Ok((signature, length, count)) => Some(
                    AcpiEvalOutputBufferV1Header { signature, length, count },
                ),
                Err(_) => None,
            }
        }
}

/// Every header that the cast gives is handed on whole, and one is missing only where the cast
/// refuses the first bytes of `data` themselves.
proof fn law_header_comes_from_the_cast(
    data: &[u8],
    header: Option<AcpiEvalOutputBufferV1Header>,
)
    requires
        is_read_in_place(data, header),
    ensures
        exists|bytes: &[u8], words: Result<(u32, u32, u32), bytemuck::PodCastError>|
            {
                &&& call_ensures(response_header, (data,), bytes)
                &&& #[trigger] call_ensures(dwords_in_place, (bytes,), words)
                &&& words is Err <==> header is None
                &&& words matches Ok(w) ==> header matches Some(h) && h.signature == w.0 && h.length
                    == w.1 && h.count == w.2
            },
{
}

/// Reads the header of a reply in place, which takes an address that is a multiple of four. There
/// is none at another address.
pub fn read_header(data: &[u8]) -> (header: Option<AcpiEvalOutputBufferV1Header>)
    requires
        data@.len() >= ACPI_EVAL_OUTPUT_HEADER_LEN,
    ensures
        is_read_in_place(data, header),
        header matches Some(h) ==> h == AcpiEvalOutputBufferV1Header::of(data@),
{
    match dwords_in_place(response_header(data)) {
        Ok((signature, length, count)) => Some(
            AcpiEvalOutputBufferV1Header { signature, length, count },
        ),
        Err(_) => None,
    }
}

/// Takes the results from a reply. There is no result where the bytes end before a header that
/// must be read. A reply that does not start at an address that is a multiple of four is refused as
/// an invalid format.
///
/// The results are those that [`response_values`] gives for the header that [`read_header`] gave.
pub fn try_deserialize_acpi_response(data: &[u8]) -> (values: Option<
    Result<Vec<AcpiValue>, AcpiParseError>,
>)
    ensures
        data@.len() < ACPI_EVAL_OUTPUT_HEADER_LEN ==> values is None,
        data@.len() >= ACPI_EVAL_OUTPUT_HEADER_LEN ==> exists|
            header: Option<AcpiEvalOutputBufferV1Header>,
        | #[trigger]
            call_ensures(read_header, (data,), header) && are_values(
                values,
                decode_payload(header, data@.skip(ACPI_EVAL_OUTPUT_HEADER_LEN as int)),
            ),
        are_values(values, decode_response(data@, true)) || are_values(
            values,
            decode_response(data@, false),
        ),
{
    if data.len() < ACPI_EVAL_OUTPUT_HEADER_LEN {
        return None;
    }
    let (_, payload) = data.split_at(ACPI_EVAL_OUTPUT_HEADER_LEN);
    assert(payload@ == data@.skip(ACPI_EVAL_OUTPUT_HEADER_LEN as int));
    response_values(read_header(data), payload)
}

/// Takes the results from a reply, as [`try_deserialize_acpi_response`] does. Its bytes must not
/// end before a header that must be read.
pub fn deserialize_acpi_response(data: &[u8]) -> (values: Result<Vec<AcpiValue>, AcpiParseError>)
    requires
        !(decode_response(data@, true) is Cut),
    ensures
        call_ensures(try_deserialize_acpi_response, (data,), Some(values)),
        are_values(Some(values), decode_response(data@, true)) || are_values(
            Some(values),
            decode_response(data@, false),
        ),
{
    try_deserialize_acpi_response(data).unwrap()
}

} // verus!
