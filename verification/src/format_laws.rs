//! What the wire format is, byte by byte.
use vstd::prelude::*;
use vstd::utf8::{
    decode_utf8_encode_utf8, encode_utf8, encode_utf8_decode_utf8, encode_utf8_valid_utf8, valid_utf8,
};
use crate::bytes::{le16, le32, lemma_le32_read, u16_at, u32_at};
use crate::decode::{
    decode, decode_count, decode_to_end, is_first_value, lemma_decode_rest, Decoded,
};
use crate::error::AcpiParseError;
use crate::evaluate::{ERROR_SUCCESS, OUTPUT_BUFFER_LEN};
use crate::guid::{be64, Guid};
use crate::laws::{all_read_back, even_text, law_request_layout, reads_back, response};
use crate::message::{
    are_values, decode_payload, decode_response, fits_request, is_request, request,
    AcpiEvalOutputBufferV1Header, ACPI_EVAL_OUTPUT_HEADER_LEN, ACPI_MAX_ARGUMENTS,
    ACPI_MAX_METHOD_NAME_LEN,
};
use crate::text::{
    law_zero_byte_is_zero_character, lemma_terminator_unique, terminated_at, terminated_text,
    TextError,
};
use crate::value::{
    all_nul_free, argument, data_of, encode_all, lemma_encode_all_add, AcpiArgumentType, AcpiValue,
    Datum,
};

verus! {

/// The bytes of a sixteen-bit number, weighted by their places, add up to it.
pub proof fn law_le16_value(x: u16)
    ensures
        le16(x).len() == 2,
        le16(x)[0] + 256 * le16(x)[1] == x,
{
}

/// The bytes of a thirty-two-bit number, weighted by their places, add up to it.
pub proof fn law_le32_value(x: u32)
    ensures
        le32(x).len() == 4,
        le32(x)[0] + 256 * le32(x)[1] + 0x1_0000 * le32(x)[2] + 0x100_0000 * le32(x)[3] == x,
{
}

/// The bytes of a sixty-four-bit number, the most significant first, add up to it.
pub proof fn law_be64_value(x: u64)
    ensures
        be64(x).len() == 8,
        0x100_0000_0000_0000 * be64(x)[0] + 0x1_0000_0000_0000 * be64(x)[1] + 0x100_0000_0000 * be64(
            x,
        )[2] + 0x1_0000_0000 * be64(x)[3] + 0x100_0000 * be64(x)[4] + 0x1_0000 * be64(x)[5] + 0x100
            * be64(x)[6] + be64(x)[7] == x,
{
    assert(x / 0x100_0000_0000_0000 <= 0xff) by (bit_vector);
    assert(0x100_0000_0000_0000 * (x / 0x100_0000_0000_0000) + 0x1_0000_0000_0000 * (x
        / 0x1_0000_0000_0000 % 256) + 0x100_0000_0000 * (x / 0x100_0000_0000 % 256)
        + 0x1_0000_0000 * (x / 0x1_0000_0000 % 256) + 0x100_0000 * (x / 0x100_0000 % 256) + 0x1_0000
        * (x / 0x1_0000 % 256) + 0x100 * (x / 0x100 % 256) + x % 256 == x) by (bit_vector);
}

/// A sixteen-bit number is read with the weight of each byte's place.
pub proof fn law_u16_read(s: Seq<u8>, at: int)
    requires
        0 <= at,
        at + 2 <= s.len(),
    ensures
        u16_at(s, at) == s[at] + 256 * s[at + 1],
{
}

/// A thirty-two-bit number is read with the weight of each byte's place.
pub proof fn law_u32_read(s: Seq<u8>, at: int)
    requires
        0 <= at,
        at + 4 <= s.len(),
    ensures
        u32_at(s, at) == s[at] + 256 * s[at + 1] + 0x1_0000 * s[at + 2] + 0x100_0000 * s[at + 3],
{
}

/// The first three fields of an identifier stand with their least significant byte first, the last
/// one with its most significant byte first, and nothing else stands there.
pub proof fn law_guid_layout(guid: Guid)
    ensures
        ({
            let b = guid.bytes_le();
            &&& b.len() == 16
            &&& b[0] + 256 * b[1] + 0x1_0000 * b[2] + 0x100_0000 * b[3] == guid.data1
            &&& b[4] + 256 * b[5] == guid.data2
            &&& b[6] + 256 * b[7] == guid.data3
            &&& 0x100_0000_0000_0000 * b[8] + 0x1_0000_0000_0000 * b[9] + 0x100_0000_0000 * b[10]
                + 0x1_0000_0000 * b[11] + 0x100_0000 * b[12] + 0x1_0000 * b[13] + 0x100 * b[14]
                + b[15] == guid.data4
        }),
{
    let b = guid.bytes_le();
    law_be64_value(guid.data4);
    assert(b.skip(8) == be64(guid.data4));
    assert(forall|i: int| 0 <= i < 8 ==> b[8 + i] == #[trigger] be64(guid.data4)[i]);
}

/// A type has the number that the Windows SDK gives it, and no other type has that number.
pub proof fn law_type_codes(kind: AcpiArgumentType)
    ensures
        kind is Integer <==> kind.spec_code() == 0,
        kind is String <==> kind.spec_code() == 1,
        kind is Buffer <==> kind.spec_code() == 2,
        kind is Package <==> kind.spec_code() == 3,
        kind.spec_code() <= 3,
{
}

/// A value stands for what it holds.
pub proof fn law_value_stands_for_itself(v: AcpiValue)
    ensures
        v matches AcpiValue::Integer(i) ==> v@ == Datum::Integer(i),
        v matches AcpiValue::String(s) ==> v@ == Datum::Text(s@),
        v matches AcpiValue::Buffer(b) ==> v@ == Datum::Buffer(b@),
        v matches AcpiValue::Package(vs) ==> (v@ matches Datum::Package(ds) && ds.len() == vs@.len()
            && forall|i: int| 0 <= i < ds.len() ==> #[trigger] ds[i] == vs@[i]@),
{
}

/// Values stand for what each of them holds, in their order.
pub proof fn law_values_stand_for_themselves(vs: Seq<AcpiValue>)
    ensures
        data_of(vs).len() == vs.len(),
        forall|i: int| 0 <= i < vs.len() ==> #[trigger] data_of(vs)[i] == vs[i]@,
{
}

/// A value is free of the character zero where no text in it holds one.
pub proof fn law_nul_free(v: Datum)
    ensures
        v is Integer || v is Buffer ==> v.nul_free(),
        v matches Datum::Text(s) ==> (v.nul_free() <==> forall|i: int|
            0 <= i < s.len() ==> s[i] != '\0'),
        v matches Datum::Package(vs) ==> (v.nul_free() <==> forall|i: int|
            0 <= i < vs.len() ==> (#[trigger] vs[i]).nul_free()),
{
    if let Datum::Text(s) = v {
        if forall|i: int| 0 <= i < s.len() ==> s[i] != '\0' {
            assert(!s.contains('\0'));
        }
        if !s.contains('\0') {
            assert forall|i: int| 0 <= i < s.len() implies s[i] != '\0' by {
                assert(s.contains(s[i]));
            }
        }
    }
}

/// Values are free of the character zero where each of them is.
pub proof fn law_all_nul_free(vs: Seq<Datum>)
    ensures
        all_nul_free(vs) <==> forall|i: int| 0 <= i < vs.len() ==> (#[trigger] vs[i]).nul_free(),
{
}

/// The four bytes of an argument's header, and where its body stands.
proof fn lemma_argument(kind: AcpiArgumentType, body: Seq<u8>, tail: Seq<u8>)
    ensures
        ({
            let data = argument(kind, body) + tail;
            &&& data.len() == 4 + body.len() + tail.len()
            &&& data[0] == kind.spec_code()
            &&& data[1] == 0
            &&& data[2] + 256 * data[3] == body.len() % 0x1_0000
            &&& data.subrange(4, 4 + body.len() as int) == body
            &&& data.skip(4) == body + tail
            &&& data.skip(4 + body.len() as int) == tail
            &&& u16_at(data, 0) == kind.spec_code()
            &&& u16_at(data, 2) == body.len() % 0x1_0000
        }),
{
    let data = argument(kind, body) + tail;
    law_le16_value((body.len() % 0x1_0000) as u16);
    assert(data.subrange(4, 4 + body.len() as int) == body);
    assert(data.skip(4) == body + tail);
    assert(data.skip(4 + body.len() as int) == tail);
}

/// An integer on the wire is a header of type 0 and length 4 and the integer's own value, the least
/// significant byte first.
pub proof fn law_integer_on_wire(i: u32, tail: Seq<u8>)
    ensures
        ({
            let data = Datum::Integer(i).encode() + tail;
            &&& data.len() == 8 + tail.len()
            &&& data.take(4) == seq![0u8, 0u8, 4u8, 0u8]
            &&& data[4] + 256 * data[5] + 0x1_0000 * data[6] + 0x100_0000 * data[7] == i
            &&& u16_at(data, 0) == 0
            &&& u16_at(data, 2) == 4
            &&& u32_at(data, 4) == i
            &&& data.skip(8) == tail
        }),
{
    let data = Datum::Integer(i).encode() + tail;
    lemma_argument(AcpiArgumentType::Integer, le32(i), tail);
    law_le32_value(i);
    let body = data.subrange(4, 8);
    assert(body == le32(i));
    assert(data[4] == body[0] && data[5] == body[1] && data[6] == body[2] && data[7] == body[3]);
    lemma_le32_read(i, data, 4);
    assert(data.take(4) == seq![0u8, 0u8, 4u8, 0u8]);
}

/// Text on the wire is a header of type 1 with the length of what follows modulo 2 to the 16, the
/// text in UTF-8, and one zero.
pub proof fn law_text_on_wire(s: Seq<char>, tail: Seq<u8>)
    ensures
        ({
            let data = Datum::Text(s).encode() + tail;
            let n = encode_utf8(s).len() as int;
            &&& data.len() == 5 + n + tail.len()
            &&& data[0] == 1
            &&& data[1] == 0
            &&& data[2] + 256 * data[3] == (n + 1) % 0x1_0000
            &&& data.subrange(4, 4 + n) == encode_utf8(s)
            &&& data[4 + n] == 0
            &&& data.skip(5 + n) == tail
        }),
{
    let data = Datum::Text(s).encode() + tail;
    let n = encode_utf8(s).len() as int;
    let body = encode_utf8(s).push(0);
    lemma_argument(AcpiArgumentType::String, body, tail);
    assert(data.subrange(4, 5 + n) == body);
    assert(data.subrange(4, 4 + n) == encode_utf8(s));
    assert(data[4 + n] == body[n]);
}

/// A buffer on the wire is a header of type 2 with the buffer's length modulo 2 to the 16, and the
/// buffer.
pub proof fn law_buffer_on_wire(b: Seq<u8>, tail: Seq<u8>)
    ensures
        ({
            let data = Datum::Buffer(b).encode() + tail;
            &&& data.len() == 4 + b.len() + tail.len()
            &&& data[0] == 2
            &&& data[1] == 0
            &&& data[2] + 256 * data[3] == b.len() % 0x1_0000
            &&& data.subrange(4, 4 + b.len() as int) == b
            &&& data.skip(4 + b.len() as int) == tail
        }),
{
    lemma_argument(AcpiArgumentType::Buffer, b, tail);
}

/// A package on the wire is a header of type 3 with the size of its values modulo 2 to the 16, and
/// its values.
pub proof fn law_package_on_wire(vs: Seq<Datum>, tail: Seq<u8>)
    ensures
        ({
            let data = Datum::Package(vs).encode() + tail;
            let n = encode_all(vs).len() as int;
            &&& data.len() == 4 + n + tail.len()
            &&& data[0] == 3
            &&& data[1] == 0
            &&& data[2] + 256 * data[3] == n % 0x1_0000
            &&& data.subrange(4, 4 + n) == encode_all(vs)
            &&& data.skip(4 + n) == tail
        }),
{
    lemma_argument(AcpiArgumentType::Package, encode_all(vs), tail);
}

/// Values on the wire stand one behind the other, in their order, with nothing between them.
pub proof fn law_values_on_wire(a: Seq<Datum>, v: Datum, b: Seq<Datum>)
    ensures
        encode_all(Seq::<Datum>::empty()) == Seq::<u8>::empty(),
        encode_all(a + seq![v] + b) == encode_all(a) + v.encode() + encode_all(b),
{
    let one: Seq<Datum> = seq![v];
    lemma_encode_all_add(a, one);
    lemma_encode_all_add(a + one, b);
    assert(one.skip(1) == Seq::<Datum>::empty());
    reveal_with_fuel(encode_all, 2);
    assert(encode_all(one) == v.encode());
}

/// Text ends at its first zero, whatever stands behind that: the bytes before it are the text in
/// UTF-8, and are refused where they are not UTF-8.
pub proof fn law_text_ends_at_first_zero(raw: Seq<u8>, n: int)
    requires
        0 <= n < raw.len(),
        raw[n] == 0,
        forall|j: int| 0 <= j < n ==> raw[j] != 0,
    ensures
        valid_utf8(raw.take(n)) ==> (terminated_text(raw) matches Ok(t) && encode_utf8(t)
            == raw.take(n)),
        !valid_utf8(raw.take(n)) ==> (terminated_text(raw) matches Err(e) && e
            == TextError::InvalidCharacters),
{
    assert(terminated_at(raw, n));
    lemma_terminator_unique(raw, n, choose|m: int| terminated_at(raw, m));
    if valid_utf8(raw.take(n)) {
        decode_utf8_encode_utf8(raw.take(n));
    }
}

/// Bytes without a zero are not text.
pub proof fn law_text_needs_a_zero(raw: Seq<u8>)
    requires
        forall|j: int| 0 <= j < raw.len() ==> raw[j] != 0,
    ensures
        terminated_text(raw) matches Err(e) && e == TextError::InvalidByteSlice,
{
    assert forall|n: int| !terminated_at(raw, n) by {
        if 0 <= n < raw.len() {
            assert(raw[n] != 0);
        }
    }
}

/// Text is what is read from it, its zero and any bytes behind that.
pub proof fn law_padded_text(s: Seq<char>, pad: Seq<u8>)
    requires
        !s.contains('\0'),
    ensures
        terminated_text(encode_utf8(s).push(0) + pad) == Ok::<Seq<char>, TextError>(s),
{
    let bytes = encode_utf8(s);
    let raw = bytes.push(0) + pad;
    let n = bytes.len() as int;
    law_zero_byte_is_zero_character(s);
    assert forall|j: int| 0 <= j < n implies raw[j] != 0 by {
        assert(raw[j] == bytes[j]);
        assert(bytes.contains(bytes[j]));
    }
    assert(raw[n] == 0);
    law_text_ends_at_first_zero(raw, n);
    assert(raw.take(n) == bytes);
    encode_utf8_valid_utf8(s);
    encode_utf8_decode_utf8(s);
    if let Ok(t) = terminated_text(raw) {
        encode_utf8_decode_utf8(t);
    }
}

/// Bytes that are too few for a header are cut short, wherever they start.
pub proof fn law_header_needs_four_bytes(data: Seq<u8>, odd: bool)
    requires
        data.len() < 4,
    ensures
        decode(data, odd) is Cut,
{
}

/// A value whose header announces more bytes than follow it is refused for its length, whatever its
/// type is.
pub proof fn law_short_value_refused(data: Seq<u8>)
    requires
        data.len() >= 4,
        data[2] + 256 * data[3] > data.len() - 4,
    ensures
        decode(data, false) == Decoded::<(Datum, Seq<u8>)>::Refused(
            AcpiParseError::InsufficientLength,
        ),
{
    law_u16_read(data, 2);
}

/// A value of a type that has no number is refused as an invalid format.
pub proof fn law_unknown_type_refused(data: Seq<u8>)
    requires
        data.len() >= 4,
        data[2] + 256 * data[3] <= data.len() - 4,
        data[0] > 3 || data[1] != 0,
    ensures
        decode(data, false) == Decoded::<(Datum, Seq<u8>)>::Refused(AcpiParseError::InvalidFormat),
{
    law_u16_read(data, 0);
    law_u16_read(data, 2);
}

/// The four bytes behind a header of type 0 and length 4 are the integer, the least significant
/// first. One of another length is refused as an invalid format.
pub proof fn law_integer_decoded(data: Seq<u8>)
    requires
        data.len() >= 4,
        data[0] == 0,
        data[1] == 0,
        data[2] + 256 * data[3] <= data.len() - 4,
    ensures
        data[2] == 4 && data[3] == 0 ==> (decode(data, false) matches Decoded::Done((v, rest)) && (
        v matches Datum::Integer(i) && i == data[4] + 256 * data[5] + 0x1_0000 * data[6]
            + 0x100_0000 * data[7] && i == u32_at(data, 4)) && rest == data.skip(8)),
        !(data[2] == 4 && data[3] == 0) ==> decode(data, false) == Decoded::<
            (Datum, Seq<u8>),
        >::Refused(AcpiParseError::InvalidFormat),
{
    law_u16_read(data, 0);
    law_u16_read(data, 2);
    if data[2] == 4 && data[3] == 0 {
        let payload = data.skip(4);
        law_u32_read(data, 4);
        law_u32_read(payload, 0);
        assert(payload[0] == data[4] && payload[1] == data[5] && payload[2] == data[6] && payload[3]
            == data[7]);
        assert(payload.skip(4) == data.skip(8));
    }
}

/// The bytes behind a header of type 1, up to their first zero and as far as the header announces
/// them, are the text in UTF-8; what it announces behind the zero is passed over. Without a zero,
/// or where the bytes are not UTF-8, the text is refused as an invalid format.
pub proof fn law_text_decoded(data: Seq<u8>, n: int)
    requires
        data.len() >= 4,
        data[0] == 1,
        data[1] == 0,
        data[2] + 256 * data[3] <= data.len() - 4,
        0 <= n <= data[2] + 256 * data[3],
        forall|j: int| 4 <= j < 4 + n ==> data[j] != 0,
        n < data[2] + 256 * data[3] ==> data[4 + n] == 0,
    ensures
        n < data[2] + 256 * data[3] && valid_utf8(data.subrange(4, 4 + n)) ==> (decode(
            data,
            false,
        ) matches Decoded::Done((v, rest)) && (v matches Datum::Text(t) && encode_utf8(t)
            == data.subrange(4, 4 + n)) && rest == data.skip(4 + data[2] + 256 * data[3])),
        !(n < data[2] + 256 * data[3] && valid_utf8(data.subrange(4, 4 + n))) ==> decode(data, false)
            == Decoded::<(Datum, Seq<u8>)>::Refused(AcpiParseError::InvalidFormat),
{
    law_u16_read(data, 0);
    law_u16_read(data, 2);
    let length = data[2] + 256 * data[3];
    let raw = data.skip(4).take(length);
    assert(forall|j: int| 0 <= j < length ==> raw[j] == data[4 + j]);
    assert(data.skip(4).skip(length) == data.skip(4 + length));
    if n < length {
        law_text_ends_at_first_zero(raw, n);
        assert(raw.take(n) == data.subrange(4, 4 + n));
    } else {
        law_text_needs_a_zero(raw);
    }
}

/// Text with any bytes behind its zero is decoded to the text.
pub proof fn law_padded_text_decoded(s: Seq<char>, pad: Seq<u8>, tail: Seq<u8>)
    requires
        !s.contains('\0'),
        encode_utf8(s).len() + 1 + pad.len() < 0x1_0000,
    ensures
        decode(argument(AcpiArgumentType::String, encode_utf8(s).push(0) + pad) + tail, false)
            == Decoded::Done((Datum::Text(s), tail)),
{
    let body = encode_utf8(s).push(0) + pad;
    let data = argument(AcpiArgumentType::String, body) + tail;
    lemma_argument(AcpiArgumentType::String, body, tail);
    law_padded_text(s, pad);
    assert(data.skip(4).take(body.len() as int) == body);
    assert(data.skip(4).skip(body.len() as int) == tail);
}

/// As many bytes behind a header of type 2 as it announces are the buffer.
pub proof fn law_buffer_decoded(data: Seq<u8>)
    requires
        data.len() >= 4,
        data[0] == 2,
        data[1] == 0,
        data[2] + 256 * data[3] <= data.len() - 4,
    ensures
        decode(data, false) == Decoded::Done(
            (
                Datum::Buffer(data.subrange(4, 4 + data[2] + 256 * data[3])),
                data.skip(4 + data[2] + 256 * data[3]),
            ),
        ),
{
    law_u16_read(data, 0);
    law_u16_read(data, 2);
    let length = data[2] + 256 * data[3];
    assert(data.skip(4).take(length) == data.subrange(4, 4 + length));
    assert(data.skip(4).skip(length) == data.skip(4 + length));
}

/// A package holds the values that take up all of the bytes behind its header, and leaves nothing.
pub proof fn law_package_decoded(data: Seq<u8>)
    requires
        data.len() >= 4,
        data[0] == 3,
        data[1] == 0,
        data[2] + 256 * data[3] <= data.len() - 4,
    ensures
        decode_to_end(data.skip(4), false) matches Decoded::Done(vs) ==> decode(data, false)
            == Decoded::Done((Datum::Package(vs), Seq::<u8>::empty())),
        decode_to_end(data.skip(4), false) matches Decoded::Refused(e) ==> decode(data, false)
            == Decoded::<(Datum, Seq<u8>)>::Refused(e),
        decode_to_end(data.skip(4), false) is Cut ==> decode(data, false) is Cut,
{
    law_u16_read(data, 0);
    law_u16_read(data, 2);
}

/// Values that take up all of the bytes are the first value and then those that take up all of what
/// it leaves. The first one that is refused or cut short decides. A value that takes up an odd
/// number of bytes moves what follows it between odd and even addresses.
pub proof fn law_values_to_the_end(data: Seq<u8>, odd: bool)
    ensures
        data.len() == 0 ==> decode_to_end(data, odd) == Decoded::Done(Seq::<Datum>::empty()),
        data.len() > 0 ==> match decode(data, odd) {
            Decoded::Cut => decode_to_end(data, odd) is Cut,
            Decoded::Refused(e) => decode_to_end(data, odd) == Decoded::<Seq<Datum>>::Refused(e),
            Decoded::Done((v, rest)) => {
                let moved = (data.len() - rest.len()) % 2 == 1;
                match decode_to_end(rest, odd != moved) {
                    Decoded::Cut => decode_to_end(data, odd) is Cut,
                    Decoded::Refused(e) => decode_to_end(data, odd) == Decoded::<Seq<Datum>>::Refused(
                        e,
                    ),
                    Decoded::Done(vs) => decode_to_end(data, odd) == Decoded::Done(seq![v] + vs),
                }
            },
        },
{
    lemma_decode_rest(data, odd);
}

/// Values in a known number are the first value and then one fewer from what it leaves. The first
/// one that is refused or cut short decides. No bytes are looked at for no values.
pub proof fn law_values_by_number(count: nat, data: Seq<u8>, odd: bool)
    ensures
        count == 0 ==> decode_count(count, data, odd) == Decoded::Done(Seq::<Datum>::empty()),
        count > 0 ==> match decode(data, odd) {
            Decoded::Cut => decode_count(count, data, odd) is Cut,
            Decoded::Refused(e) => decode_count(count, data, odd) == Decoded::<Seq<Datum>>::Refused(e),
            Decoded::Done((v, rest)) => {
                let moved = (data.len() - rest.len()) % 2 == 1;
                match decode_count((count - 1) as nat, rest, odd != moved) {
                    Decoded::Cut => decode_count(count, data, odd) is Cut,
                    Decoded::Refused(e) => decode_count(count, data, odd) == Decoded::<
                        Seq<Datum>,
                    >::Refused(e),
                    Decoded::Done(vs) => decode_count(count, data, odd) == Decoded::Done(
                        seq![v] + vs,
                    ),
                }
            },
        },
{
}

/// A first value that was decoded is the one that was wanted, with the bytes that were wanted behind
/// it; a refusal is the one that was wanted; and there is no result only where none was wanted.
pub proof fn law_first_value_outcome(
    got: Option<Result<(AcpiValue, &[u8]), AcpiParseError>>,
    want: Decoded<(Datum, Seq<u8>)>,
)
    ensures
        got matches Some(Ok((x, y))) ==> (is_first_value(got, want) <==> (want matches Decoded::Done(
            (v, rest),
        ) && v == x@ && rest == y@)),
        got matches Some(Err(e)) ==> (is_first_value(got, want) <==> (want matches Decoded::Refused(
            x,
        ) && x == e)),
        got is None ==> (is_first_value(got, want) <==> want is Cut),
{
}

/// Values that were decoded are those that were wanted; a refusal is the one that was wanted; and
/// there is no result only where none was wanted.
pub proof fn law_values_outcome(
    got: Option<Result<Vec<AcpiValue>, AcpiParseError>>,
    want: Decoded<Seq<Datum>>,
)
    ensures
        got matches Some(Ok(xs)) ==> (are_values(got, want) <==> (want matches Decoded::Done(vs)
            && vs.len() == xs@.len() && forall|i: int|
            0 <= i < vs.len() ==> #[trigger] vs[i] == xs@[i]@)),
        got matches Some(Err(e)) ==> (are_values(got, want) <==> (want matches Decoded::Refused(x)
            && x == e)),
        got is None ==> (are_values(got, want) <==> want is Cut),
{
    if let Some(Ok(xs)) = got {
        if let Decoded::Done(vs) = want {
            law_values_stand_for_themselves(xs@);
            if vs.len() == xs@.len() && forall|i: int|
                0 <= i < vs.len() ==> #[trigger] vs[i] == xs@[i]@ {
                assert(data_of(xs@) == vs);
            }
            if data_of(xs@) == vs {
                assert forall|i: int| 0 <= i < vs.len() implies #[trigger] vs[i] == xs@[i]@ by {
                    assert(data_of(xs@)[i] == xs@[i]@);
                }
            }
        }
    }
}

/// The sizes that the driver and the firmware set, and its status for success.
pub proof fn law_limits()
    ensures
        ACPI_MAX_ARGUMENTS == 7,
        ACPI_MAX_METHOD_NAME_LEN == 256,
        ACPI_EVAL_OUTPUT_HEADER_LEN == 12,
        OUTPUT_BUFFER_LEN == 1024,
        ERROR_SUCCESS == 0,
{
}

/// A request takes up to seven arguments and a name of up to 256 bytes, and nothing else limits it.
pub proof fn law_request_limits(name: Seq<char>, args: Seq<Datum>)
    ensures
        fits_request(name, args) <==> args.len() <= 7 && encode_utf8(name).len() <= 256,
{
}

/// There is a request where it has the room and no text holds the character zero, one without the
/// room is refused for its length, and there is no result otherwise.
pub proof fn law_request_outcome(
    got: Option<Result<Vec<u8>, AcpiParseError>>,
    name: Seq<char>,
    args: Seq<Datum>,
)
    ensures
        got matches Some(Ok(b)) ==> (is_request(got, name, args) <==> args.len() <= 7 && encode_utf8(
            name,
        ).len() <= 256 && all_nul_free(args) && b@ == request(name, args)),
        got matches Some(Err(e)) ==> (is_request(got, name, args) <==> !(args.len() <= 7
            && encode_utf8(name).len() <= 256) && e == AcpiParseError::InsufficientLength),
        got is None ==> (is_request(got, name, args) <==> args.len() <= 7 && encode_utf8(name).len()
            <= 256 && !all_nul_free(args)),
{
}

/// Arguments in a request stand one behind the other from byte 268 on.
pub proof fn law_request_arguments(name: Seq<char>, a: Seq<Datum>, v: Datum, b: Seq<Datum>)
    requires
        a.len() + 1 + b.len() <= 7,
        encode_utf8(name).len() <= 256,
    ensures
        ({
            let bytes = request(name, a + seq![v] + b);
            let start = 268 + encode_all(a).len() as int;
            let end = start + v.encode().len() as int;
            &&& bytes.subrange(268, start) == encode_all(a)
            &&& bytes.subrange(start, end) == v.encode()
            &&& bytes.skip(end) == encode_all(b)
        }),
{
    let args = a + seq![v] + b;
    let bytes = request(name, args);
    let start = 268 + encode_all(a).len() as int;
    let end = start + v.encode().len() as int;
    law_request_layout(name, args);
    law_values_on_wire(a, v, b);
    let whole = encode_all(a) + v.encode() + encode_all(b);
    assert(bytes.skip(268) == whole);
    assert(forall|i: int| 0 <= i < whole.len() ==> bytes[268 + i] == #[trigger] whole[i]);
    assert(bytes.len() == 268 + whole.len());
    assert(bytes.subrange(268, start) == encode_all(a)) by {
        assert forall|i: int| 0 <= i < encode_all(a).len() implies bytes[268 + i] == encode_all(
            a,
        )[i] by {
            assert(whole[i] == encode_all(a)[i]);
        }
    }
    assert(bytes.subrange(start, end) == v.encode()) by {
        assert forall|i: int| 0 <= i < v.encode().len() implies bytes[start + i] == v.encode()[i] by {
            assert(whole[encode_all(a).len() + i] == v.encode()[i]);
            assert(bytes[268 + (encode_all(a).len() + i)] == v.encode()[i]);
        }
    }
    assert(bytes.skip(end) == encode_all(b)) by {
        assert forall|i: int| 0 <= i < encode_all(b).len() implies bytes[end + i] == encode_all(
            b,
        )[i] by {
            let at = encode_all(a).len() + v.encode().len() + i;
            assert(whole[at] == encode_all(b)[i]);
            assert(bytes[268 + at] == encode_all(b)[i]);
        }
    }
}

/// The header of a reply is its first twelve bytes: the signature, the size of the results and
/// their number.
pub proof fn law_reply_header(data: Seq<u8>)
    requires
        data.len() >= 12,
    ensures
        ({
            let h = AcpiEvalOutputBufferV1Header::of(data);
            &&& h.signature == data[0] + 256 * data[1] + 0x1_0000 * data[2] + 0x100_0000 * data[3]
            &&& h.length == data[4] + 256 * data[5] + 0x1_0000 * data[6] + 0x100_0000 * data[7]
            &&& h.count == data[8] + 256 * data[9] + 0x1_0000 * data[10] + 0x100_0000 * data[11]
        }),
{
    law_u32_read(data, 0);
    law_u32_read(data, 4);
    law_u32_read(data, 8);
}

/// Behind a header that could be read, as many values are decoded as it says, from as many bytes as
/// it says. Too few bytes are refused for their length, and a header that could not be read as an
/// invalid format.
pub proof fn law_payload_decoded(
    header: Option<AcpiEvalOutputBufferV1Header>,
    payload: Seq<u8>,
)
    ensures
        header is None ==> decode_payload(header, payload) == Decoded::<Seq<Datum>>::Refused(
            AcpiParseError::InvalidFormat,
        ),
        header matches Some(h) ==> h.length > payload.len() ==> decode_payload(header, payload)
            == Decoded::<Seq<Datum>>::Refused(AcpiParseError::InsufficientLength),
        header matches Some(h) ==> h.length <= payload.len() ==> decode_payload(header, payload)
            == decode_count(h.count as nat, payload.subrange(0, h.length as int), false),
{
    if let Some(h) = header {
        if h.length <= payload.len() {
            assert(payload.subrange(0, h.length as int) == payload.take(h.length as int));
        }
    }
}

/// The results of a reply that could be read start at its thirteenth byte. Bytes 4 to 7 hold their
/// size and bytes 8 to 11 their number. A reply of fewer than twelve bytes is cut short.
pub proof fn law_response_decoded(data: Seq<u8>, aligned: bool)
    ensures
        data.len() < 12 ==> decode_response(data, aligned) is Cut,
        data.len() >= 12 && !aligned ==> decode_response(data, aligned) == Decoded::<
            Seq<Datum>,
        >::Refused(AcpiParseError::InvalidFormat),
        data.len() >= 12 && aligned ==> ({
            let length = data[4] + 256 * data[5] + 0x1_0000 * data[6] + 0x100_0000 * data[7];
            let count = data[8] + 256 * data[9] + 0x1_0000 * data[10] + 0x100_0000 * data[11];
            if length > data.len() - 12 {
                decode_response(data, aligned) == Decoded::<Seq<Datum>>::Refused(
                    AcpiParseError::InsufficientLength,
                )
            } else {
                decode_response(data, aligned) == decode_count(
                    count as nat,
                    data.subrange(12, 12 + length),
                    false,
                )
            }
        }),
{
    if data.len() >= 12 && aligned {
        law_reply_header(data);
        let h = AcpiEvalOutputBufferV1Header::of(data);
        law_payload_decoded(Some(h), data.skip(12));
        if h.length <= data.len() - 12 {
            assert(data.skip(12).subrange(0, h.length as int) == data.subrange(12, 12 + h.length));
        }
    }
}

/// The parts of a reply on the wire.
pub proof fn law_response_layout(signature: u32, vs: Seq<Datum>)
    requires
        encode_all(vs).len() < 0x1_0000_0000,
        vs.len() < 0x1_0000_0000,
    ensures
        ({
            let b = response(signature, vs);
            &&& b.len() == 12 + encode_all(vs).len()
            &&& b[0] + 256 * b[1] + 0x1_0000 * b[2] + 0x100_0000 * b[3] == signature
            &&& b[4] + 256 * b[5] + 0x1_0000 * b[6] + 0x100_0000 * b[7] == encode_all(vs).len()
            &&& b[8] + 256 * b[9] + 0x1_0000 * b[10] + 0x100_0000 * b[11] == vs.len()
            &&& b.skip(12) == encode_all(vs)
        }),
{
    let b = response(signature, vs);
    law_le32_value(signature);
    law_le32_value(encode_all(vs).len() as u32);
    law_le32_value(vs.len() as u32);
    assert(b.skip(12) == encode_all(vs));
}

/// An integer reads back, text and a buffer do where their length fits in sixteen bits, and a
/// package does where its values do.
pub proof fn law_which_values_read_back(v: Datum)
    ensures
        v is Integer ==> reads_back(v),
        v matches Datum::Text(s) ==> (reads_back(v) <==> encode_utf8(s).len() < 0xffff),
        v matches Datum::Buffer(b) ==> (reads_back(v) <==> b.len() <= 0xffff),
        v matches Datum::Package(vs) ==> (reads_back(v) <==> all_read_back(vs)),
{
}

/// Values read back where each of them does and each but the last is no package and takes up an even
/// number of bytes.
pub proof fn law_which_sequences_read_back(vs: Seq<Datum>)
    ensures
        all_read_back(vs) <==> {
            &&& forall|i: int| 0 <= i < vs.len() ==> reads_back(#[trigger] vs[i])
            &&& forall|i: int|
                0 <= i < vs.len() - 1 ==> !((#[trigger] vs[i]) is Package) && vs[i].encode().len() % 2
                    == 0
        },
    decreases vs.len(),
{
    if vs.len() > 0 {
        let later = vs.skip(1);
        law_which_sequences_read_back(later);
        assert(forall|i: int| 0 <= i < later.len() ==> #[trigger] later[i] == vs[i + 1]);
        if all_read_back(vs) {
            assert forall|i: int| 0 <= i < vs.len() implies reads_back(#[trigger] vs[i]) by {
                if i > 0 {
                    assert(later[i - 1] == vs[i]);
                }
            }
            assert forall|i: int| 0 <= i < vs.len() - 1 implies !((#[trigger] vs[i]) is Package)
                && vs[i].encode().len() % 2 == 0 by {
                if i > 0 {
                    assert(later[i - 1] == vs[i]);
                }
            }
        }
    }
}

/// A text that is read back with the value behind it takes up, with its zero, an even number of
/// bytes that fits in sixteen bits.
pub proof fn law_even_text(s: Seq<char>)
    ensures
        even_text(s) <==> (encode_utf8(s).len() + 1) % 2 == 0 && encode_utf8(s).len() + 1 <= 0xffff,
{
}

} // verus!
