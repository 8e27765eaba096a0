//! What holds of encoding and decoding together.
use vstd::prelude::*;
use vstd::utf8::{encode_utf8, encode_utf8_decode_utf8, encode_utf8_valid_utf8};
use crate::bytes::{le16, le32, lemma_le16_read, lemma_le32_read, u16_at, u32_at};
use crate::decode::{decode, decode_count, decode_to_end, joined, odd_after, Decoded};
use crate::error::{AcpiError, AcpiParseError};
use crate::evaluate::single_integer;
use crate::guid::{be64, Guid, Variable};
use crate::message::{decode_response, fits_request, method_name, request};
use crate::source::{battery_state, is_bix, variable_value, BixData, BstData};
use crate::text::{law_zero_byte_is_zero_character, lemma_terminator_unique, terminated_at, terminated_text};
use crate::value::{all_nul_free, argument, encode_all, AcpiArgumentType, Datum};

verus! {

/// The value is the one that its own encoding decodes to.
///
/// The length of text or of a buffer has to fit in sixteen bits, and so has the zero behind text.
pub open spec fn reads_back(v: Datum) -> bool
    decreases v,
{
    match v {
        Datum::Integer(_) => true,
        Datum::Text(s) => encode_utf8(s).len() + 1 < 0x1_0000,
        Datum::Buffer(b) => b.len() < 0x1_0000,
        Datum::Package(vs) => all_read_back(vs),
    }
}

/// The values are those that their own encoding decodes to.
///
/// Each value but the last has to leave the next header at an even address, and must not be a
/// package, which takes up all that follows it.
pub open spec fn all_read_back(vs: Seq<Datum>) -> bool
    decreases vs,
{
    if vs.len() == 0 {
        true
    } else {
        &&& reads_back(vs[0])
        &&& vs.len() > 1 ==> !(vs[0] is Package) && vs[0].encode().len() % 2 == 0
        &&& all_read_back(vs.skip(1))
    }
}

/// What the header of an argument says.
proof fn lemma_header(kind: AcpiArgumentType, body: Seq<u8>, tail: Seq<u8>)
    ensures
        ({
            let data = argument(kind, body) + tail;
            &&& data.len() == 4 + body.len() + tail.len()
            &&& u16_at(data, 0) == kind.spec_code()
            &&& u16_at(data, 2) == body.len() % 0x1_0000
            &&& data.skip(4) == body + tail
        }),
{
    let data = argument(kind, body) + tail;
    let length = (body.len() % 0x1_0000) as u16;
    assert(data.subrange(0, 2) == le16(kind.spec_code()));
    assert(data.subrange(2, 4) == le16(length));
    lemma_le16_read(kind.spec_code(), data, 0);
    lemma_le16_read(length, data, 2);
    assert(data.skip(4) == body + tail);
}

/// Text behind which a zero stands is read back where the zero is among the bytes, and refused
/// where it is not.
proof fn lemma_text(s: Seq<char>, n: int)
    requires
        !s.contains('\0'),
        0 <= n <= encode_utf8(s).len() + 1,
    ensures
        n == encode_utf8(s).len() + 1 ==> terminated_text(encode_utf8(s).push(0).take(n)) == Ok::<
            Seq<char>,
            crate::text::TextError,
        >(s),
        n <= encode_utf8(s).len() ==> terminated_text(encode_utf8(s).push(0).take(n)) is Err,
{
    let bytes = encode_utf8(s);
    let raw = bytes.push(0).take(n);
    law_zero_byte_is_zero_character(s);
    assert forall|j: int| 0 <= j < bytes.len() implies bytes[j] != 0 by {
        assert(bytes.contains(bytes[j]));
    }
    if n == bytes.len() + 1 {
        let at = bytes.len() as int;
        assert(terminated_at(raw, at));
        lemma_terminator_unique(raw, at, choose|m: int| terminated_at(raw, m));
        assert(raw.take(at) == bytes);
        encode_utf8_valid_utf8(s);
        encode_utf8_decode_utf8(s);
    } else {
        assert(forall|m: int| 0 <= m < raw.len() ==> raw[m] == bytes[m]);
    }
}

proof fn lemma_integer(i: u32, tail: Seq<u8>)
    ensures
        decode(Datum::Integer(i).encode() + tail, false) == Decoded::Done((Datum::Integer(i), tail)),
{
    let payload = le32(i) + tail;
    lemma_header(AcpiArgumentType::Integer, le32(i), tail);
    assert(payload.subrange(0, 4) == le32(i));
    lemma_le32_read(i, payload, 0);
    assert(payload.skip(4) == tail);
}

proof fn lemma_string(s: Seq<char>, tail: Seq<u8>)
    requires
        !s.contains('\0'),
    ensures
        decode(Datum::Text(s).encode() + tail, false) == if reads_back(Datum::Text(s)) {
            Decoded::Done((Datum::Text(s), tail))
        } else {
            Decoded::Refused(AcpiParseError::InvalidFormat)
        },
{
    let body = encode_utf8(s).push(0);
    let payload = body + tail;
    let length = (body.len() % 0x1_0000) as int;
    lemma_header(AcpiArgumentType::String, body, tail);
    assert(payload.take(length) == body.take(length));
    lemma_text(s, length);
    if length == body.len() {
        assert(payload.skip(length) == tail);
    }
}

proof fn lemma_buffer(b: Seq<u8>, tail: Seq<u8>)
    ensures
        ({
            let first = decode(Datum::Buffer(b).encode() + tail, false);
            if reads_back(Datum::Buffer(b)) {
                first == Decoded::Done((Datum::Buffer(b), tail))
            } else {
                first matches Decoded::Done((w, _)) && w != Datum::Buffer(b)
            }
        }),
{
    let payload = b + tail;
    let length = (b.len() % 0x1_0000) as int;
    lemma_header(AcpiArgumentType::Buffer, b, tail);
    if length == b.len() {
        assert(payload.take(length) == b);
        assert(payload.skip(length) == tail);
    } else {
        assert(payload.take(length).len() != b.len());
    }
}

/// What the encoding of a value decodes to, with more bytes behind it.
proof fn lemma_value(v: Datum, tail: Seq<u8>)
    requires
        v.nul_free(),
    ensures
        reads_back(v) && (v is Package ==> tail.len() == 0) ==> decode(v.encode() + tail, false)
            == Decoded::Done((v, tail)),
        !(reads_back(v) && (v is Package ==> tail.len() == 0)) ==> !(decode(
            v.encode() + tail,
            false,
        ) matches Decoded::Done((w, _)) && w == v),
    decreases v, 0int,
{
    match v {
        Datum::Integer(i) => {
            lemma_integer(i, tail);
        },
        Datum::Text(s) => {
            lemma_string(s, tail);
        },
        Datum::Buffer(b) => {
            lemma_buffer(b, tail);
        },
        Datum::Package(vs) => {
            assert(all_nul_free(vs));
            lemma_to_end(vs, tail);
            lemma_header(AcpiArgumentType::Package, encode_all(vs), tail);
            if tail.len() == 0 {
                assert(tail == Seq::<u8>::empty());
            }
        },
    }
}

/// A value takes up at least its header.
proof fn lemma_encode_len(v: Datum)
    ensures
        v.encode().len() >= 4,
{
}

/// What the encoding of values decodes to where they take up all of the bytes, or where more bytes
/// follow.
proof fn lemma_to_end(vs: Seq<Datum>, tail: Seq<u8>)
    requires
        all_nul_free(vs),
    ensures
        decode_to_end(encode_all(vs) + tail, false) == Decoded::Done(vs) <==> all_read_back(vs)
            && tail.len() == 0,
    decreases vs, 1int,
{
    if vs.len() == 0 {
        assert(vs == Seq::<Datum>::empty());
        assert(encode_all(vs) + tail == tail);
        if let Decoded::Done(ws) = decode_to_end(tail, false) {
            assert(tail.len() > 0 ==> ws.len() > 0);
        }
    } else {
        let v = vs[0];
        let later = vs.skip(1);
        let behind = encode_all(later) + tail;
        let data = encode_all(vs) + tail;
        assert(data == v.encode() + behind);
        assert(v.nul_free());
        assert forall|i: int| 0 <= i < later.len() implies (#[trigger] later[i]).nul_free() by {
            assert(later[i] == vs[i + 1]);
        }
        assert(all_nul_free(later));
        lemma_encode_len(v);
        lemma_value(v, behind);
        lemma_to_end(later, tail);
        if later.len() > 0 {
            lemma_encode_len(later[0]);
        }
        assert(vs == seq![v] + later);
        if reads_back(v) && (v is Package ==> behind.len() == 0) {
            let odd = odd_after(false, data.len() - behind.len());
            let more = decode_to_end(behind, odd);
            assert(decode_to_end(data, false) == joined(seq![v], more));
            if behind.len() == 0 {
                assert(later.len() == 0 && tail.len() == 0);
                assert(more == Decoded::Done(Seq::<Datum>::empty()));
                assert(later == Seq::<Datum>::empty());
                assert(all_read_back(vs));
            } else if odd {
                assert(!(decode(behind, true) is Done));
                assert(!(more is Done));
                assert(!(all_read_back(vs) && tail.len() == 0));
            } else {
                assert(more == Decoded::Done(later) <==> all_read_back(later) && tail.len() == 0);
                if let Decoded::Done(ws) = more {
                    assert((seq![v] + ws).skip(1) == ws);
                    assert(joined(seq![v], more) == Decoded::Done(vs) <==> ws == later);
                }
                assert(tail.len() == 0 ==> (all_read_back(vs) <==> all_read_back(later)));
            }
        } else {
            if let Decoded::Done(ws) = decode_to_end(data, false) {
                assert(ws[0] != v);
            }
        }
    }
}

/// What the encoding of values decodes to where their number is known.
proof fn lemma_count(vs: Seq<Datum>)
    requires
        all_nul_free(vs),
    ensures
        decode_count(vs.len(), encode_all(vs), false) == Decoded::Done(vs) <==> all_read_back(vs),
    decreases vs.len(),
{
    if vs.len() == 0 {
        assert(vs == Seq::<Datum>::empty());
    } else {
        let v = vs[0];
        let later = vs.skip(1);
        let behind = encode_all(later);
        let data = encode_all(vs);
        assert(v.nul_free());
        assert forall|i: int| 0 <= i < later.len() implies (#[trigger] later[i]).nul_free() by {
            assert(later[i] == vs[i + 1]);
        }
        assert(all_nul_free(later));
        lemma_encode_len(v);
        lemma_value(v, behind);
        lemma_count(later);
        if later.len() > 0 {
            lemma_encode_len(later[0]);
        }
        assert(vs == seq![v] + later);
        if reads_back(v) && (v is Package ==> behind.len() == 0) {
            let odd = odd_after(false, data.len() - behind.len());
            let more = decode_count(later.len(), behind, odd);
            assert(decode_count(vs.len(), data, false) == joined(seq![v], more));
            if later.len() == 0 {
                assert(more == Decoded::Done(Seq::<Datum>::empty()));
                assert(later == Seq::<Datum>::empty());
                assert(all_read_back(vs));
            } else if odd {
                assert(!(decode(behind, true) is Done));
                assert(!(more is Done));
                assert(!all_read_back(vs));
            } else {
                if let Decoded::Done(ws) = more {
                    assert((seq![v] + ws).skip(1) == ws);
                    assert(joined(seq![v], more) == Decoded::Done(vs) <==> ws == later);
                }
                assert(all_read_back(vs) <==> all_read_back(later));
            }
        } else {
            if let Decoded::Done(ws) = decode_count(vs.len(), data, false) {
                assert(ws[0] != v);
            }
        }
    }
}

/// What was encoded is what is decoded, and what follows it is left as it is. This holds of exactly
/// the values that [`reads_back`] names, and of a package only where nothing follows it.
pub proof fn law_value_reads_back(v: Datum, tail: Seq<u8>)
    requires
        v.nul_free(),
    ensures
        decode(v.encode() + tail, false) == Decoded::Done((v, tail)) <==> reads_back(v) && (
        v is Package ==> tail.len() == 0),
{
    lemma_value(v, tail);
}

/// The values that a reply was made of are those that are decoded from it, whatever its signature
/// is and whatever follows it. This holds of exactly the values that [`all_read_back`] names.
pub proof fn law_response_reads_back(signature: u32, vs: Seq<Datum>, spare: Seq<u8>)
    requires
        all_nul_free(vs),
        encode_all(vs).len() < 0x1_0000_0000,
    ensures
        decode_response(response(signature, vs) + spare, true) == Decoded::Done(vs)
            <==> all_read_back(vs),
{
    let data = response(signature, vs) + spare;
    let size = encode_all(vs).len() as u32;
    lemma_encode_all_len(vs);
    assert(data.subrange(4, 8) == le32(size));
    lemma_le32_read(size, data, 4);
    assert(data.subrange(8, 12) == le32(vs.len() as u32));
    lemma_le32_read(vs.len() as u32, data, 8);
    assert(data.skip(12).take(size as int) == encode_all(vs));
    lemma_count(vs);
}

/// A reply on the wire: a signature, the size of the values, their number, and the values.
pub open spec fn response(signature: u32, vs: Seq<Datum>) -> Seq<u8> {
    le32(signature) + le32(encode_all(vs).len() as u32) + le32(vs.len() as u32) + encode_all(vs)
}

/// Each value takes up at least its header.
proof fn lemma_encode_all_len(vs: Seq<Datum>)
    ensures
        encode_all(vs).len() >= 4 * vs.len(),
    decreases vs.len(),
{
    if vs.len() > 0 {
        lemma_encode_len(vs[0]);
        lemma_encode_all_len(vs.skip(1));
    }
}

/// The fields of a request stand at fixed places, and the arguments fill the rest of it.
pub proof fn law_request_layout(name: Seq<char>, args: Seq<Datum>)
    requires
        fits_request(name, args),
    ensures
        ({
            let bytes = request(name, args);
            let name_end = 4 + encode_utf8(name).len();
            &&& bytes.len() == 268 + encode_all(args).len()
            &&& bytes.take(4) == seq!['A' as u8, 'e' as u8, 'i' as u8, 'F' as u8]
            &&& bytes.subrange(4, name_end as int) == encode_utf8(name)
            &&& forall|i: int| name_end <= i < 260 ==> bytes[i] == 0
            &&& u32_at(bytes, 260) == encode_all(args).len() % 0x1_0000_0000
            &&& u32_at(bytes, 264) == args.len()
            &&& bytes.skip(268) == encode_all(args)
        }),
{
    let bytes = request(name, args);
    let size = (encode_all(args).len() % 0x1_0000_0000) as u32;
    let name_end = 4 + encode_utf8(name).len() as int;
    assert(method_name(name).len() == 256);
    assert(bytes.take(4) == seq!['A' as u8, 'e' as u8, 'i' as u8, 'F' as u8]);
    assert(bytes.subrange(4, name_end) == encode_utf8(name));
    assert(bytes.subrange(260, 264) == le32(size));
    lemma_le32_read(size, bytes, 260);
    assert(bytes.subrange(264, 268) == le32(args.len() as u32));
    lemma_le32_read(args.len() as u32, bytes, 264);
    assert(bytes.skip(268) == encode_all(args));
}

/// The arguments of a request are those that can be decoded from it. This holds of exactly the
/// arguments that [`all_read_back`] names.
pub proof fn law_request_reads_back(name: Seq<char>, args: Seq<Datum>)
    requires
        fits_request(name, args),
        all_nul_free(args),
    ensures
        decode_count(args.len(), request(name, args).skip(268), false) == Decoded::Done(args)
            <==> all_read_back(args),
{
    law_request_layout(name, args);
    lemma_count(args);
}

/// As many values are decoded from a reply as its header announces.
pub proof fn law_response_count(data: Seq<u8>, aligned: bool)
    ensures
        decode_response(data, aligned) matches Decoded::Done(vs) ==> vs.len() == u32_at(data, 8),
{
    if aligned && data.len() >= 12 {
        lemma_count_len(
            u32_at(data, 8) as nat,
            data.skip(12).take(u32_at(data, 4) as int),
            false,
        );
    }
}

proof fn lemma_count_len(count: nat, data: Seq<u8>, odd: bool)
    ensures
        decode_count(count, data, odd) matches Decoded::Done(vs) ==> vs.len() == count,
    decreases count,
{
    if count > 0 {
        if let Decoded::Done((_, rest)) = decode(data, odd) {
            lemma_count_len((count - 1) as nat, rest, odd_after(odd, data.len() - rest.len()));
        }
    }
}

/// Nothing but the announced size, the announced number and that many bytes behind the header
/// decides what a reply is decoded to: neither its signature nor what follows those bytes does.
pub proof fn law_response_rest_ignored(a: Seq<u8>, b: Seq<u8>, aligned: bool)
    requires
        a.len() >= 12 + u32_at(a, 4),
        b.len() >= 12 + u32_at(a, 4),
        a.subrange(4, 12 + u32_at(a, 4)) == b.subrange(4, 12 + u32_at(a, 4)),
    ensures
        decode_response(a, aligned) == decode_response(b, aligned),
{
    let end = 12 + u32_at(a, 4);
    let x = a.subrange(4, end);
    let y = b.subrange(4, end);
    assert forall|i: int| 4 <= i < end implies a[i] == b[i] by {
        assert(x[i - 4] == y[i - 4]);
    }
    assert(a.skip(12).take(u32_at(a, 4) as int) == b.skip(12).take(u32_at(a, 4) as int));
}

proof fn lemma_refusal(data: Seq<u8>, odd: bool)
    ensures
        decode(data, odd) matches Decoded::Refused(e) ==> !(e is EvaluationFailed),
    decreases data.len(), 0int,
{
    if data.len() >= 4 {
        lemma_refusal_to_end(data.skip(4), false);
    }
}

proof fn lemma_refusal_to_end(data: Seq<u8>, odd: bool)
    ensures
        decode_to_end(data, odd) matches Decoded::Refused(e) ==> !(e is EvaluationFailed),
    decreases data.len(), 1int,
{
    if data.len() > 0 {
        lemma_refusal(data, odd);
        if let Decoded::Done((_, rest)) = decode(data, odd) {
            if rest.len() < data.len() {
                lemma_refusal_to_end(rest, odd_after(odd, data.len() - rest.len()));
            }
        }
    }
}

proof fn lemma_refusal_count(count: nat, data: Seq<u8>, odd: bool)
    ensures
        decode_count(count, data, odd) matches Decoded::Refused(e) ==> !(e is EvaluationFailed),
    decreases count,
{
    if count > 0 {
        lemma_refusal(data, odd);
        if let Decoded::Done((_, rest)) = decode(data, odd) {
            lemma_refusal_count((count - 1) as nat, rest, odd_after(odd, data.len() - rest.len()));
        }
    }
}

/// Only the driver fails an evaluation: no reply is refused with that error.
pub proof fn law_no_reply_fails_evaluation(data: Seq<u8>, aligned: bool)
    ensures
        decode_response(data, aligned) matches Decoded::Refused(e) ==> !(e is EvaluationFailed),
{
    if aligned && data.len() >= 12 {
        lemma_refusal_count(u32_at(data, 8) as nat, data.skip(12).take(u32_at(data, 4) as int), false);
    }
}

/// A reply whose header cannot be read in place is refused as an invalid format, whatever it holds.
pub proof fn law_unaligned_response_refused(data: Seq<u8>)
    requires
        data.len() >= 12,
    ensures
        decode_response(data, false) == Decoded::<Seq<Datum>>::Refused(AcpiParseError::InvalidFormat),
{
}

/// A value behind an odd number of bytes is refused as an invalid format, whatever it holds.
pub proof fn law_odd_value_refused(data: Seq<u8>)
    requires
        data.len() >= 4,
    ensures
        decode(data, true) == Decoded::<(Datum, Seq<u8>)>::Refused(AcpiParseError::InvalidFormat),
{
}

/// Nothing follows a package.
pub proof fn law_package_takes_all(data: Seq<u8>, odd: bool)
    ensures
        decode(data, odd) matches Decoded::Done((v, rest)) ==> v is Package ==> rest.len() == 0,
{
}

proof fn lemma_be64_differ(x: u64, y: u64)
    requires
        be64(x) == be64(y),
    ensures
        x == y,
{
    let p = be64(x);
    let q = be64(y);
    assert(p[0] == q[0] && p[1] == q[1] && p[2] == q[2] && p[3] == q[3]);
    assert(p[4] == q[4] && p[5] == q[5] && p[6] == q[6] && p[7] == q[7]);
    assert(x == y) by (bit_vector)
        requires
            x / 0x100_0000_0000_0000 == y / 0x100_0000_0000_0000,
            x / 0x1_0000_0000_0000 % 256 == y / 0x1_0000_0000_0000 % 256,
            x / 0x100_0000_0000 % 256 == y / 0x100_0000_0000 % 256,
            x / 0x1_0000_0000 % 256 == y / 0x1_0000_0000 % 256,
            x / 0x100_0000 % 256 == y / 0x100_0000 % 256,
            x / 0x1_0000 % 256 == y / 0x1_0000 % 256,
            x / 0x100 % 256 == y / 0x100 % 256,
            x % 256 == y % 256,
    ;
}

/// Different identifiers have different bytes.
pub proof fn law_guid_bytes_differ(a: Guid, b: Guid)
    requires
        a.bytes_le() == b.bytes_le(),
    ensures
        a == b,
{
    let x = a.bytes_le();
    let y = b.bytes_le();
    assert(x.subrange(0, 4) == le32(a.data1) && y.subrange(0, 4) == le32(b.data1));
    lemma_le32_read(a.data1, x, 0);
    lemma_le32_read(b.data1, y, 0);
    assert(x.subrange(4, 6) == le16(a.data2) && y.subrange(4, 6) == le16(b.data2));
    lemma_le16_read(a.data2, x, 4);
    lemma_le16_read(b.data2, y, 4);
    assert(x.subrange(6, 8) == le16(a.data3) && y.subrange(6, 8) == le16(b.data3));
    lemma_le16_read(a.data3, x, 6);
    lemma_le16_read(b.data3, y, 6);
    assert(x.subrange(8, 16) == be64(a.data4) && y.subrange(8, 16) == be64(b.data4));
    lemma_be64_differ(a.data4, b.data4);
}

/// Different variables have different identifiers.
pub proof fn law_variables_differ(a: Variable, b: Variable)
    requires
        a.spec_guid() == b.spec_guid(),
    ensures
        a == b,
{
}

proof fn lemma_integers_read_back(vs: Seq<Datum>)
    requires
        forall|i: int| 0 <= i < vs.len() ==> (#[trigger] vs[i]) is Integer,
    ensures
        all_read_back(vs),
        all_nul_free(vs),
        encode_all(vs).len() == 8 * vs.len(),
    decreases vs.len(),
{
    if vs.len() > 0 {
        let later = vs.skip(1);
        assert forall|i: int| 0 <= i < later.len() implies (#[trigger] later[i]) is Integer by {
            assert(later[i] == vs[i + 1]);
        }
        lemma_integers_read_back(later);
        assert(vs[0] is Integer);
        assert(vs[0].encode().len() == 8);
        assert(reads_back(vs[0]));
    }
    assert forall|i: int| 0 <= i < vs.len() implies (#[trigger] vs[i]).nul_free() by {
        assert(vs[i] is Integer);
    }
}

/// A reply of one integer gives that integer.
pub proof fn law_single_integer_reply(signature: u32, value: u32, spare: Seq<u8>)
    ensures
        decode_response(response(signature, seq![Datum::Integer(value)]) + spare, true) matches
            Decoded::Done(vs) && single_integer(Ok(vs)) == Ok::<u32, AcpiError>(value),
{
    let vs = seq![Datum::Integer(value)];
    lemma_integers_read_back(vs);
    law_response_reads_back(signature, vs, spare);
}

/// A reply of a zero code and an integer gives that integer as the value of the variable; a reply
/// of another code gives that code as the error.
pub proof fn law_variable_reply(signature: u32, code: u32, value: u32, spare: Seq<u8>)
    ensures
        decode_response(
            response(signature, seq![Datum::Integer(code), Datum::Integer(value)]) + spare,
            true,
        ) matches Decoded::Done(vs) && variable_value(Ok(vs)) == if code == 0 {
            Ok::<u32, AcpiError>(value)
        } else {
            Err(AcpiError::ErrorCode(code))
        },
{
    let vs = seq![Datum::Integer(code), Datum::Integer(value)];
    lemma_integers_read_back(vs);
    law_response_reads_back(signature, vs, spare);
}

/// A reply of the four integers of a battery's state gives that state.
pub proof fn law_battery_state_reply(signature: u32, data: BstData, spare: Seq<u8>)
    ensures
        decode_response(
            response(
                signature,
                seq![
                    Datum::Integer(data.state),
                    Datum::Integer(data.rate),
                    Datum::Integer(data.capacity),
                    Datum::Integer(data.voltage),
                ],
            ) + spare,
            true,
        ) matches Decoded::Done(vs) && battery_state(Ok(vs)) == Ok::<BstData, AcpiError>(data),
{
    let vs = seq![
        Datum::Integer(data.state),
        Datum::Integer(data.rate),
        Datum::Integer(data.capacity),
        Datum::Integer(data.voltage),
    ];
    lemma_integers_read_back(vs);
    law_response_reads_back(signature, vs, spare);
}

/// Integers in front of values do not change whether those are read back.
proof fn lemma_behind_integers(a: Seq<Datum>, b: Seq<Datum>)
    requires
        b.len() > 0,
        forall|i: int| 0 <= i < a.len() ==> (#[trigger] a[i]) is Integer,
    ensures
        all_read_back(a + b) <==> all_read_back(b),
    decreases a.len(),
{
    if a.len() == 0 {
        assert(a + b == b);
    } else {
        let later = a.skip(1);
        assert forall|i: int| 0 <= i < later.len() implies (#[trigger] later[i]) is Integer by {
            assert(later[i] == a[i + 1]);
        }
        lemma_behind_integers(later, b);
        assert((a + b).skip(1) == later + b);
        assert((a + b)[0] == a[0]);
        assert(a[0] is Integer);
        assert(a[0].encode().len() == 8);
        assert(reads_back(a[0]));
    }
}

/// A text that is read back with the value behind it.
pub open spec fn even_text(s: Seq<char>) -> bool {
    encode_utf8(s).len() % 2 == 1 && encode_utf8(s).len() + 1 < 0x1_0000
}

/// A text in front of values is read back with them where its bytes and the zero behind them are
/// even in number and fit.
proof fn lemma_behind_text(s: Seq<char>, b: Seq<Datum>)
    requires
        b.len() > 0,
    ensures
        all_read_back(seq![Datum::Text(s)] + b) <==> even_text(s) && all_read_back(b),
{
    let vs = seq![Datum::Text(s)] + b;
    assert(vs.skip(1) == b);
    assert(vs[0] == Datum::Text(s));
    assert(vs[0].encode().len() == 4 + encode_utf8(s).len() + 1);
    assert(reads_back(vs[0]) <==> encode_utf8(s).len() + 1 < 0x1_0000);
    assert(vs.len() > 1);
}

/// A reply of what is known of a battery gives just that where each of its four texts, with the
/// zero behind it, is even in size and fits in sixteen bits, and not otherwise.
pub proof fn law_battery_information_reply(signature: u32, data: BixData, spare: Seq<u8>)
    requires
        all_nul_free(data@),
        encode_all(data@).len() < 0x1_0000_0000,
    ensures
        is_bix(data@),
        decode_response(response(signature, data@) + spare, true) == Decoded::Done(data@) <==> (
        even_text(data.model_number@) && even_text(data.serial_number@) && even_text(
            data.battery_type@,
        ) && even_text(data.oem_info@)),
{
    let vs = data@;
    let swap: Seq<Datum> = seq![Datum::Integer(data.swap_cap)];
    let oem = seq![Datum::Text(data.oem_info@)] + swap;
    let kind = seq![Datum::Text(data.battery_type@)] + oem;
    let serial = seq![Datum::Text(data.serial_number@)] + kind;
    let model = seq![Datum::Text(data.model_number@)] + serial;
    assert(vs == vs.take(16) + model);
    assert forall|i: int| 0 <= i < 16 implies (#[trigger] vs.take(16)[i]) is Integer by {
        assert(vs[i] is Integer);
    }
    lemma_behind_integers(vs.take(16), model);
    lemma_behind_text(data.model_number@, serial);
    lemma_behind_text(data.serial_number@, kind);
    lemma_behind_text(data.battery_type@, oem);
    lemma_behind_text(data.oem_info@, swap);
    lemma_integers_read_back(swap);
    law_response_reads_back(signature, vs, spare);
}

} // verus!
