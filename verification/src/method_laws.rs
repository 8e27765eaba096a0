//! What the methods of the controller are called with, and what their results mean.
use vstd::prelude::*;
use vstd::utf8::encode_utf8;
use crate::bytes::{le16, le32, u32_at};
use crate::decode::Decoded;
use crate::error::{decimal, digits, AcpiError, AcpiParseError};
use crate::evaluate::{outcome, single_integer, MethodCall};
use crate::format_laws::{
    law_buffer_on_wire, law_guid_layout, law_integer_on_wire, law_values_on_wire,
    law_values_stand_for_themselves,
};
use crate::guid::{be64, Guid, Variable};
use crate::laws::{
    all_read_back, law_request_layout, law_response_reads_back, reads_back, response,
};
use crate::message::{decode_response, request};
use crate::rtc::single_buffer;
use crate::source::{
    battery_state, is_bix, variable_value, variable_was_set, BixData, BstData, Threshold,
};
use crate::value::{all_nul_free, data_of, encode_all, AcpiValue, Datum};

verus! {

/// A call evaluates the method that it names with the arguments that it holds, in their order, where
/// they can be requested.
pub proof fn law_call_names_its_method(call: MethodCall, name: Seq<char>, args: Seq<Datum>)
    ensures
        call.evaluates(name, args) <==> {
            &&& call.name@ == name
            &&& call.args@.len() == args.len()
            &&& forall|i: int| 0 <= i < args.len() ==> #[trigger] args[i] == call.args@[i]@
            &&& args.len() <= 7
            &&& encode_utf8(name).len() <= 256
            &&& forall|i: int| 0 <= i < args.len() ==> (#[trigger] args[i]).nul_free()
        },
{
    let held = data_of(call.args@);
    law_values_stand_for_themselves(call.args@);
    if call.args@.len() == args.len() && forall|i: int|
        0 <= i < args.len() ==> #[trigger] args[i] == call.args@[i]@ {
        assert(held == args);
    }
    if held == args {
        assert forall|i: int| 0 <= i < args.len() implies #[trigger] args[i] == call.args@[i]@ by {
            assert(held[i] == call.args@[i]@);
        }
    }
}

/// What an evaluation gave is the values that came, in their order, or the error.
pub proof fn law_outcome(output: Result<Vec<AcpiValue>, AcpiParseError>)
    ensures
        output matches Err(e) ==> (outcome(output) matches Err(x) && x == e),
        output matches Ok(values) ==> (outcome(output) matches Ok(vs) && vs.len() == values@.len()
            && forall|i: int| 0 <= i < vs.len() ==> #[trigger] vs[i] == values@[i]@),
{
}

/// An evaluation that failed gives no result, and its error is handed on by every method.
pub proof fn law_failed_evaluation(e: AcpiParseError)
    ensures
        single_integer(Err(e)) == Err::<u32, AcpiError>(AcpiError::Evaluation(e)),
        variable_value(Err(e)) == Err::<u32, AcpiError>(AcpiError::Evaluation(e)),
        variable_was_set(Err(e)) == Err::<(), AcpiError>(AcpiError::Evaluation(e)),
        battery_state(Err(e)) == Err::<BstData, AcpiError>(AcpiError::Evaluation(e)),
        single_buffer(Err(e)) == Err::<Seq<u8>, AcpiError>(AcpiError::Evaluation(e)),
{
}

/// A single integer is the result, whatever it is.
pub proof fn law_integer_is_the_result(value: u32)
    ensures
        single_integer(Ok(seq![Datum::Integer(value)])) == Ok::<u32, AcpiError>(value),
{
}

/// Anything but a single integer is an error, which says how many values came where that is not one.
pub proof fn law_no_single_integer(vs: Seq<Datum>)
    requires
        !(vs.len() == 1 && vs[0] is Integer),
        vs.len() <= usize::MAX,
    ensures
        vs.len() == 1 ==> single_integer(Ok(vs)) == Err::<u32, AcpiError>(AcpiError::NotAnInteger),
        vs.len() != 1 ==> (single_integer(Ok(vs)) matches Err(AcpiError::UnexpectedCount(n)) && n
            == vs.len()),
{
}

/// Reading a variable gives the second of two integers exactly where the first is zero, and the
/// first as the error code otherwise.
pub proof fn law_variable_read(code: u32, value: u32)
    ensures
        code == 0 ==> variable_value(Ok(seq![Datum::Integer(code), Datum::Integer(value)])) == Ok::<
            u32,
            AcpiError,
        >(value),
        code != 0 ==> variable_value(Ok(seq![Datum::Integer(code), Datum::Integer(value)])) == Err::<
            u32,
            AcpiError,
        >(AcpiError::ErrorCode(code)),
{
}

/// Reading a variable recognizes nothing but two integers.
pub proof fn law_variable_unrecognized(vs: Seq<Datum>)
    requires
        !(vs.len() == 2 && vs[0] is Integer && vs[1] is Integer),
    ensures
        variable_value(Ok(vs)) == Err::<u32, AcpiError>(AcpiError::Unrecognized),
{
}

/// A variable was set exactly where the code that came is zero; any other code is the error.
pub proof fn law_variable_set(code: u32)
    ensures
        variable_was_set(Ok(seq![Datum::Integer(code)])) is Ok <==> code == 0,
        code != 0 ==> variable_was_set(Ok(seq![Datum::Integer(code)])) == Err::<(), AcpiError>(
            AcpiError::ErrorCode(code),
        ),
{
}

/// Anything but a single integer does not tell that a variable was set.
pub proof fn law_variable_set_unrecognized(vs: Seq<Datum>)
    requires
        !(vs.len() == 1 && vs[0] is Integer),
        vs.len() <= usize::MAX,
    ensures
        vs.len() == 1 ==> variable_was_set(Ok(vs)) == Err::<(), AcpiError>(AcpiError::NotAnInteger),
        vs.len() != 1 ==> (variable_was_set(Ok(vs)) matches Err(AcpiError::UnexpectedCount(n)) && n
            == vs.len()),
{
}

/// The state of a battery is four integers: the charge state, the rate, the capacity and the
/// voltage.
pub proof fn law_battery_state_read(state: u32, rate: u32, capacity: u32, voltage: u32)
    ensures
        battery_state(
            Ok(
                seq![
                    Datum::Integer(state),
                    Datum::Integer(rate),
                    Datum::Integer(capacity),
                    Datum::Integer(voltage),
                ],
            ),
        ) matches Ok(d) && d.state == state && d.rate == rate && d.capacity == capacity && d.voltage
            == voltage,
{
}

/// Nothing but four integers is the state of a battery.
pub proof fn law_battery_state_unrecognized(vs: Seq<Datum>)
    requires
        !(vs.len() == 4 && vs[0] is Integer && vs[1] is Integer && vs[2] is Integer
            && vs[3] is Integer),
    ensures
        battery_state(Ok(vs)) == Err::<BstData, AcpiError>(AcpiError::Unrecognized),
{
}

/// Each field of a battery's data is the value at its own place.
pub proof fn law_battery_information_places(data: BixData, vs: Seq<Datum>)
    requires
        data@ == vs,
    ensures
        vs.len() == 21,
        vs[0] == Datum::Integer(data.revision),
        vs[1] == Datum::Integer(data.power_unit),
        vs[2] == Datum::Integer(data.design_capacity),
        vs[3] == Datum::Integer(data.last_full_capacity),
        vs[4] == Datum::Integer(data.battery_technology),
        vs[5] == Datum::Integer(data.design_voltage),
        vs[6] == Datum::Integer(data.warning_capacity),
        vs[7] == Datum::Integer(data.low_capacity),
        vs[8] == Datum::Integer(data.cycle_count),
        vs[9] == Datum::Integer(data.accuracy),
        vs[10] == Datum::Integer(data.max_sample_time),
        vs[11] == Datum::Integer(data.min_sample_time),
        vs[12] == Datum::Integer(data.max_average_interval),
        vs[13] == Datum::Integer(data.min_average_interval),
        vs[14] == Datum::Integer(data.capacity_gran1),
        vs[15] == Datum::Integer(data.capacity_gran2),
        vs[16] == Datum::Text(data.model_number@),
        vs[17] == Datum::Text(data.serial_number@),
        vs[18] == Datum::Text(data.battery_type@),
        vs[19] == Datum::Text(data.oem_info@),
        vs[20] == Datum::Integer(data.swap_cap),
{
}

/// A battery's data is told by the types of twenty-one values alone: sixteen integers, four texts
/// and an integer.
pub proof fn law_battery_information_types(vs: Seq<Datum>)
    ensures
        is_bix(vs) <==> {
            &&& vs.len() == 21
            &&& forall|i: int|
                0 <= i < 21 ==> if 16 <= i < 20 {
                    (#[trigger] vs[i]) is Text
                } else {
                    vs[i] is Integer
                }
        },
{
    if vs.len() == 21 && forall|i: int|
        0 <= i < 21 ==> if 16 <= i < 20 {
            (#[trigger] vs[i]) is Text
        } else {
            vs[i] is Integer
        } {
        assert(vs[20] is Integer);
    }
}

/// The bytes of a single buffer are the time stamp, unchanged.
pub proof fn law_buffer_is_the_time(b: Seq<u8>)
    ensures
        single_buffer(Ok(seq![Datum::Buffer(b)])) == Ok::<Seq<u8>, AcpiError>(b),
{
}

/// Nothing but a single buffer is a time stamp.
pub proof fn law_time_unrecognized(vs: Seq<Datum>)
    requires
        !(vs.len() == 1 && vs[0] is Buffer),
    ensures
        single_buffer(Ok(vs)) == Err::<Seq<u8>, AcpiError>(AcpiError::Unrecognized),
{
}

/// A single value takes up its own bytes.
proof fn lemma_one_on_wire(v: Datum)
    ensures
        encode_all(seq![v]) == v.encode(),
{
    let none = Seq::<Datum>::empty();
    law_values_on_wire(none, v, none);
    assert(none + seq![v] + none == seq![v]);
    assert(Seq::<u8>::empty() + v.encode() + Seq::<u8>::empty() == v.encode());
}

/// A reply of one buffer gives just that buffer as the time stamp.
pub proof fn law_time_reply(signature: u32, b: Seq<u8>, spare: Seq<u8>)
    requires
        b.len() < 0x1_0000,
    ensures
        decode_response(response(signature, seq![Datum::Buffer(b)]) + spare, true) matches
            Decoded::Done(vs) && single_buffer(Ok(vs)) == Ok::<Seq<u8>, AcpiError>(b),
{
    let vs = seq![Datum::Buffer(b)];
    lemma_one_on_wire(vs[0]);
    law_buffer_on_wire(b, Seq::<u8>::empty());
    assert(vs[0].encode() + Seq::<u8>::empty() == vs[0].encode());
    assert(vs.skip(1) == Seq::<Datum>::empty());
    assert(all_nul_free(vs)) by {
        assert(forall|i: int| 0 <= i < vs.len() ==> (#[trigger] vs[i]) is Buffer);
    }
    reveal_with_fuel(all_read_back, 2);
    assert(reads_back(vs[0]));
    law_response_reads_back(signature, vs, spare);
}

/// A reply of one code tells that a variable was set exactly where the code is zero, and gives any
/// other code as the error.
pub proof fn law_variable_set_reply(signature: u32, code: u32, spare: Seq<u8>)
    ensures
        decode_response(response(signature, seq![Datum::Integer(code)]) + spare, true) matches
            Decoded::Done(vs) && (variable_was_set(Ok(vs)) is Ok <==> code == 0) && (code != 0
            ==> variable_was_set(Ok(vs)) == Err::<(), AcpiError>(AcpiError::ErrorCode(code))),
{
    let vs = seq![Datum::Integer(code)];
    lemma_one_on_wire(vs[0]);
    law_integer_on_wire(code, Seq::<u8>::empty());
    assert(vs[0].encode() + Seq::<u8>::empty() == vs[0].encode());
    assert(vs.skip(1) == Seq::<Datum>::empty());
    assert(all_nul_free(vs)) by {
        assert(forall|i: int| 0 <= i < vs.len() ==> (#[trigger] vs[i]) is Integer);
    }
    reveal_with_fuel(all_read_back, 2);
    assert(reads_back(vs[0]));
    law_response_reads_back(signature, vs, spare);
}

/// The request of a method that takes one integer ends in a header of type 0 and length 4 and the
/// integer, the least significant byte first.
#[verifier::spinoff_prover]
pub proof fn law_integer_request(name: Seq<char>, value: u32)
    requires
        encode_utf8(name).len() <= 256,
    ensures
        ({
            let b = request(name, seq![Datum::Integer(value)]);
            &&& b.len() == 276
            &&& b.subrange(260, 268) == seq![8u8, 0, 0, 0, 1, 0, 0, 0]
            &&& b.subrange(268, 272) == seq![0u8, 0, 4, 0]
            &&& b[272] + 256 * b[273] + 0x1_0000 * b[274] + 0x100_0000 * b[275] == value
        }),
{
    let v = Datum::Integer(value);
    let b = request(name, seq![v]);
    let e = v.encode();
    lemma_one_on_wire(v);
    law_integer_on_wire(value, Seq::<u8>::empty());
    assert(e + Seq::<u8>::empty() == e);
    lemma_arguments(name, seq![v], e);
    assert(b.subrange(268, 272) == b.skip(268).take(4));
    assert(b[272] == e[4] && b[273] == e[5] && b[274] == e[6] && b[275] == e[7]) by {
        let last = b.skip(268);
        assert(last[4] == b[272] && last[5] == b[273] && last[6] == b[274] && last[7] == b[275]);
    }
}

/// The request of a method without arguments ends behind its header, which says so.
pub proof fn law_plain_request(name: Seq<char>)
    requires
        encode_utf8(name).len() <= 256,
    ensures
        ({
            let b = request(name, Seq::<Datum>::empty());
            &&& b.len() == 268
            &&& b.subrange(260, 268) == seq![0u8, 0, 0, 0, 0, 0, 0, 0]
        }),
{
    lemma_arguments(name, Seq::<Datum>::empty(), Seq::<u8>::empty());
}

/// The bytes of a number that fits in one.
proof fn lemma_small_dword(b: Seq<u8>, at: int, x: u32)
    requires
        0 <= at,
        at + 4 <= b.len(),
        x < 256,
        u32_at(b, at) == x,
    ensures
        b[at] == x,
        b[at + 1] == 0,
        b[at + 2] == 0,
        b[at + 3] == 0,
{
}

/// The bytes of two numbers that each fit in one.
proof fn lemma_small_dwords(b: Seq<u8>, at: int, x: u8, y: u8)
    requires
        0 <= at,
        at + 8 <= b.len(),
        u32_at(b, at) == x,
        u32_at(b, at + 4) == y,
    ensures
        b.subrange(at, at + 8) == seq![x, 0, 0, 0, y, 0, 0, 0],
{
    lemma_small_dword(b, at, x as u32);
    lemma_small_dword(b, at + 4, y as u32);
    assert(b.subrange(at, at + 8) == seq![x, 0, 0, 0, y, 0, 0, 0]);
}

/// The arguments of a request from byte 268 on, with their size and their number before them.
#[verifier::spinoff_prover]
#[verifier::rlimit(40)]
proof fn lemma_arguments(name: Seq<char>, args: Seq<Datum>, whole: Seq<u8>)
    requires
        encode_utf8(name).len() <= 256,
        args.len() <= 7,
        encode_all(args) == whole,
        whole.len() < 256,
    ensures
        ({
            let b = request(name, args);
            &&& b.len() == 268 + whole.len()
            &&& b.subrange(260, 268) == seq![whole.len() as u8, 0, 0, 0, args.len() as u8, 0, 0, 0]
            &&& b.skip(268) == whole
        }),
{
    let b = request(name, args);
    let (size, count) = (whole.len() as u8, args.len() as u8);
    assert(size == whole.len() && count == args.len());
    assert(u32_at(b, 260) == size && u32_at(b, 264) == count && b.len() == 268 + whole.len() && b.skip(
        268,
    ) == whole) by {
        law_request_layout(name, args);
    }
    lemma_small_dwords(b, 260, size, count);
}

/// The bytes of the integer 1.
proof fn lemma_one()
    ensures
        Datum::Integer(1).encode() == seq![0u8, 0, 4, 0, 1, 0, 0, 0],
{
    let none = Seq::<u8>::empty();
    let one = Datum::Integer(1).encode();
    law_integer_on_wire(1, none);
    assert(one + none == one);
    lemma_small_dword(one, 4, 1);
    let head = one.take(4);
    assert(one[0] == head[0] && one[1] == head[1] && one[2] == head[2] && one[3] == head[3]);
    assert(one == seq![0u8, 0, 4, 0, 1, 0, 0, 0]);
}

/// The bytes of a buffer of sixteen.
proof fn lemma_sixteen(id: Seq<u8>)
    requires
        id.len() == 16,
    ensures
        Datum::Buffer(id).encode() == seq![2u8, 0, 16, 0] + id,
{
    let none = Seq::<u8>::empty();
    let e = Datum::Buffer(id).encode();
    law_buffer_on_wire(id, none);
    assert(e + none == e);
    assert(e == e.take(4) + e.subrange(4, 20));
    assert(e.take(4) == seq![2u8, 0, 16, 0]);
}

/// The bytes of the integer 1 and a buffer of sixteen bytes.
proof fn lemma_identified(id: Seq<u8>)
    requires
        id.len() == 16,
    ensures
        encode_all(seq![Datum::Integer(1), Datum::Buffer(id)]) == seq![
            0u8,
            0,
            4,
            0,
            1,
            0,
            0,
            0,
            2,
            0,
            16,
            0,
        ] + id,
{
    let none = Seq::<Datum>::empty();
    let (one, key) = (Datum::Integer(1), Datum::Buffer(id));
    lemma_one();
    lemma_sixteen(id);
    law_values_on_wire(seq![one], key, none);
    lemma_one_on_wire(one);
    assert(seq![one] + seq![key] + none == seq![one, key]);
    assert(encode_all(seq![one, key]) == one.encode() + key.encode());
    assert(one.encode() + key.encode() == seq![0u8, 0, 4, 0, 1, 0, 0, 0, 2, 0, 16, 0] + id);
}

#[verifier::spinoff_prover]
proof fn lemma_read_request(name: Seq<char>, id: Seq<u8>)
    requires
        encode_utf8(name).len() <= 256,
        id.len() == 16,
    ensures
        ({
            let b = request(name, seq![Datum::Integer(1), Datum::Buffer(id)]);
            &&& b.len() == 296
            &&& b.subrange(260, 268) == seq![28u8, 0, 0, 0, 2, 0, 0, 0]
            &&& b.subrange(268, 280) == seq![0u8, 0, 4, 0, 1, 0, 0, 0, 2, 0, 16, 0]
            &&& b.subrange(280, 296) == id
        }),
{
    let args = seq![Datum::Integer(1), Datum::Buffer(id)];
    let b = request(name, args);
    let head = seq![0u8, 0, 4, 0, 1, 0, 0, 0, 2, 0, 16, 0];
    let whole = head + id;
    lemma_identified(id);
    lemma_arguments(name, args, whole);
    assert(b.subrange(268, 280) == b.skip(268).take(12));
    assert(whole.take(12) == head);
    assert(b.subrange(280, 296) == b.skip(268).skip(12));
    assert(whole.skip(12) == id);
}

/// The request that reads a variable takes the integer 1 and the sixteen bytes of the identifier.
#[verifier::spinoff_prover]
pub proof fn law_read_variable_request(name: Seq<char>, guid: Guid)
    requires
        encode_utf8(name).len() <= 256,
    ensures
        ({
            let b = request(name, seq![Datum::Integer(1), Datum::Buffer(guid.bytes_le())]);
            &&& b.len() == 296
            &&& b.subrange(260, 268) == seq![28u8, 0, 0, 0, 2, 0, 0, 0]
            &&& b.subrange(268, 280) == seq![0u8, 0, 4, 0, 1, 0, 0, 0, 2, 0, 16, 0]
            &&& b.subrange(280, 296) == guid.bytes_le()
        }),
{
    law_guid_layout(guid);
    lemma_read_request(name, guid.bytes_le());
}

#[verifier::spinoff_prover]
proof fn lemma_set_request(name: Seq<char>, id: Seq<u8>, value: u32)
    requires
        encode_utf8(name).len() <= 256,
        id.len() == 16,
    ensures
        ({
            let b = request(
                name,
                seq![Datum::Integer(1), Datum::Buffer(id), Datum::Integer(value)],
            );
            &&& b.len() == 304
            &&& b.subrange(260, 268) == seq![36u8, 0, 0, 0, 3, 0, 0, 0]
            &&& b.subrange(268, 280) == seq![0u8, 0, 4, 0, 1, 0, 0, 0, 2, 0, 16, 0]
            &&& b.subrange(280, 296) == id
            &&& b.subrange(296, 304) == Datum::Integer(value).encode()
        }),
{
    let none = Seq::<Datum>::empty();
    let first = seq![Datum::Integer(1), Datum::Buffer(id)];
    let new = Datum::Integer(value);
    let args = seq![Datum::Integer(1), Datum::Buffer(id), new];
    let b = request(name, args);
    let head = seq![0u8, 0, 4, 0, 1, 0, 0, 0, 2, 0, 16, 0];
    let e = new.encode();
    let whole = head + id + e;
    lemma_identified(id);
    law_values_on_wire(first, new, none);
    assert(first + seq![new] + none == args);
    assert(encode_all(args) == whole);
    law_integer_on_wire(value, Seq::<u8>::empty());
    assert(e + Seq::<u8>::empty() == e);
    lemma_arguments(name, args, whole);
    assert(b.subrange(268, 280) == b.skip(268).take(12));
    assert(whole.take(12) == head);
    assert(b.subrange(280, 296) == b.skip(268).subrange(12, 28));
    assert(whole.subrange(12, 28) == id);
    assert(b.subrange(296, 304) == b.skip(268).skip(28));
    assert(whole.skip(28) == e);
}

/// The request that sets a variable takes the integer 1, the sixteen bytes of the identifier, and
/// the variable's new value, the least significant byte first.
#[verifier::spinoff_prover]
pub proof fn law_set_variable_request(name: Seq<char>, guid: Guid, value: u32)
    requires
        encode_utf8(name).len() <= 256,
    ensures
        ({
            let b = request(
                name,
                seq![Datum::Integer(1), Datum::Buffer(guid.bytes_le()), Datum::Integer(value)],
            );
            &&& b.len() == 304
            &&& b.subrange(260, 268) == seq![36u8, 0, 0, 0, 3, 0, 0, 0]
            &&& b.subrange(268, 280) == seq![0u8, 0, 4, 0, 1, 0, 0, 0, 2, 0, 16, 0]
            &&& b.subrange(280, 296) == guid.bytes_le()
            &&& b.subrange(296, 300) == seq![0u8, 0, 4, 0]
            &&& b[300] + 256 * b[301] + 0x1_0000 * b[302] + 0x100_0000 * b[303] == value
        }),
{
    let id = guid.bytes_le();
    let b = request(name, seq![Datum::Integer(1), Datum::Buffer(id), Datum::Integer(value)]);
    let e = Datum::Integer(value).encode();
    law_guid_layout(guid);
    lemma_set_request(name, id, value);
    law_integer_on_wire(value, Seq::<u8>::empty());
    assert(e + Seq::<u8>::empty() == e);
    let last = b.subrange(296, 304);
    assert(b.subrange(296, 300) == last.take(4));
    assert(b[300] == last[4] && b[301] == last[5] && b[302] == last[6] && b[303] == last[7]);
}

/// Each threshold is kept in its own variable: where the fan starts, where it starts to ramp up, and
/// where it runs at its highest speed.
pub proof fn law_threshold_variables(threshold: Threshold)
    ensures
        threshold is On <==> threshold.spec_variable() is FanOnTemp,
        threshold is Ramping <==> threshold.spec_variable() is FanRampTemp,
        threshold is Max <==> threshold.spec_variable() is FanMaxTemp,
{
}

/// The bytes of a sixty-four-bit number are those that add up to it.
proof fn lemma_be64_bytes(x: u64, b: Seq<u8>)
    requires
        b.len() == 8,
        x == 0x100_0000_0000_0000 * b[0] + 0x1_0000_0000_0000 * b[1] + 0x100_0000_0000 * b[2]
            + 0x1_0000_0000 * b[3] + 0x100_0000 * b[4] + 0x1_0000 * b[5] + 0x100 * b[6] + b[7],
    ensures
        be64(x) == b,
{
    let (b0, b1, b2, b3) = (b[0], b[1], b[2], b[3]);
    let (b4, b5, b6, b7) = (b[4], b[5], b[6], b[7]);
    assert(x / 0x100_0000_0000_0000 == b0 && x / 0x1_0000_0000_0000 % 256 == b1 && x
        / 0x100_0000_0000 % 256 == b2 && x / 0x1_0000_0000 % 256 == b3 && x / 0x100_0000 % 256 == b4
        && x / 0x1_0000 % 256 == b5 && x / 0x100 % 256 == b6 && x % 256 == b7) by (bit_vector)
        requires
            x == 0x100_0000_0000_0000 * b0 + 0x1_0000_0000_0000 * b1 + 0x100_0000_0000 * b2
                + 0x1_0000_0000 * b3 + 0x100_0000 * b4 + 0x1_0000 * b5 + 0x100 * b6 + b7,
    ;
    assert(be64(x) == b);
}

/// The bytes of a thirty-two-bit number are those that add up to it.
proof fn lemma_le32_bytes(x: u32, b: Seq<u8>)
    requires
        b.len() == 4,
        x == b[0] + 256 * b[1] + 0x1_0000 * b[2] + 0x100_0000 * b[3],
    ensures
        le32(x) == b,
{
    let (b0, b1, b2, b3) = (b[0], b[1], b[2], b[3]);
    assert(x % 256 == b0 && x / 0x100 % 256 == b1 && x / 0x1_0000 % 256 == b2 && x / 0x100_0000
        == b3) by (bit_vector)
        requires
            x == b0 + 256 * b1 + 0x1_0000 * b2 + 0x100_0000 * b3,
    ;
    assert(le32(x) == b);
}

/// The bytes of a sixteen-bit number are those that add up to it.
proof fn lemma_le16_bytes(x: u16, b: Seq<u8>)
    requires
        b.len() == 2,
        x == b[0] + 256 * b[1],
    ensures
        le16(x) == b,
{
    assert(le16(x) == b);
}

/// Four parts make up the whole that they were taken from.
proof fn lemma_parts(b: Seq<u8>, i: int, j: int, k: int)
    requires
        0 <= i <= j <= k <= b.len(),
    ensures
        b.take(i) + b.subrange(i, j) + b.subrange(j, k) + b.skip(k) == b,
{
}

/// The bytes of an identifier are those that add up to its fields.
proof fn lemma_guid_bytes(guid: Guid, b: Seq<u8>)
    requires
        b.len() == 16,
        guid.data1 == b[0] + 256 * b[1] + 0x1_0000 * b[2] + 0x100_0000 * b[3],
        guid.data2 == b[4] + 256 * b[5],
        guid.data3 == b[6] + 256 * b[7],
        guid.data4 == 0x100_0000_0000_0000 * b[8] + 0x1_0000_0000_0000 * b[9] + 0x100_0000_0000
            * b[10] + 0x1_0000_0000 * b[11] + 0x100_0000 * b[12] + 0x1_0000 * b[13] + 0x100 * b[14]
            + b[15],
    ensures
        guid.bytes_le() == b,
{
    lemma_le32_bytes(guid.data1, b.take(4));
    lemma_le16_bytes(guid.data2, b.subrange(4, 6));
    lemma_le16_bytes(guid.data3, b.subrange(6, 8));
    lemma_be64_bytes(guid.data4, b.skip(8));
    lemma_parts(b, 4, 6, 8);
}

/// The bytes by which each variable is named on the wire.
pub proof fn law_variable_bytes(variable: Variable)
    ensures
        variable.spec_guid().bytes_le() == match variable {
            Variable::SensorCrtTemp => seq![
                0xe7u8, 0x46u8, 0x82u8, 0x21u8, 0xf6u8, 0xbau8, 0xf1u8, 0x45u8,
                0xaau8, 0x13u8, 0x07u8, 0xe4u8, 0x84u8, 0x52u8, 0x56u8, 0xb8u8,
            ],
            Variable::SensorProchotTemp => seq![
                0xd2u8, 0x52u8, 0xdcu8, 0x22u8, 0x0bu8, 0xfdu8, 0xabu8, 0x47u8,
                0x95u8, 0xb8u8, 0x26u8, 0x55u8, 0x2fu8, 0x98u8, 0x31u8, 0xa5u8,
            ],
            Variable::FanOnTemp => seq![
                0x67u8, 0xb5u8, 0x17u8, 0xbau8, 0x68u8, 0xc3u8, 0xd5u8, 0x48u8,
                0xbcu8, 0x6fu8, 0xa3u8, 0x12u8, 0xa4u8, 0x15u8, 0x83u8, 0xc1u8,
            ],
            Variable::FanRampTemp => seq![
                0x8cu8, 0x68u8, 0x62u8, 0x3au8, 0x5bu8, 0xd9u8, 0x2du8, 0x4du8,
                0xbau8, 0xccu8, 0x90u8, 0xd7u8, 0xa5u8, 0x81u8, 0x6bu8, 0xcdu8,
            ],
            Variable::FanMaxTemp => seq![
                0xb1u8, 0x58u8, 0xb7u8, 0xdcu8, 0xfdu8, 0xf0u8, 0xc7u8, 0x4eu8,
                0xb2u8, 0xc0u8, 0xefu8, 0x1eu8, 0x2au8, 0x54u8, 0x7bu8, 0x76u8,
            ],
            Variable::FanMinRpm => seq![
                0x77u8, 0x1cu8, 0x26u8, 0xdbu8, 0x4bu8, 0x93u8, 0xe2u8, 0x45u8,
                0x97u8, 0x42u8, 0x25u8, 0x6cu8, 0x62u8, 0xbau8, 0xdbu8, 0x7au8,
            ],
            Variable::FanMaxRpm => seq![
                0xdfu8, 0x39u8, 0xf8u8, 0x5cu8, 0xe7u8, 0x8bu8, 0xb9u8, 0x42u8,
                0x9au8, 0xc5u8, 0x34u8, 0x03u8, 0xcau8, 0x2cu8, 0x8au8, 0x6au8,
            ],
            Variable::FanCurrentRpm => seq![
                0x92u8, 0x54u8, 0xf9u8, 0xadu8, 0x76u8, 0x07u8, 0xfcu8, 0x4fu8,
                0x84u8, 0xf3u8, 0xb6u8, 0xc8u8, 0xb5u8, 0x26u8, 0x96u8, 0x83u8,
            ],
        },
{
    let b: Seq<u8> = match variable {
        Variable::SensorCrtTemp => seq![
            0xe7u8, 0x46u8, 0x82u8, 0x21u8, 0xf6u8, 0xbau8, 0xf1u8, 0x45u8,
            0xaau8, 0x13u8, 0x07u8, 0xe4u8, 0x84u8, 0x52u8, 0x56u8, 0xb8u8,
        ],
        Variable::SensorProchotTemp => seq![
            0xd2u8, 0x52u8, 0xdcu8, 0x22u8, 0x0bu8, 0xfdu8, 0xabu8, 0x47u8,
            0x95u8, 0xb8u8, 0x26u8, 0x55u8, 0x2fu8, 0x98u8, 0x31u8, 0xa5u8,
        ],
        Variable::FanOnTemp => seq![
            0x67u8, 0xb5u8, 0x17u8, 0xbau8, 0x68u8, 0xc3u8, 0xd5u8, 0x48u8,
            0xbcu8, 0x6fu8, 0xa3u8, 0x12u8, 0xa4u8, 0x15u8, 0x83u8, 0xc1u8,
        ],
        Variable::FanRampTemp => seq![
            0x8cu8, 0x68u8, 0x62u8, 0x3au8, 0x5bu8, 0xd9u8, 0x2du8, 0x4du8,
            0xbau8, 0xccu8, 0x90u8, 0xd7u8, 0xa5u8, 0x81u8, 0x6bu8, 0xcdu8,
        ],
        Variable::FanMaxTemp => seq![
            0xb1u8, 0x58u8, 0xb7u8, 0xdcu8, 0xfdu8, 0xf0u8, 0xc7u8, 0x4eu8,
            0xb2u8, 0xc0u8, 0xefu8, 0x1eu8, 0x2au8, 0x54u8, 0x7bu8, 0x76u8,
        ],
        Variable::FanMinRpm => seq![
            0x77u8, 0x1cu8, 0x26u8, 0xdbu8, 0x4bu8, 0x93u8, 0xe2u8, 0x45u8,
            0x97u8, 0x42u8, 0x25u8, 0x6cu8, 0x62u8, 0xbau8, 0xdbu8, 0x7au8,
        ],
        Variable::FanMaxRpm => seq![
            0xdfu8, 0x39u8, 0xf8u8, 0x5cu8, 0xe7u8, 0x8bu8, 0xb9u8, 0x42u8,
            0x9au8, 0xc5u8, 0x34u8, 0x03u8, 0xcau8, 0x2cu8, 0x8au8, 0x6au8,
        ],
        Variable::FanCurrentRpm => seq![
            0x92u8, 0x54u8, 0xf9u8, 0xadu8, 0x76u8, 0x07u8, 0xfcu8, 0x4fu8,
            0x84u8, 0xf3u8, 0xb6u8, 0xc8u8, 0xb5u8, 0x26u8, 0x96u8, 0x83u8,
        ],
    };
    lemma_guid_bytes(variable.spec_guid(), b);
}

/// The last digit of a number has the weight of one, and the digits before it are those of a tenth
/// of the number. A number below ten has just one digit.
pub proof fn law_digits(n: nat)
    ensures
        digits(n).len() > 0,
        digits(n).last() as int == '0' as int + n % 10,
        n < 10 ==> digits(n).len() == 1,
        n >= 10 ==> digits(n).drop_last() == digits(n / 10),
{
    if n >= 10 {
        assert(digits(n).drop_last() == digits(n / 10));
    }
}

/// A number in words is its digits, with a sign in front exactly where it is negative.
pub proof fn law_decimal(n: int)
    ensures
        n >= 0 ==> decimal(n) == digits(n as nat),
        n < 0 ==> decimal(n).len() == 1 + digits((-n) as nat).len() && decimal(n)[0] == '-'
            && decimal(n).skip(1) == digits((-n) as nat),
{
    if n < 0 {
        assert(decimal(n).skip(1) == digits((-n) as nat));
    }
}

/// An error in words is its name, with the status in brackets behind it where it has one.
pub proof fn law_words(e: AcpiParseError)
    ensures
        e is InsufficientLength ==> e.words() == "InsufficientLength"@,
        e is InvalidFormat ==> e.words() == "InvalidFormat"@,
        e matches AcpiParseError::EvaluationFailed(status) ==> e.words() == "EvaluationFailed("@
            + decimal(status as int) + ")"@,
{
}

} // verus!
