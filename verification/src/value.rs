//! Method arguments and results, and their encoding.
use vstd::prelude::*;
use vstd::utf8::encode_utf8;
use crate::bytes::{le16, le32, u32_to_bytes};
use crate::error::AcpiParseError;
use crate::layout::words_to_bytes;
use crate::text::holds_zero;

verus! {

/// One argument or result of an ACPI method.
#[derive(Debug)]
pub enum AcpiValue {
    Integer(u32),
    String(String),
    Buffer(Vec<u8>),
    Package(Box<Vec<AcpiValue>>),
}

/// What an [`AcpiValue`] stands for.
#[verifier::ext_equal]
pub enum Datum {
    Integer(u32),
    Text(Seq<char>),
    Buffer(Seq<u8>),
    Package(Seq<Datum>),
}

impl AcpiValue {
    pub open spec fn view(&self) -> Datum
        decreases self,
    {
        match self {
            AcpiValue::Integer(i) => Datum::Integer(*i),
            AcpiValue::String(s) => Datum::Text(s@),
            AcpiValue::Buffer(b) => Datum::Buffer(b@),
            AcpiValue::Package(vs) => Datum::Package(data_of(vs@)),
        }
    }
}

/// What each of `vs` stands for.
pub open spec fn data_of(vs: Seq<AcpiValue>) -> Seq<Datum>
    decreases vs,
{
    Seq::new(vs.len(), |i: int| if 0 <= i < vs.len() { vs[i].view() } else { Datum::Integer(0) })
}

/// The types that an argument header can announce, as `apiioct.h` of the Windows SDK defines them
/// under `ACPI_METHOD_ARGUMENT_`.
#[derive(Debug, Clone, Copy, PartialEq, Eq, Structural)]
pub enum AcpiArgumentType {
    Integer,
    String,
    Buffer,
    Package,
}

impl AcpiArgumentType {
    /// The number that stands for the type in a header.
    pub open spec fn spec_code(self) -> u16 {
        match self {
            AcpiArgumentType::Integer => 0,
            AcpiArgumentType::String => 1,
            AcpiArgumentType::Buffer => 2,
            AcpiArgumentType::Package => 3,
        }
    }

    pub fn code(self) -> (code: u16)
        ensures
            code == self.spec_code(),
    {
        match self {
            AcpiArgumentType::Integer => 0,
            AcpiArgumentType::String => 1,
            AcpiArgumentType::Buffer => 2,
            AcpiArgumentType::Package => 3,
        }
    }

    /// The type that `code` stands for; a number that stands for none is refused.
    pub fn from_code(code: u16) -> (kind: Result<AcpiArgumentType, AcpiParseError>)
        ensures
            code <= 3 ==> (kind matches Ok(k) && k.spec_code() == code),
            code > 3 ==> kind == Err::<AcpiArgumentType, AcpiParseError>(AcpiParseError::InvalidFormat),
    {
        if code == 0 {
            Ok(AcpiArgumentType::Integer)
        } else if code == 1 {
            Ok(AcpiArgumentType::String)
        } else if code == 2 {
            Ok(AcpiArgumentType::Buffer)
        } else if code == 3 {
            Ok(AcpiArgumentType::Package)
        } else {
            Err(AcpiParseError::InvalidFormat)
        }
    }
}

/// An argument on the wire: its type, the length of its body in sixteen bits, and its body. The
/// length of a longer body is announced modulo 2 to the 16.
pub open spec fn argument(kind: AcpiArgumentType, body: Seq<u8>) -> Seq<u8> {
    le16(kind.spec_code()) + le16((body.len() % 0x1_0000) as u16) + body
}

impl Datum {
    /// The value on the wire.
    pub open spec fn encode(self) -> Seq<u8>
        decreases self,
    {
        match self {
            Datum::Integer(i) => argument(AcpiArgumentType::Integer, le32(i)),
            Datum::Text(s) => argument(AcpiArgumentType::String, encode_utf8(s).push(0)),
            Datum::Buffer(b) => argument(AcpiArgumentType::Buffer, b),
            Datum::Package(vs) => argument(AcpiArgumentType::Package, encode_all(vs)),
        }
    }

    /// No text in the value, however deep, holds the character zero.
    pub open spec fn nul_free(self) -> bool
        decreases self,
    {
        match self {
            Datum::Text(s) => !s.contains('\0'),
            Datum::Package(vs) => all_nul_free(vs),
            _ => true,
        }
    }
}

/// No text in the values holds the character zero.
pub open spec fn all_nul_free(vs: Seq<Datum>) -> bool
    decreases vs,
{
    forall|i: int| 0 <= i < vs.len() ==> (#[trigger] vs[i]).nul_free()
}

/// The values on the wire, one behind the other.
pub open spec fn encode_all(vs: Seq<Datum>) -> Seq<u8>
    decreases vs,
{
    if vs.len() == 0 {
        Seq::empty()
    } else {
        vs[0].encode() + encode_all(vs.skip(1))
    }
}

/// Values that stand behind others stand behind them on the wire.
pub proof fn lemma_encode_all_add(a: Seq<Datum>, b: Seq<Datum>)
    ensures
        encode_all(a + b) == encode_all(a) + encode_all(b),
    decreases a.len(),
{
    if a.len() == 0 {
        assert(a + b == b);
    } else {
        assert((a + b).skip(1) == a.skip(1) + b);
        lemma_encode_all_add(a.skip(1), b);
    }
}

/// One more value adds its own bytes at the end.
pub proof fn lemma_encode_all_push(vs: Seq<Datum>, v: Datum)
    ensures
        encode_all(vs.push(v)) == encode_all(vs) + v.encode(),
{
    let last: Seq<Datum> = seq![v];
    assert(vs.push(v) == vs + last);
    lemma_encode_all_add(vs, last);
    assert(last.skip(1) == Seq::<Datum>::empty());
    reveal_with_fuel(encode_all, 2);
    assert(encode_all(last) == v.encode());
}

impl AcpiValue {
    /// Whether no text in the value, however deep, holds the character zero.
    pub fn is_nul_free(&self) -> (free: bool)
        ensures
            free == self@.nul_free(),
        decreases self, 0int,
    {
        match self {
            AcpiValue::String(s) => !holds_zero(s.as_str()),
            AcpiValue::Package(elements) => are_nul_free(elements.as_slice()),
            _ => true,
        }
    }
}

/// Whether no text in the values holds the character zero.
pub fn are_nul_free(values: &[AcpiValue]) -> (free: bool)
    ensures
        free == all_nul_free(data_of(values@)),
    decreases values@, 1int,
{
    let ghost data = data_of(values@);
    let mut i: usize = 0;
    while i < values.len()
        invariant
            i <= values.len(),
            data == data_of(values@),
            forall|j: int| 0 <= j < i ==> (#[trigger] data[j]).nul_free(),
        decreases values.len() - i,
    {
        assert(data[i as int] == values@[i as int]@);
        if !values[i].is_nul_free() {
            return false;
        }
        i = i + 1;
    }
    true
}

/// The bytes of an argument of type `kind` with this body.
fn frame(kind: AcpiArgumentType, body: &[u8]) -> (buf: Vec<u8>)
    ensures
        buf@ == argument(kind, body@),
{
    let mut buf = words_to_bytes(kind.code(), (body.len() % 0x1_0000) as u16);
    buf.extend_from_slice(body);
    buf
}

impl AcpiValue {
    /// The value on the wire. No text in it may hold the character zero.
    pub fn serialize(&self) -> (buf: Vec<u8>)
        requires
            self@.nul_free(),
        ensures
            buf@ == self@.encode(),
        decreases self,
    {
        match self {
            AcpiValue::Integer(i) => frame(AcpiArgumentType::Integer, u32_to_bytes(*i).as_slice()),
            AcpiValue::String(s) => {
                let mut body: Vec<u8> = Vec::new();
                body.extend_from_slice(s.as_str().as_bytes());
                body.push(0);
                assert(body@ == encode_utf8(s@).push(0));
                frame(AcpiArgumentType::String, body.as_slice())
            },
            AcpiValue::Buffer(b) => frame(AcpiArgumentType::Buffer, b.as_slice()),
            AcpiValue::Package(elements) => {
                let mut body: Vec<u8> = Vec::new();
                let ghost data = data_of(elements@);
                let mut i: usize = 0;
                while i < elements.len()
                    invariant
                        i <= elements.len(),
                        data == data_of(elements@),
                        self@ == Datum::Package(data),
                        self == AcpiValue::Package(*elements),
                        self@.nul_free(),
                        body@ == encode_all(data.take(i as int)),
                    decreases elements.len() - i,
                {
                    assert(data[i as int] == elements@[i as int]@);
                    assert(data[i as int].nul_free());
                    assert(data.take(i + 1) == data.take(i as int).push(data[i as int]));
                    proof {
                        lemma_encode_all_push(data.take(i as int), data[i as int]);
                    }
                    let encoded = elements[i].serialize();
                    body.extend_from_slice(encoded.as_slice());
                    i = i + 1;
                }
                assert(data.take(i as int) == data);
                frame(AcpiArgumentType::Package, body.as_slice())
            },
        }
    }
}

} // verus!
