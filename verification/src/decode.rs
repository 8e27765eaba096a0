//! Decoding of method results.
use vstd::prelude::*;
use vstd::slice::slice_to_vec;
use crate::bytes::{u16_at, u32_at, u32_from_bytes};
use crate::error::AcpiParseError;
use crate::layout::words_from_bytes;
use crate::text::{cstr_bytes_to_string, terminated_text};
use crate::value::{data_of, AcpiArgumentType, AcpiValue, Datum};

verus! {

/// What comes of decoding.
#[verifier::ext_equal]
pub enum Decoded<T> {
    /// The bytes hold this.
    Done(T),
    /// The bytes are refused.
    Refused(AcpiParseError),
    /// The bytes end before a header that must be read next. There is no result then.
    Cut,
}

/// Whether bytes that follow `n` bytes at an odd or even address start at an odd one.
pub open spec fn odd_after(odd: bool, n: int) -> bool {
    odd != (n % 2 == 1)
}

/// The first value in `data`, and the bytes behind it.
///
/// A header is read in place, which takes an even address: `odd` says that `data` starts at an odd
/// one. A package takes up all of the bytes behind its header, whatever length the header
/// announces.
pub open spec fn decode(data: Seq<u8>, odd: bool) -> Decoded<(Datum, Seq<u8>)>
    decreases data.len(), 0int,
{
    if data.len() < 4 {
        Decoded::Cut
    } else if odd {
        Decoded::Refused(AcpiParseError::InvalidFormat)
    } else {
        let kind = u16_at(data, 0);
        let length = u16_at(data, 2) as int;
        let payload = data.skip(4);
        if payload.len() < length {
            Decoded::Refused(AcpiParseError::InsufficientLength)
        } else if kind == AcpiArgumentType::Integer.spec_code() {
            if length != 4 {
                Decoded::Refused(AcpiParseError::InvalidFormat)
            } else {
                Decoded::Done((Datum::Integer(u32_at(payload, 0)), payload.skip(4)))
            }
        } else if kind == AcpiArgumentType::String.spec_code() {
            match terminated_text(payload.take(length)) {
                Ok(text) => Decoded::Done((Datum::Text(text), payload.skip(length))),
                Err(_) => Decoded::Refused(AcpiParseError::InvalidFormat),
            }
        } else if kind == AcpiArgumentType::Buffer.spec_code() {
            Decoded::Done((Datum::Buffer(payload.take(length)), payload.skip(length)))
        } else if kind == AcpiArgumentType::Package.spec_code() {
            match decode_to_end(payload, false) {
                Decoded::Done(vs) => Decoded::Done((Datum::Package(vs), Seq::empty())),
                Decoded::Refused(e) => Decoded::Refused(e),
                Decoded::Cut => Decoded::Cut,
            }
        } else {
            Decoded::Refused(AcpiParseError::InvalidFormat)
        }
    }
}

/// The values that take up all of `data`. Each takes up some of it, as [`lemma_decode_rest`] shows.
pub open spec fn decode_to_end(data: Seq<u8>, odd: bool) -> Decoded<Seq<Datum>>
    decreases data.len(), 1int,
{
    if data.len() == 0 {
        Decoded::Done(Seq::empty())
    } else {
        match decode(data, odd) {
            Decoded::Done((v, rest)) => if rest.len() < data.len() {
                joined(seq![v], decode_to_end(rest, odd_after(odd, data.len() - rest.len())))
            } else {
                Decoded::Cut
            },
            Decoded::Refused(e) => Decoded::Refused(e),
            Decoded::Cut => Decoded::Cut,
        }
    }
}

/// The first `count` values in `data`; what follows them is left alone.
pub open spec fn decode_count(count: nat, data: Seq<u8>, odd: bool) -> Decoded<Seq<Datum>>
    decreases count,
{
    if count == 0 {
        Decoded::Done(Seq::empty())
    } else {
        match decode(data, odd) {
            Decoded::Done((v, rest)) => joined(
                seq![v],
                decode_count((count - 1) as nat, rest, odd_after(odd, data.len() - rest.len())),
            ),
            Decoded::Refused(e) => Decoded::Refused(e),
            Decoded::Cut => Decoded::Cut,
        }
    }
}

/// What comes of decoding where `done` precedes what was decoded.
pub open spec fn joined(done: Seq<Datum>, more: Decoded<Seq<Datum>>) -> Decoded<Seq<Datum>> {
    match more {
        Decoded::Done(vs) => Decoded::Done(done + vs),
        Decoded::Refused(e) => Decoded::Refused(e),
        Decoded::Cut => Decoded::Cut,
    }
}

pub proof fn lemma_joined_push(done: Seq<Datum>, v: Datum, more: Decoded<Seq<Datum>>)
    ensures
        joined(done.push(v), more) == joined(done, joined(seq![v], more)),
{
    if let Decoded::Done(vs) = more {
        assert(done.push(v) + vs == done + (seq![v] + vs));
    }
}

/// A value takes up at least its header, and what follows it is the end of the data.
pub proof fn lemma_decode_rest(data: Seq<u8>, odd: bool)
    ensures
        decode(data, odd) matches Decoded::Done((_, rest)) ==> rest.len() + 4 <= data.len() && rest
            == data.skip(data.len() - rest.len()),
{
    if decode(data, odd) is Done {
        let payload = data.skip(4);
        let length = u16_at(data, 2) as int;
        assert(payload.skip(length) == data.skip(4 + length));
        assert(data.skip(data.len() as int) == Seq::<u8>::empty());
    }
}

/// An outcome of [`AcpiValue::try_deserialize`] is the one that `want` says.
pub open spec fn is_first_value(
    got: Option<Result<(AcpiValue, &[u8]), AcpiParseError>>,
    want: Decoded<(Datum, Seq<u8>)>,
) -> bool {
    match want {
        Decoded::Done((v, rest)) => got matches Some(Ok((x, y))) && x@ == v && y@ == rest,
        Decoded::Refused(e) => got matches Some(Err(x)) && x == e,
        Decoded::Cut => got is None,
    }
}

impl AcpiValue {
    /// Takes the first value from `data`. There is no result where the bytes end before a header
    /// that must be read.
    ///
    /// `odd` has to say whether `data` starts at an odd address. Behind a header of a reply that
    /// could be read in place, the bytes start at an even one.
    pub fn try_deserialize(data: &[u8], odd: bool) -> (first: Option<
        Result<(AcpiValue, &[u8]), AcpiParseError>,
    >)
        ensures
            is_first_value(first, decode(data@, odd)),
        decreases data@.len(),
    {
        if data.len() < 4 {
            return None;
        }
        if odd {
            return Some(Err(AcpiParseError::InvalidFormat));
        }
        let (header, payload) = data.split_at(4);
        let (kind, data_length) = words_from_bytes(header);
        let length: usize = data_length as usize;
        assert(payload@ == data@.skip(4));
        if payload.len() < length {
            return Some(Err(AcpiParseError::InsufficientLength));
        }
        let kind = match AcpiArgumentType::from_code(kind) {
            Ok(kind) => kind,
            Err(e) => {
                return Some(Err(e));
            },
        };
        match kind {
            AcpiArgumentType::Integer => {
                if length != 4 {
                    return Some(Err(AcpiParseError::InvalidFormat));
                }
                let (body, remaining) = payload.split_at(4);
                Some(Ok((AcpiValue::Integer(u32_from_bytes(body)), remaining)))
            },
            AcpiArgumentType::String => {
                let (body, remaining) = payload.split_at(length);
                match cstr_bytes_to_string(body) {
                    Ok(text) => Some(Ok((AcpiValue::String(text), remaining))),
                    Err(_) => Some(Err(AcpiParseError::InvalidFormat)),
                }
            },
            AcpiArgumentType::Buffer => {
                let (body, remaining) = payload.split_at(length);
                Some(Ok((AcpiValue::Buffer(slice_to_vec(body)), remaining)))
            },
            AcpiArgumentType::Package => {
                let mut elements: Vec<AcpiValue> = Vec::new();
                let mut remaining: &[u8] = payload;
                let mut odd_remaining: bool = false;
                assert(data_of(elements@) == Seq::<Datum>::empty());
                while remaining.len() != 0
                    invariant
                        data@.len() >= 4,
                        !odd,
                        payload@ == data@.skip(4),
                        payload@.len() >= u16_at(data@, 2),
                        u16_at(data@, 0) == AcpiArgumentType::Package.spec_code(),
                        remaining@.len() <= data@.len() - 4,
                        joined(data_of(elements@), decode_to_end(remaining@, odd_remaining))
                            == decode_to_end(payload@, false),
                    decreases remaining@.len(),
                {
                    proof {
                        lemma_decode_rest(remaining@, odd_remaining);
                    }
                    match AcpiValue::try_deserialize(remaining, odd_remaining) {
                        Some(Ok((element, rest))) => {
                            let ghost before = data_of(elements@);
                            odd_remaining = odd_remaining != ((remaining.len() - rest.len()) % 2 == 1);
                            elements.push(element);
                            remaining = rest;
                            proof {
                                assert(data_of(elements@) == before.push(element@));
                                lemma_joined_push(
                                    before,
                                    element@,
                                    decode_to_end(remaining@, odd_remaining),
                                );
                            }
                        },
                        Some(Err(e)) => {
                            return Some(Err(e));
                        },
                        None => {
                            return None;
                        },
                    }
                }
                assert(data_of(elements@) + Seq::<Datum>::empty() == data_of(elements@));
                assert(remaining@ == Seq::<u8>::empty());
                Some(Ok((AcpiValue::Package(Box::new(elements)), remaining)))
            },
        }
    }

    /// Takes the first value from `data`, whose bytes must not end before a header that must be
    /// read. `odd` has to say whether they start at an odd address.
    pub fn deserialize(data: &[u8], odd: bool) -> (first: Result<
        (AcpiValue, &[u8]),
        AcpiParseError,
    >)
        requires
            !(decode(data@, odd) is Cut),
        ensures
            is_first_value(Some(first), decode(data@, odd)),
    {
        AcpiValue::try_deserialize(data, odd).unwrap()
    }
}

} // verus!
