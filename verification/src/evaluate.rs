//! Evaluation of a method by the driver, up to and from the call into it.
use vstd::prelude::*;
use vstd::utf8::{is_ascii_chars, is_ascii_chars_encode_utf8};
use crate::error::{AcpiError, AcpiParseError};
use crate::message::{
    are_values, decode_response, fits_request, is_request, request, serialize_acpi_request,
    try_deserialize_acpi_response, try_serialize_acpi_request, ACPI_MAX_ARGUMENTS,
    ACPI_MAX_METHOD_NAME_LEN,
};
use crate::value::{all_nul_free, data_of, AcpiValue, Datum};

verus! {

/// The status of a call into the driver that went well.
pub const ERROR_SUCCESS: i32 = 0;

/// The room that a call into the driver has for the reply, in bytes.
pub const OUTPUT_BUFFER_LEN: usize = 1024;

/// The controller, reached through its ACPI methods.
#[derive(Copy, Clone)]
pub struct Acpi {}

impl Default for Acpi {
    fn default() -> (acpi: Self)
        ensures
            acpi == (Acpi {  }),
    {
        Acpi {  }
    }
}

impl Acpi {
    pub fn new() -> (acpi: Self)
        ensures
            acpi == (Acpi {  }),
    {
        Default::default()
    }
}

/// A method and the arguments to evaluate it with.
#[derive(Debug)]
pub struct MethodCall {
    pub name: &'static str,
    pub args: Vec<AcpiValue>,
}

impl MethodCall {
    /// The call evaluates the method `name` with the arguments `args`, and can be requested.
    pub open spec fn evaluates(&self, name: Seq<char>, args: Seq<Datum>) -> bool {
        &&& self.name@ == name
        &&& data_of(self.args@) == args
        &&& fits_request(name, args)
        &&& all_nul_free(args)
    }

    /// The request that is handed to the driver.
    pub fn request(&self) -> (bytes: Result<Vec<u8>, AcpiParseError>)
        requires
            fits_request(self.name@, data_of(self.args@)) ==> all_nul_free(data_of(self.args@)),
        ensures
            match bytes {
                Ok(b) => fits_request(self.name@, data_of(self.args@)) && b@ == request(
                    self.name@,
                    data_of(self.args@),
                ),
                Err(e) => !fits_request(self.name@, data_of(self.args@)) && e
                    == AcpiParseError::InsufficientLength,
            },
    {
        serialize_acpi_request(self.name, self.args.as_slice())
    }

    /// The request that is handed to the driver. There is no result where a text in the arguments
    /// holds the character zero and would have to be encoded.
    pub fn try_request(&self) -> (bytes: Option<Result<Vec<u8>, AcpiParseError>>)
        ensures
            is_request(bytes, self.name@, data_of(self.args@)),
    {
        try_serialize_acpi_request(self.name, self.args.as_slice())
    }
}

/// What comes of an evaluation for which the driver gave this status, where `decoded` came of
/// decoding its reply.
pub fn evaluation(
    status: i32,
    decoded: Option<Result<Vec<AcpiValue>, AcpiParseError>>,
) -> (output: Option<Result<Vec<AcpiValue>, AcpiParseError>>)
    ensures
        status == ERROR_SUCCESS ==> output == decoded,
        status != ERROR_SUCCESS ==> (output matches Some(Err(e)) && e
            == AcpiParseError::EvaluationFailed(status)),
{
    if status == ERROR_SUCCESS {
        decoded
    } else {
        Some(Err(AcpiParseError::EvaluationFailed(status)))
    }
}

impl Acpi {
    /// What comes of an evaluation for which the driver gave this status and this reply. The reply
    /// is looked at only where the status is that of success, and what decoding it gives is then
    /// what comes of the evaluation. There is no result where it ends before a header that must be
    /// read.
    pub fn evaluate_result(status: i32, reply: &[u8]) -> (output: Option<
        Result<Vec<AcpiValue>, AcpiParseError>,
    >)
        ensures
            status != ERROR_SUCCESS ==> (output matches Some(Err(e)) && e
                == AcpiParseError::EvaluationFailed(status)),
            status == ERROR_SUCCESS ==> call_ensures(
                try_deserialize_acpi_response,
                (reply,),
                output,
            ),
            status == ERROR_SUCCESS ==> are_values(output, decode_response(reply@, true))
                || are_values(output, decode_response(reply@, false)),
    {
        let decoded = if status == ERROR_SUCCESS {
            try_deserialize_acpi_response(reply)
        } else {
            None
        };
        evaluation(status, decoded)
    }

    /// The single integer that a method gave. Anything else is an error.
    pub fn evaluate_u32_result(output: &Result<Vec<AcpiValue>, AcpiParseError>) -> (value: Result<
        u32,
        AcpiError,
    >)
        ensures
            value == single_integer(outcome(*output)),
    {
        match output {
            Err(e) => Err(AcpiError::Evaluation(*e)),
            Ok(values) => if values.len() != 1 {
                Err(AcpiError::UnexpectedCount(values.len()))
            } else {
                assert(data_of(values@)[0] == values@[0]@);
                match integer_at(values.as_slice(), 0) {
                    Some(i) => Ok(i),
                    None => Err(AcpiError::NotAnInteger),
                }
            },
        }
    }
}

/// What an evaluation gave.
pub open spec fn outcome(output: Result<Vec<AcpiValue>, AcpiParseError>) -> Result<
    Seq<Datum>,
    AcpiParseError,
> {
    match output {
        Ok(values) => Ok(data_of(values@)),
        Err(e) => Err(e),
    }
}

/// The single integer that an evaluation gave.
pub open spec fn single_integer(output: Result<Seq<Datum>, AcpiParseError>) -> Result<u32, AcpiError> {
    match output {
        Err(e) => Err(AcpiError::Evaluation(e)),
        Ok(vs) => if vs.len() != 1 {
            Err(AcpiError::UnexpectedCount(vs.len() as usize))
        } else {
            match vs[0] {
                Datum::Integer(i) => Ok(i),
                _ => Err(AcpiError::NotAnInteger),
            }
        },
    }
}

/// A call of a method whose name is ASCII and fits in a request.
pub(crate) fn plain_call(name: &'static str, args: Vec<AcpiValue>) -> (call: MethodCall)
    requires
        is_ascii_chars(name@),
        name@.len() <= ACPI_MAX_METHOD_NAME_LEN,
        args@.len() <= ACPI_MAX_ARGUMENTS,
        all_nul_free(data_of(args@)),
    ensures
        call.evaluates(name@, data_of(args@)),
{
    proof {
        is_ascii_chars_encode_utf8(name@);
    }
    MethodCall { name, args }
}

/// The integer at index `i`, if there is one.
pub(crate) fn integer_at(values: &[AcpiValue], i: usize) -> (integer: Option<u32>)
    requires
        i < values@.len(),
    ensures
        integer == match values@[i as int]@ {
            Datum::Integer(x) => Some(x),
            _ => None,
        },
{
    match &values[i] {
        AcpiValue::Integer(x) => Some(*x),
        _ => None,
    }
}

/// A copy of the text at index `i`, if there is one.
pub(crate) fn text_at(values: &[AcpiValue], i: usize) -> (text: Option<String>)
    requires
        i < values@.len(),
    ensures
        match values@[i as int]@ {
            Datum::Text(s) => text matches Some(t) && t@ == s,
            _ => text is None,
        },
{
    match &values[i] {
        AcpiValue::String(s) => Some(s.clone()),
        _ => None,
    }
}

} // verus!
