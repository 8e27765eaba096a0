//! Time and alarm methods of the controller.
use vstd::prelude::*;
use vstd::slice::slice_to_vec;
use crate::error::{AcpiError, AcpiParseError};
use crate::evaluate::{outcome, plain_call, Acpi, MethodCall};
use crate::value::{data_of, AcpiValue, Datum};

verus! {

/// The bytes of a time stamp that an evaluation gave: a single buffer.
pub open spec fn single_buffer(output: Result<Seq<Datum>, AcpiParseError>) -> Result<Seq<u8>, AcpiError> {
    match output {
        Err(e) => Err(AcpiError::Evaluation(e)),
        Ok(vs) => if vs.len() == 1 && vs[0] is Buffer {
            Ok(vs[0]->Buffer_0)
        } else {
            Err(AcpiError::Unrecognized)
        },
    }
}

impl Acpi {
    /// The call that reads what the time and alarm device can do.
    pub fn get_capabilities_call() -> (call: MethodCall)
        ensures
            call.evaluates("\\_SB.ECT0._GCP"@, Seq::<Datum>::empty()),
    {
        proof {
            reveal_strlit("\\_SB.ECT0._GCP");
        }
        let args: Vec<AcpiValue> = Vec::new();
        assert(data_of(args@) == Seq::<Datum>::empty());
        plain_call("\\_SB.ECT0._GCP", args)
    }

    /// The call that reads the time.
    pub fn get_real_time_call() -> (call: MethodCall)
        ensures
            call.evaluates("\\_SB.ECT0._GRT"@, Seq::<Datum>::empty()),
    {
        proof {
            reveal_strlit("\\_SB.ECT0._GRT");
        }
        let args: Vec<AcpiValue> = Vec::new();
        assert(data_of(args@) == Seq::<Datum>::empty());
        plain_call("\\_SB.ECT0._GRT", args)
    }

    /// The call that reads whether a timer has woken the machine.
    pub fn get_wake_status_call(timer_id: u32) -> (call: MethodCall)
        ensures
            call.evaluates("\\_SB.ECT0._GWS"@, seq![Datum::Integer(timer_id)]),
    {
        proof {
            reveal_strlit("\\_SB.ECT0._GWS");
        }
        let mut args: Vec<AcpiValue> = Vec::new();
        args.push(AcpiValue::Integer(timer_id));
        assert(data_of(args@) == seq![Datum::Integer(timer_id)]);
        plain_call("\\_SB.ECT0._GWS", args)
    }

    /// The call that reads what happens when a timer expires while it cannot wake the machine.
    pub fn get_expired_timer_wake_policy_call(timer_id: u32) -> (call: MethodCall)
        ensures
            call.evaluates("\\_SB.ECT0._TIP"@, seq![Datum::Integer(timer_id)]),
    {
        proof {
            reveal_strlit("\\_SB.ECT0._TIP");
        }
        let mut args: Vec<AcpiValue> = Vec::new();
        args.push(AcpiValue::Integer(timer_id));
        assert(data_of(args@) == seq![Datum::Integer(timer_id)]);
        plain_call("\\_SB.ECT0._TIP", args)
    }

    /// The call that reads how many seconds a timer has left.
    pub fn get_timer_value_call(timer_id: u32) -> (call: MethodCall)
        ensures
            call.evaluates("\\_SB.ECT0._TIV"@, seq![Datum::Integer(timer_id)]),
    {
        proof {
            reveal_strlit("\\_SB.ECT0._TIV");
        }
        let mut args: Vec<AcpiValue> = Vec::new();
        args.push(AcpiValue::Integer(timer_id));
        assert(data_of(args@) == seq![Datum::Integer(timer_id)]);
        plain_call("\\_SB.ECT0._TIV", args)
    }

    /// The bytes of the time that was read.
    pub fn get_real_time_result(output: &Result<Vec<AcpiValue>, AcpiParseError>) -> (bytes: Result<
        Vec<u8>,
        AcpiError,
    >)
        ensures
            match single_buffer(outcome(*output)) {
                Ok(b) => bytes matches Ok(x) && x@ == b,
                Err(e) => bytes matches Err(x) && x == e,
            },
    {
        match output {
            Err(e) => Err(AcpiError::Evaluation(*e)),
            Ok(values) => {
                if values.len() != 1 {
                    return Err(AcpiError::Unrecognized);
                }
                assert(data_of(values@)[0] == values@[0]@);
                match &values[0] {
                    AcpiValue::Buffer(buffer) => Ok(slice_to_vec(buffer.as_slice())),
                    _ => Err(AcpiError::Unrecognized),
                }
            },
        }
    }
}

} // verus!
