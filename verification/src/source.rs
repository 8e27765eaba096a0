//! Temperature, fan and battery methods of the controller.
use vstd::prelude::*;
use crate::error::{AcpiError, AcpiParseError};
use crate::evaluate::{integer_at, outcome, plain_call, single_integer, text_at, Acpi, MethodCall};
use crate::guid::{Guid, Variable};
use crate::value::{data_of, AcpiValue, Datum};

verus! {

/// A temperature at which the fan changes what it does.
#[derive(Debug, Clone, Copy, PartialEq, Eq, Structural)]
pub enum Threshold {
    On,
    Ramping,
    Max,
}

impl Threshold {
    /// The variable that holds the threshold.
    pub open spec fn spec_variable(self) -> Variable {
        match self {
            Threshold::On => Variable::FanOnTemp,
            Threshold::Ramping => Variable::FanRampTemp,
            Threshold::Max => Variable::FanMaxTemp,
        }
    }

    /// The variable that holds the threshold.
    pub fn variable(self) -> (variable: Variable)
        ensures
            variable == self.spec_variable(),
    {
        match self {
            Threshold::On => Variable::FanOnTemp,
            Threshold::Ramping => Variable::FanRampTemp,
            Threshold::Max => Variable::FanMaxTemp,
        }
    }
}

/// The state of the battery. The code of the charge state is as the controller gave it.
#[derive(Debug, Clone, Copy, PartialEq, Eq, Structural)]
pub struct BstData {
    pub state: u32,
    pub rate: u32,
    pub capacity: u32,
    pub voltage: u32,
}

/// What is known of the battery. The codes of the power unit, of the technology and of the
/// swapping capability are as the controller gave them.
#[derive(Debug)]
pub struct BixData {
    pub revision: u32,
    pub power_unit: u32,
    pub design_capacity: u32,
    pub last_full_capacity: u32,
    pub battery_technology: u32,
    pub design_voltage: u32,
    pub warning_capacity: u32,
    pub low_capacity: u32,
    pub cycle_count: u32,
    pub accuracy: u32,
    pub max_sample_time: u32,
    pub min_sample_time: u32,
    pub max_average_interval: u32,
    pub min_average_interval: u32,
    pub capacity_gran1: u32,
    pub capacity_gran2: u32,
    pub model_number: String,
    pub serial_number: String,
    pub battery_type: String,
    pub oem_info: String,
    pub swap_cap: u32,
}

impl BixData {
    /// The values by which a method gives the data.
    pub open spec fn view(&self) -> Seq<Datum> {
        seq![
            Datum::Integer(self.revision),
            Datum::Integer(self.power_unit),
            Datum::Integer(self.design_capacity),
            Datum::Integer(self.last_full_capacity),
            Datum::Integer(self.battery_technology),
            Datum::Integer(self.design_voltage),
            Datum::Integer(self.warning_capacity),
            Datum::Integer(self.low_capacity),
            Datum::Integer(self.cycle_count),
            Datum::Integer(self.accuracy),
            Datum::Integer(self.max_sample_time),
            Datum::Integer(self.min_sample_time),
            Datum::Integer(self.max_average_interval),
            Datum::Integer(self.min_average_interval),
            Datum::Integer(self.capacity_gran1),
            Datum::Integer(self.capacity_gran2),
            Datum::Text(self.model_number@),
            Datum::Text(self.serial_number@),
            Datum::Text(self.battery_type@),
            Datum::Text(self.oem_info@),
            Datum::Integer(self.swap_cap),
        ]
    }
}

/// The values have the types in which the battery's data is given: sixteen integers, four texts
/// and an integer.
pub open spec fn is_bix(vs: Seq<Datum>) -> bool {
    &&& vs.len() == 21
    &&& forall|i: int| 0 <= i < 16 ==> (#[trigger] vs[i]) is Integer
    &&& forall|i: int| 16 <= i < 20 ==> (#[trigger] vs[i]) is Text
    &&& vs[20] is Integer
}

/// The value of a variable that an evaluation gave: an error code, which is zero, and the value.
pub open spec fn variable_value(output: Result<Seq<Datum>, AcpiParseError>) -> Result<u32, AcpiError> {
    match output {
        Err(e) => Err(AcpiError::Evaluation(e)),
        Ok(vs) => if vs.len() == 2 && vs[0] is Integer && vs[1] is Integer {
            if vs[0]->Integer_0 == 0 {
                Ok(vs[1]->Integer_0)
            } else {
                Err(AcpiError::ErrorCode(vs[0]->Integer_0))
            }
        } else {
            Err(AcpiError::Unrecognized)
        },
    }
}

/// What came of setting a variable: an error code, which is zero.
pub open spec fn variable_was_set(output: Result<Seq<Datum>, AcpiParseError>) -> Result<(), AcpiError> {
    match single_integer(output) {
        Err(e) => Err(e),
        Ok(code) => if code == 0 {
            Ok(())
        } else {
            Err(AcpiError::ErrorCode(code))
        },
    }
}

/// The state of the battery that an evaluation gave: four integers.
pub open spec fn battery_state(output: Result<Seq<Datum>, AcpiParseError>) -> Result<BstData, AcpiError> {
    match output {
        Err(e) => Err(AcpiError::Evaluation(e)),
        Ok(vs) => if vs.len() == 4 && vs[0] is Integer && vs[1] is Integer && vs[2] is Integer
            && vs[3] is Integer {
            Ok(
                BstData {
                    state: vs[0]->Integer_0,
                    rate: vs[1]->Integer_0,
                    capacity: vs[2]->Integer_0,
                    voltage: vs[3]->Integer_0,
                },
            )
        } else {
            Err(AcpiError::Unrecognized)
        },
    }
}

impl Acpi {
    /// The call that reads the temperature, in tenths of a kelvin.
    pub fn get_temperature_call() -> (call: MethodCall)
        ensures
            call.evaluates("\\_SB.ECT0.RTMP"@, Seq::<Datum>::empty()),
    {
        proof {
            reveal_strlit("\\_SB.ECT0.RTMP");
        }
        let args: Vec<AcpiValue> = Vec::new();
        assert(data_of(args@) == Seq::<Datum>::empty());
        plain_call("\\_SB.ECT0.RTMP", args)
    }

    /// The call that reads a variable.
    pub fn get_var_call(guid: Guid) -> (call: MethodCall)
        ensures
            call.evaluates("\\_SB.ECT0.TGVR"@, seq![Datum::Integer(1), Datum::Buffer(guid.bytes_le())]),
    {
        proof {
            reveal_strlit("\\_SB.ECT0.TGVR");
        }
        let mut args: Vec<AcpiValue> = Vec::new();
        args.push(AcpiValue::Integer(1));
        args.push(AcpiValue::from_guid(guid));
        assert(data_of(args@) == seq![Datum::Integer(1), Datum::Buffer(guid.bytes_le())]);
        plain_call("\\_SB.ECT0.TGVR", args)
    }

    /// The call that sets a variable.
    pub fn set_var_call(guid: Guid, value: u32) -> (call: MethodCall)
        ensures
            call.evaluates("\\_SB.ECT0.TSVR"@, seq![Datum::Integer(1), Datum::Buffer(guid.bytes_le()), Datum::Integer(value)]),
    {
        proof {
            reveal_strlit("\\_SB.ECT0.TSVR");
        }
        let mut args: Vec<AcpiValue> = Vec::new();
        args.push(AcpiValue::Integer(1));
        args.push(AcpiValue::from_guid(guid));
        args.push(AcpiValue::Integer(value));
        assert(data_of(args@) == seq![
            Datum::Integer(1),
            Datum::Buffer(guid.bytes_le()),
            Datum::Integer(value),
        ]);
        plain_call("\\_SB.ECT0.TSVR", args)
    }

    /// The call that reads the speed of the fan.
    pub fn get_rpm_call() -> (call: MethodCall)
        ensures
            call.evaluates(
                "\\_SB.ECT0.TGVR"@,
                seq![Datum::Integer(1), Datum::Buffer(Variable::FanCurrentRpm.spec_guid().bytes_le())],
            ),
    {
        Acpi::get_var_call(Variable::FanCurrentRpm.guid())
    }

    /// The call that reads the lowest speed of the fan.
    pub fn get_min_rpm_call() -> (call: MethodCall)
        ensures
            call.evaluates(
                "\\_SB.ECT0.TGVR"@,
                seq![Datum::Integer(1), Datum::Buffer(Variable::FanMinRpm.spec_guid().bytes_le())],
            ),
    {
        Acpi::get_var_call(Variable::FanMinRpm.guid())
    }

    /// The call that reads the highest speed of the fan.
    pub fn get_max_rpm_call() -> (call: MethodCall)
        ensures
            call.evaluates(
                "\\_SB.ECT0.TGVR"@,
                seq![Datum::Integer(1), Datum::Buffer(Variable::FanMaxRpm.spec_guid().bytes_le())],
            ),
    {
        Acpi::get_var_call(Variable::FanMaxRpm.guid())
    }

    /// The call that reads a threshold, in tenths of a kelvin.
    pub fn get_threshold_call(threshold: Threshold) -> (call: MethodCall)
        ensures
            call.evaluates(
                "\\_SB.ECT0.TGVR"@,
                seq![
                    Datum::Integer(1),
                    Datum::Buffer(threshold.spec_variable().spec_guid().bytes_le()),
                ],
            ),
    {
        Acpi::get_var_call(threshold.variable().guid())
    }

    /// The call that sets the speed of the fan.
    pub fn set_rpm_call(rpm: u32) -> (call: MethodCall)
        ensures
            call.evaluates(
                "\\_SB.ECT0.TSVR"@,
                seq![
                    Datum::Integer(1),
                    Datum::Buffer(Variable::FanCurrentRpm.spec_guid().bytes_le()),
                    Datum::Integer(rpm),
                ],
            ),
    {
        Acpi::set_var_call(Variable::FanCurrentRpm.guid(), rpm)
    }

    /// The call that reads the state of the battery.
    pub fn get_bst_call() -> (call: MethodCall)
        ensures
            call.evaluates("\\_SB.ECT0.TBST"@, Seq::<Datum>::empty()),
    {
        proof {
            reveal_strlit("\\_SB.ECT0.TBST");
        }
        let args: Vec<AcpiValue> = Vec::new();
        assert(data_of(args@) == Seq::<Datum>::empty());
        plain_call("\\_SB.ECT0.TBST", args)
    }

    /// The call that reads what is known of the battery.
    pub fn get_bix_call() -> (call: MethodCall)
        ensures
            call.evaluates("\\_SB.ECT0.TBIX"@, Seq::<Datum>::empty()),
    {
        proof {
            reveal_strlit("\\_SB.ECT0.TBIX");
        }
        let args: Vec<AcpiValue> = Vec::new();
        assert(data_of(args@) == Seq::<Datum>::empty());
        plain_call("\\_SB.ECT0.TBIX", args)
    }

    /// The call that sets the trip point of the battery.
    pub fn set_btp_call(trippoint: u32) -> (call: MethodCall)
        ensures
            call.evaluates("\\_SB.ECT0.TBTP"@, seq![Datum::Integer(trippoint)]),
    {
        proof {
            reveal_strlit("\\_SB.ECT0.TBTP");
        }
        let mut args: Vec<AcpiValue> = Vec::new();
        args.push(AcpiValue::Integer(trippoint));
        assert(data_of(args@) == seq![Datum::Integer(trippoint)]);
        plain_call("\\_SB.ECT0.TBTP", args)
    }

    /// The value of the variable that was read.
    pub fn get_var_result(output: &Result<Vec<AcpiValue>, AcpiParseError>) -> (value: Result<
        u32,
        AcpiError,
    >)
        ensures
            value == variable_value(outcome(*output)),
    {
        match output {
            Err(e) => Err(AcpiError::Evaluation(*e)),
            Ok(values) => {
                if values.len() != 2 {
                    return Err(AcpiError::Unrecognized);
                }
                assert(data_of(values@)[0] == values@[0]@);
                assert(data_of(values@)[1] == values@[1]@);
                match (integer_at(values.as_slice(), 0), integer_at(values.as_slice(), 1)) {
                    (Some(code), Some(value)) => if code == 0 {
                        Ok(value)
                    } else {
                        Err(AcpiError::ErrorCode(code))
                    },
                    _ => Err(AcpiError::Unrecognized),
                }
            },
        }
    }

    /// Whether the variable was set.
    pub fn set_var_result(output: &Result<Vec<AcpiValue>, AcpiParseError>) -> (done: Result<
        (),
        AcpiError,
    >)
        ensures
            done == variable_was_set(outcome(*output)),
    {
        match Acpi::evaluate_u32_result(output) {
            Err(e) => Err(e),
            Ok(code) => if code == 0 {
                Ok(())
            } else {
                Err(AcpiError::ErrorCode(code))
            },
        }
    }

    /// The state of the battery that was read.
    pub fn get_bst_result(output: &Result<Vec<AcpiValue>, AcpiParseError>) -> (data: Result<
        BstData,
        AcpiError,
    >)
        ensures
            data == battery_state(outcome(*output)),
    {
        match output {
            Err(e) => Err(AcpiError::Evaluation(*e)),
            Ok(values) => {
                if values.len() != 4 {
                    return Err(AcpiError::Unrecognized);
                }
                let values = values.as_slice();
                assert(data_of(values@)[0] == values@[0]@);
                assert(data_of(values@)[1] == values@[1]@);
                assert(data_of(values@)[2] == values@[2]@);
                assert(data_of(values@)[3] == values@[3]@);
                match (
                    integer_at(values, 0),
                    integer_at(values, 1),
                    integer_at(values, 2),
                    integer_at(values, 3),
                ) {
                    (Some(state), Some(rate), Some(capacity), Some(voltage)) => Ok(
                        BstData { state, rate, capacity, voltage },
                    ),
                    _ => Err(AcpiError::Unrecognized),
                }
            },
        }
    }

    /// What is known of the battery, as it was read.
    pub fn get_bix_result(output: &Result<Vec<AcpiValue>, AcpiParseError>) -> (data: Result<
        BixData,
        AcpiError,
    >)
        ensures
            match outcome(*output) {
                Err(e) => data matches Err(x) && x == AcpiError::Evaluation(e),
                Ok(vs) => if is_bix(vs) {
                    data matches Ok(d) && d@ == vs
                } else {
                    data matches Err(x) && x == AcpiError::Unrecognized
                },
            },
    {
        match output {
            Err(e) => Err(AcpiError::Evaluation(*e)),
            Ok(values) => match bix_data(values.as_slice()) {
                Some(data) => Ok(data),
                None => Err(AcpiError::Unrecognized),
            },
        }
    }

    /// Whether the trip point was set. No value is expected, and any that came is left alone.
    pub fn set_btp_result(output: &Result<Vec<AcpiValue>, AcpiParseError>) -> (done: Result<
        (),
        AcpiError,
    >)
        ensures
            done == match outcome(*output) {
                Ok(_) => Ok::<(), AcpiError>(()),
                Err(e) => Err(AcpiError::Evaluation(e)),
            },
    {
        match output {
            Ok(_) => Ok(()),
            Err(e) => Err(AcpiError::Evaluation(*e)),
        }
    }
}

/// The data of the battery that the values give, if they have its types.
fn bix_data(values: &[AcpiValue]) -> (data: Option<BixData>)
    ensures
        is_bix(data_of(values@)) ==> (data matches Some(d) && d@ == data_of(values@)),
        !is_bix(data_of(values@)) ==> data is None,
{
    if values.len() != 21 {
        return None;
    }
    let ghost vs = data_of(values@);
    assert(forall|i: int| 0 <= i < 21 ==> vs[i] == #[trigger] values@[i]@);
    let data = BixData {
        revision: integer_at(values, 0)?,
        power_unit: integer_at(values, 1)?,
        design_capacity: integer_at(values, 2)?,
        last_full_capacity: integer_at(values, 3)?,
        battery_technology: integer_at(values, 4)?,
        design_voltage: integer_at(values, 5)?,
        warning_capacity: integer_at(values, 6)?,
        low_capacity: integer_at(values, 7)?,
        cycle_count: integer_at(values, 8)?,
        accuracy: integer_at(values, 9)?,
        max_sample_time: integer_at(values, 10)?,
        min_sample_time: integer_at(values, 11)?,
        max_average_interval: integer_at(values, 12)?,
        min_average_interval: integer_at(values, 13)?,
        capacity_gran1: integer_at(values, 14)?,
        capacity_gran2: integer_at(values, 15)?,
        model_number: text_at(values, 16)?,
        serial_number: text_at(values, 17)?,
        battery_type: text_at(values, 18)?,
        oem_info: text_at(values, 19)?,
        swap_cap: integer_at(values, 20)?,
    };
    assert(data@ == vs);
    Some(data)
}

} // verus!
