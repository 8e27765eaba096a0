use ec_acpi::guid::Variable;
use ec_acpi::source::{BstData, Threshold};
use ec_acpi::{Acpi, AcpiError, AcpiParseError, AcpiValue, MethodCall};

type Output = Result<Vec<AcpiValue>, AcpiParseError>;

fn number(i: u32) -> AcpiValue {
    AcpiValue::Integer(i)
}

fn text(s: &str) -> AcpiValue {
    AcpiValue::String(s.to_string())
}

fn shown(call: &MethodCall) -> (&'static str, String) {
    (call.name, format!("{:?}", call.args))
}

fn get_var_of(variable: Variable) -> (&'static str, String) {
    ("\\_SB.ECT0.TGVR", format!("{:?}", [number(1), AcpiValue::from_guid(variable.guid())]))
}

fn failed() -> Output {
    Err(AcpiParseError::EvaluationFailed(7))
}

const FAILED: AcpiError = AcpiError::Evaluation(AcpiParseError::EvaluationFailed(7));

#[test]
fn controller_is_made() {
    let acpi = Acpi::new();
    let _copy = acpi;
    let _default: Acpi = Default::default();
    let _again = acpi;
}

#[test]
fn calls_without_arguments() {
    assert_eq!(shown(&Acpi::get_temperature_call()), ("\\_SB.ECT0.RTMP", "[]".to_string()));
    assert_eq!(shown(&Acpi::get_bst_call()), ("\\_SB.ECT0.TBST", "[]".to_string()));
    assert_eq!(shown(&Acpi::get_bix_call()), ("\\_SB.ECT0.TBIX", "[]".to_string()));
    assert_eq!(shown(&Acpi::get_capabilities_call()), ("\\_SB.ECT0._GCP", "[]".to_string()));
    assert_eq!(shown(&Acpi::get_real_time_call()), ("\\_SB.ECT0._GRT", "[]".to_string()));
}

#[test]
fn calls_with_an_integer() {
    assert_eq!(shown(&Acpi::set_btp_call(50)), ("\\_SB.ECT0.TBTP", "[Integer(50)]".to_string()));
    assert_eq!(shown(&Acpi::get_wake_status_call(0)), ("\\_SB.ECT0._GWS", "[Integer(0)]".to_string()));
    assert_eq!(
        shown(&Acpi::get_expired_timer_wake_policy_call(1)),
        ("\\_SB.ECT0._TIP", "[Integer(1)]".to_string())
    );
    assert_eq!(shown(&Acpi::get_timer_value_call(1)), ("\\_SB.ECT0._TIV", "[Integer(1)]".to_string()));
}

#[test]
fn calls_that_read_variables() {
    assert_eq!(
        shown(&Acpi::get_var_call(Variable::FanOnTemp.guid())),
        (
            "\\_SB.ECT0.TGVR",
            "[Integer(1), Buffer([103, 181, 23, 186, 104, 195, 213, 72, 188, 111, 163, 18, 164, 21, 131, 193])]"
                .to_string()
        )
    );
    assert_eq!(shown(&Acpi::get_rpm_call()), get_var_of(Variable::FanCurrentRpm));
    assert_eq!(shown(&Acpi::get_min_rpm_call()), get_var_of(Variable::FanMinRpm));
    assert_eq!(shown(&Acpi::get_max_rpm_call()), get_var_of(Variable::FanMaxRpm));
    assert_eq!(shown(&Acpi::get_threshold_call(Threshold::On)), get_var_of(Variable::FanOnTemp));
    assert_eq!(shown(&Acpi::get_threshold_call(Threshold::Ramping)), get_var_of(Variable::FanRampTemp));
    assert_eq!(shown(&Acpi::get_threshold_call(Threshold::Max)), get_var_of(Variable::FanMaxTemp));
}

#[test]
fn calls_that_set_variables() {
    let guid = Variable::FanCurrentRpm.guid();
    let args = format!("{:?}", [number(1), AcpiValue::from_guid(guid), number(3000)]);
    assert_eq!(shown(&Acpi::set_var_call(guid, 3000)), ("\\_SB.ECT0.TSVR", args.clone()));
    assert_eq!(shown(&Acpi::set_rpm_call(3000)), ("\\_SB.ECT0.TSVR", args));
}

#[test]
fn calls_are_requested() {
    let bytes = Acpi::set_btp_call(0x0102).request().unwrap();
    assert_eq!(&bytes[..4], b"AeiF");
    assert_eq!(&bytes[4..19], b"\\_SB.ECT0.TBTP\0");
    assert_eq!(&bytes[260..], &[8, 0, 0, 0, 1, 0, 0, 0, 0, 0, 4, 0, 2, 1, 0, 0]);
    let call = MethodCall { name: "m", args: (0..8).map(number).collect() };
    assert_eq!(call.request(), Err(AcpiParseError::InsufficientLength));
}

#[test]
fn single_integer_results() {
    assert_eq!(Acpi::evaluate_u32_result(&Ok(vec![number(42)])), Ok(42));
    assert_eq!(Acpi::evaluate_u32_result(&Ok(vec![])), Err(AcpiError::UnexpectedCount(0)));
    assert_eq!(
        Acpi::evaluate_u32_result(&Ok(vec![number(1), number(2)])),
        Err(AcpiError::UnexpectedCount(2))
    );
    assert_eq!(Acpi::evaluate_u32_result(&Ok(vec![text("1")])), Err(AcpiError::NotAnInteger));
    assert_eq!(Acpi::evaluate_u32_result(&failed()), Err(FAILED));
}

#[test]
fn variable_results() {
    assert_eq!(Acpi::get_var_result(&Ok(vec![number(0), number(2982)])), Ok(2982));
    assert_eq!(Acpi::get_var_result(&Ok(vec![number(5), number(2982)])), Err(AcpiError::ErrorCode(5)));
    assert_eq!(Acpi::get_var_result(&Ok(vec![number(0)])), Err(AcpiError::Unrecognized));
    assert_eq!(Acpi::get_var_result(&Ok(vec![number(0), number(1), number(2)])), Err(AcpiError::Unrecognized));
    assert_eq!(Acpi::get_var_result(&Ok(vec![number(5), text("x")])), Err(AcpiError::Unrecognized));
    assert_eq!(Acpi::get_var_result(&Ok(vec![text("x"), number(5)])), Err(AcpiError::Unrecognized));
    assert_eq!(Acpi::get_var_result(&failed()), Err(FAILED));
}

#[test]
fn results_of_setting_variables() {
    assert_eq!(Acpi::set_var_result(&Ok(vec![number(0)])), Ok(()));
    assert_eq!(Acpi::set_var_result(&Ok(vec![number(3)])), Err(AcpiError::ErrorCode(3)));
    assert_eq!(Acpi::set_var_result(&Ok(vec![])), Err(AcpiError::UnexpectedCount(0)));
    assert_eq!(Acpi::set_var_result(&Ok(vec![text("")])), Err(AcpiError::NotAnInteger));
    assert_eq!(Acpi::set_var_result(&failed()), Err(FAILED));
}

#[test]
fn battery_state_results() {
    assert_eq!(
        Acpi::get_bst_result(&Ok(vec![number(2), number(100), number(4000), number(12000)])),
        Ok(BstData { state: 2, rate: 100, capacity: 4000, voltage: 12000 })
    );
    assert_eq!(Acpi::get_bst_result(&Ok(vec![number(2), number(1), number(4)])), Err(AcpiError::Unrecognized));
    assert_eq!(
        Acpi::get_bst_result(&Ok(vec![number(2), number(1), text("4"), number(5)])),
        Err(AcpiError::Unrecognized)
    );
    assert_eq!(Acpi::get_bst_result(&failed()), Err(FAILED));
}

fn bix_values() -> Vec<AcpiValue> {
    let mut values: Vec<AcpiValue> = (100..116).map(number).collect();
    values.push(text("model"));
    values.push(text("serial"));
    values.push(text("type"));
    values.push(text("oem"));
    values.push(number(120));
    values
}

#[test]
fn battery_information_results() {
    let d = Acpi::get_bix_result(&Ok(bix_values())).unwrap();
    let integers = [
        d.revision,
        d.power_unit,
        d.design_capacity,
        d.last_full_capacity,
        d.battery_technology,
        d.design_voltage,
        d.warning_capacity,
        d.low_capacity,
        d.cycle_count,
        d.accuracy,
        d.max_sample_time,
        d.min_sample_time,
        d.max_average_interval,
        d.min_average_interval,
        d.capacity_gran1,
        d.capacity_gran2,
    ];
    assert_eq!(integers.to_vec(), (100u32..116).collect::<Vec<u32>>());
    assert_eq!(d.model_number, "model");
    assert_eq!(d.serial_number, "serial");
    assert_eq!(d.battery_type, "type");
    assert_eq!(d.oem_info, "oem");
    assert_eq!(d.swap_cap, 120);
}

#[test]
fn battery_information_of_other_types_is_unrecognized() {
    for i in 0..21 {
        let mut values = bix_values();
        values[i] = AcpiValue::Buffer(vec![1]);
        assert_eq!(Acpi::get_bix_result(&Ok(values)).unwrap_err(), AcpiError::Unrecognized);
    }
    let mut values = bix_values();
    values.pop();
    assert_eq!(Acpi::get_bix_result(&Ok(values)).unwrap_err(), AcpiError::Unrecognized);
    let package = AcpiValue::Package(Box::new(bix_values()));
    assert_eq!(Acpi::get_bix_result(&Ok(vec![package])).unwrap_err(), AcpiError::Unrecognized);
    assert_eq!(Acpi::get_bix_result(&failed()).unwrap_err(), FAILED);
}

#[test]
fn trip_point_results() {
    assert_eq!(Acpi::set_btp_result(&Ok(vec![])), Ok(()));
    assert_eq!(Acpi::set_btp_result(&Ok(vec![text("x"), number(1)])), Ok(()));
    assert_eq!(Acpi::set_btp_result(&failed()), Err(FAILED));
}

#[test]
fn real_time_results() {
    let buffer = AcpiValue::Buffer(vec![1, 2, 3]);
    assert_eq!(Acpi::get_real_time_result(&Ok(vec![buffer])), Ok(vec![1, 2, 3]));
    assert_eq!(Acpi::get_real_time_result(&Ok(vec![number(1)])), Err(AcpiError::Unrecognized));
    assert_eq!(Acpi::get_real_time_result(&Ok(vec![])), Err(AcpiError::Unrecognized));
    let two = vec![AcpiValue::Buffer(vec![1]), AcpiValue::Buffer(vec![1])];
    assert_eq!(Acpi::get_real_time_result(&Ok(two)), Err(AcpiError::Unrecognized));
    assert_eq!(Acpi::get_real_time_result(&failed()), Err(FAILED));
}

#[test]
fn thresholds_are_variables() {
    assert_eq!(Threshold::On.variable(), Variable::FanOnTemp);
    assert_eq!(Threshold::Ramping.variable(), Variable::FanRampTemp);
    assert_eq!(Threshold::Max.variable(), Variable::FanMaxTemp);
}
