//! The identifiers of the controller's variables.
use vstd::prelude::*;
use vstd::slice::slice_to_vec;
use crate::bytes::{le16, le32};
use crate::value::{AcpiValue, Datum};

verus! {

/// A globally unique identifier. Its text form is the hexadecimal digits of its fields in their
/// order.
#[derive(Debug, Clone, Copy, PartialEq, Eq, Structural)]
pub struct Guid {
    /// The first group of the text form.
    pub data1: u32,
    /// The second group.
    pub data2: u16,
    /// The third group.
    pub data3: u16,
    /// The fourth and the fifth group.
    pub data4: u64,
}

/// The eight bytes of `x`, most significant first.
pub open spec fn be64(x: u64) -> Seq<u8> {
    seq![
        (x / 0x100_0000_0000_0000) as u8,
        (x / 0x1_0000_0000_0000 % 256) as u8,
        (x / 0x100_0000_0000 % 256) as u8,
        (x / 0x1_0000_0000 % 256) as u8,
        (x / 0x100_0000 % 256) as u8,
        (x / 0x1_0000 % 256) as u8,
        (x / 0x100 % 256) as u8,
        (x % 256) as u8,
    ]
}

impl Guid {
    /// The bytes of the identifier: the first three fields with their least significant byte
    /// first, the last with its most significant byte first.
    pub open spec fn bytes_le(self) -> Seq<u8> {
        le32(self.data1) + le16(self.data2) + le16(self.data3) + be64(self.data4)
    }
}

/// Calls `uuid::Uuid::to_bytes_le` on the identifier with these fields. It gives the first three
/// fields with their least significant byte first and the bytes of the last as they stand in the
/// text form.
#[verifier::external_body]
fn uuid_bytes_le(data1: u32, data2: u16, data3: u16, data4: u64) -> (bytes: [u8; 16])
    ensures
        bytes@ == le32(data1) + le16(data2) + le16(data3) + be64(data4),
{
    uuid::Uuid::from_fields(data1, data2, data3, &data4.to_be_bytes()).to_bytes_le()
}

impl AcpiValue {
    /// The identifier as a method takes it.
    pub fn from_guid(guid: Guid) -> (value: AcpiValue)
        ensures
            value@ == Datum::Buffer(guid.bytes_le()),
    {
        let bytes = uuid_bytes_le(guid.data1, guid.data2, guid.data3, guid.data4);
        AcpiValue::Buffer(slice_to_vec(bytes.as_slice()))
    }
}

/// The variables of the controller that have an identifier of their own.
#[derive(Debug, Clone, Copy, PartialEq, Eq, Structural)]
pub enum Variable {
    /// The critical temperature of the sensor.
    SensorCrtTemp,
    /// The temperature at which the sensor throttles the processor.
    SensorProchotTemp,
    /// The temperature at which the fan starts.
    FanOnTemp,
    /// The temperature at which the fan starts to ramp up.
    FanRampTemp,
    /// The temperature at which the fan runs at its highest speed.
    FanMaxTemp,
    /// The lowest speed of the fan.
    FanMinRpm,
    /// The highest speed of the fan.
    FanMaxRpm,
    /// The speed of the fan.
    FanCurrentRpm,
}

impl Variable {
    /// The identifier of the variable.
    pub open spec fn spec_guid(self) -> Guid {
        match self {
            Variable::SensorCrtTemp => Guid { data1: 0x2182_46e7, data2: 0xbaf6, data3: 0x45f1, data4: 0xaa13_07e4_8452_56b8 },
            Variable::SensorProchotTemp => Guid { data1: 0x22dc_52d2, data2: 0xfd0b, data3: 0x47ab, data4: 0x95b8_2655_2f98_31a5 },
            Variable::FanOnTemp => Guid { data1: 0xba17_b567, data2: 0xc368, data3: 0x48d5, data4: 0xbc6f_a312_a415_83c1 },
            Variable::FanRampTemp => Guid { data1: 0x3a62_688c, data2: 0xd95b, data3: 0x4d2d, data4: 0xbacc_90d7_a581_6bcd },
            Variable::FanMaxTemp => Guid { data1: 0xdcb7_58b1, data2: 0xf0fd, data3: 0x4ec7, data4: 0xb2c0_ef1e_2a54_7b76 },
            Variable::FanMinRpm => Guid { data1: 0xdb26_1c77, data2: 0x934b, data3: 0x45e2, data4: 0x9742_256c_62ba_db7a },
            Variable::FanMaxRpm => Guid { data1: 0x5cf8_39df, data2: 0x8be7, data3: 0x42b9, data4: 0x9ac5_3403_ca2c_8a6a },
            Variable::FanCurrentRpm => Guid { data1: 0xadf9_5492, data2: 0x0776, data3: 0x4ffc, data4: 0x84f3_b6c8_b526_9683 },
        }
    }

    /// The identifier of the variable.
    pub fn guid(self) -> (guid: Guid)
        ensures
            guid == self.spec_guid(),
    {
        match self {
            // 218246e7-baf6-45f1-aa13-07e4845256b8
            Variable::SensorCrtTemp => Guid { data1: 0x2182_46e7, data2: 0xbaf6, data3: 0x45f1, data4: 0xaa13_07e4_8452_56b8 },
            // 22dc52d2-fd0b-47ab-95b8-26552f9831a5
            Variable::SensorProchotTemp => Guid { data1: 0x22dc_52d2, data2: 0xfd0b, data3: 0x47ab, data4: 0x95b8_2655_2f98_31a5 },
            // ba17b567-c368-48d5-bc6f-a312a41583c1
            Variable::FanOnTemp => Guid { data1: 0xba17_b567, data2: 0xc368, data3: 0x48d5, data4: 0xbc6f_a312_a415_83c1 },
            // 3a62688c-d95b-4d2d-bacc-90d7a5816bcd
            Variable::FanRampTemp => Guid { data1: 0x3a62_688c, data2: 0xd95b, data3: 0x4d2d, data4: 0xbacc_90d7_a581_6bcd },
            // dcb758b1-f0fd-4ec7-b2c0-ef1e2a547b76
            Variable::FanMaxTemp => Guid { data1: 0xdcb7_58b1, data2: 0xf0fd, data3: 0x4ec7, data4: 0xb2c0_ef1e_2a54_7b76 },
            // db261c77-934b-45e2-9742-256c62badb7a
            Variable::FanMinRpm => Guid { data1: 0xdb26_1c77, data2: 0x934b, data3: 0x45e2, data4: 0x9742_256c_62ba_db7a },
            // 5cf839df-8be7-42b9-9ac5-3403ca2c8a6a
            Variable::FanMaxRpm => Guid { data1: 0x5cf8_39df, data2: 0x8be7, data3: 0x42b9, data4: 0x9ac5_3403_ca2c_8a6a },
            // adf95492-0776-4ffc-84f3-b6c8b5269683
            Variable::FanCurrentRpm => Guid { data1: 0xadf9_5492, data2: 0x0776, data3: 0x4ffc, data4: 0x84f3_b6c8_b526_9683 },
        }
    }
}

} // verus!
