//! Client side of the ACPI methods of an embedded controller: the values that methods take and
//! give, the requests and replies that carry them to and from the driver, and the methods.
pub mod bytes;
pub mod decode;
pub mod error;
pub mod evaluate;
pub mod format_laws;
pub mod guid;
pub mod laws;
mod layout;
pub mod message;
pub mod method_laws;
pub mod rtc;
pub mod source;
pub mod text;
pub mod value;

pub use crate::error::{AcpiError, AcpiParseError};
pub use crate::evaluate::{Acpi, MethodCall};
pub use crate::message::{deserialize_acpi_response, serialize_acpi_request};
pub use crate::value::AcpiValue;
