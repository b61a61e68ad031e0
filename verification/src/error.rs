//! Error types shared by the library.
use vstd::prelude::*;
use crate::text::{IntErrorKind, int_error_text};

verus! {

/// A hardware component that reported a failure.
#[derive(Debug)]
pub struct HardwareError {
    pub error: String,
    pub name: String,
    pub location: Option<String>,
    pub location_format: Option<String>,
    pub serial_number: Option<String>,
}

/// The text of an optional section: `prefix + value + suffix` when present.
pub open spec fn optional_section(v: Option<String>, prefix: Seq<char>, suffix: Seq<char>) -> Seq<char> {
    match v {
        Some(s) => prefix + s@ + suffix,
        None => Seq::empty(),
    }
}

/// The message a hardware error reads as.
pub open spec fn hardware_error_text(e: HardwareError) -> Seq<char> {
    "Error: "@ + e.error@ + ". "@ + e.name@
        + optional_section(e.serial_number, " with serial "@, Seq::empty())
        + optional_section(e.location, " at location "@, " "@)
        + optional_section(e.location_format, " with format "@, " "@)
}

fn push_section(out: &mut String, v: &Option<String>, prefix: &str, suffix: &str)
    ensures
        final(out)@ == old(out)@ + optional_section(*v, prefix@, suffix@),
{
    match v {
        Some(s) => {
            out.append(prefix);
            out.append(s.as_str());
            out.append(suffix);
        },
        None => {},
    }
}

impl HardwareError {
    /// The message describing this failure.
    pub fn to_string(&self) -> (res: String)
        ensures
            res@ == hardware_error_text(*self),
    {
        let mut err = String::from_str("Error: ");
        err.append(self.error.as_str());
        err.append(". ");
        err.append(self.name.as_str());
        push_section(&mut err, &self.serial_number, " with serial ", "");
        push_section(&mut err, &self.location, " at location ", " ");
        push_section(&mut err, &self.location_format, " with format ", " ");
        proof {
            reveal_strlit("");
        }
        assert(err@ =~= hardware_error_text(*self));
        err
    }
}

/// Errors raised by the library.
#[derive(Debug)]
pub enum BynarError {
    /// A plain message.
    Error(String),
    /// A failed hardware component.
    HardwareError(HardwareError),
    /// A number that could not be read.
    ParseIntError(IntErrorKind),
    /// A UUID that could not be read, with the reason.
    UuidError(String),
}

/// The message of a library error.
pub open spec fn bynar_error_text(e: BynarError) -> Seq<char> {
    match e {
        BynarError::Error(s) => s@,
        BynarError::HardwareError(h) => hardware_error_text(h),
        BynarError::ParseIntError(k) => int_error_text(k),
        BynarError::UuidError(s) => s@,
    }
}

impl BynarError {
    /// Create a new error carrying a message.
    pub fn new(err: String) -> (res: BynarError)
        ensures
            res == BynarError::Error(err),
    {
        BynarError::Error(err)
    }

    /// Create a new error from a message slice.
    pub fn from_str_msg(err: &str) -> (res: BynarError)
        ensures
            res matches BynarError::Error(s) && s@ == err@,
    {
        BynarError::Error(String::from_str(err))
    }

    /// The message of this error.
    pub fn to_string(&self) -> (res: String)
        ensures
            res@ == bynar_error_text(*self),
    {
        match self {
            BynarError::Error(s) => s.clone(),
            BynarError::HardwareError(h) => h.to_string(),
            BynarError::ParseIntError(k) => k.to_string(),
            BynarError::UuidError(s) => s.clone(),
        }
    }
}

} // verus!
