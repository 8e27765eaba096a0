//! Errors of the wire format and of the methods.
use vstd::prelude::*;
use vstd::string::StringExecFns;

verus! {

/// Why a request could not be encoded or evaluated, or a reply not decoded.
#[derive(Debug, Clone, Copy, PartialEq, Eq, Structural)]
pub enum AcpiParseError {
    InsufficientLength,
    InvalidFormat,
    /// The driver gave this status.
    EvaluationFailed(i32),
}

/// Why a method gave no result.
#[derive(Debug, Clone, Copy, PartialEq, Eq, Structural)]
pub enum AcpiError {
    /// The method was not evaluated.
    Evaluation(AcpiParseError),
    /// One value was expected, and this many came.
    UnexpectedCount(usize),
    /// The one value that came is not an integer.
    NotAnInteger,
    /// The method gave this error code.
    ErrorCode(u32),
    /// The values are not those that the method gives.
    Unrecognized,
}

/// The decimal digit for `d`.
pub open spec fn digit(d: int) -> char {
    if d == 0 {
        '0'
    } else if d == 1 {
        '1'
    } else if d == 2 {
        '2'
    } else if d == 3 {
        '3'
    } else if d == 4 {
        '4'
    } else if d == 5 {
        '5'
    } else if d == 6 {
        '6'
    } else if d == 7 {
        '7'
    } else if d == 8 {
        '8'
    } else {
        '9'
    }
}

/// The decimal digits of `n`.
pub open spec fn digits(n: nat) -> Seq<char>
    decreases n,
{
    if n < 10 {
        seq![digit(n as int)]
    } else {
        digits(n / 10).push(digit((n % 10) as int))
    }
}

/// `n` in decimal, with a sign where it is negative.
pub open spec fn decimal(n: int) -> Seq<char> {
    if n < 0 {
        seq!['-'] + digits((-n) as nat)
    } else {
        digits(n as nat)
    }
}

fn digit_text(d: u32) -> (text: &'static str)
    requires
        d < 10,
    ensures
        text@ == seq![digit(d as int)],
{
    proof {
        reveal_strlit("0");
        reveal_strlit("1");
        reveal_strlit("2");
        reveal_strlit("3");
        reveal_strlit("4");
        reveal_strlit("5");
        reveal_strlit("6");
        reveal_strlit("7");
        reveal_strlit("8");
        reveal_strlit("9");
    }
    if d == 0 {
        "0"
    } else if d == 1 {
        "1"
    } else if d == 2 {
        "2"
    } else if d == 3 {
        "3"
    } else if d == 4 {
        "4"
    } else if d == 5 {
        "5"
    } else if d == 6 {
        "6"
    } else if d == 7 {
        "7"
    } else if d == 8 {
        "8"
    } else {
        "9"
    }
}

fn digits_text(n: u32) -> (text: String)
    ensures
        text@ == digits(n as nat),
    decreases n,
{
    if n < 10 {
        digit_text(n).to_owned()
    } else {
        let mut text = digits_text(n / 10);
        text.append(digit_text(n % 10));
        text
    }
}

impl AcpiParseError {
    /// The error in words.
    pub open spec fn words(self) -> Seq<char> {
        match self {
            AcpiParseError::InsufficientLength => "InsufficientLength"@,
            AcpiParseError::InvalidFormat => "InvalidFormat"@,
            AcpiParseError::EvaluationFailed(status) => "EvaluationFailed("@ + decimal(status as int)
                + ")"@,
        }
    }

    /// The error in words: its name, with the status in brackets where it has one.
    pub fn describe(&self) -> (text: String)
        ensures
            text@ == self.words(),
    {
        match self {
            AcpiParseError::InsufficientLength => "InsufficientLength".to_owned(),
            AcpiParseError::InvalidFormat => "InvalidFormat".to_owned(),
            AcpiParseError::EvaluationFailed(status) => {
                let mut text = "EvaluationFailed(".to_owned();
                let status: i64 = *status as i64;
                if status < 0 {
                    text.append("-");
                    proof {
                        reveal_strlit("-");
                        assert("-"@ == seq!['-']);
                    }
                    text.append(digits_text((-status) as u32).as_str());
                } else {
                    text.append(digits_text(status as u32).as_str());
                }
                text.append(")");
                text
            },
        }
    }
}

} // verus!
