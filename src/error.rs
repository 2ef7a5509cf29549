use vstd::prelude::*;

verus! {

/// Why an expression could not be reduced to a number. Positions count
/// characters of the canonical string.
#[derive(Clone, Copy, PartialEq, Eq, Debug, Structural)]
pub enum EvalError {
    /// An unknown character, or a number literal without digits.
    Tokenize { pos: usize },
    /// An unexpected token, an unmatched parenthesis or trailing input.
    Parse { pos: usize },
    /// A divisor that is exactly zero.
    DivisionByZero,
    /// An operand outside a function's domain, such as a negative root.
    Domain,
    /// A final value that is not a finite number.
    NonFiniteResult,
}

/// The human-readable text of each kind of error.
pub open spec fn message_of(e: EvalError) -> Seq<char> {
    match e {
        EvalError::Tokenize { .. } => "unrecognized character or malformed number"@,
        EvalError::Parse { .. } => "malformed expression"@,
        EvalError::DivisionByZero => "division by zero"@,
        EvalError::Domain => "square root of a negative number"@,
        EvalError::NonFiniteResult => "result is not a finite number"@,
    }
}

impl EvalError {
    /// The human-readable text of the error.
    pub fn message(&self) -> (r: String)
        ensures
            r@ == message_of(*self),
    {
        match self {
            EvalError::Tokenize { .. } => "unrecognized character or malformed number".to_owned(),
            EvalError::Parse { .. } => "malformed expression".to_owned(),
            EvalError::DivisionByZero => "division by zero".to_owned(),
            EvalError::Domain => "square root of a negative number".to_owned(),
            EvalError::NonFiniteResult => "result is not a finite number".to_owned(),
        }
    }
}

} // verus!
