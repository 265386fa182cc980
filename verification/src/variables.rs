//! The grammar of setting a user variable: `<name> = <value>`, where the
//! name is made of letters and the value is a whole number, possibly
//! negative.
use crate::parser::{decimal_value, lemma_decimal_value_nonneg, parse_i32_range, parse_i32, StreamError};
use crate::text::{
    all_in, alpha_end_exec, alpha_pred, digit_end_exec, digit_pred, lemma_run_end, run_end,
    string_of, ws_end_exec, ws_pred,
};
use vstd::prelude::*;

verus! {

/// Errors of parsing a variable assignment.
#[derive(Debug, Clone, Copy, PartialEq, Eq, Structural)]
pub enum VariableParsingError {
    /// The value is not a number that fits an `i32`.
    InvalidValue,
    /// Text is left after the value.
    UnconsumedInput,
    /// The text does not follow the grammar.
    InternalParseError(StreamError),
}

/// The error for text that does not follow the grammar at position `i`:
/// the end of the input, or an unexpected character.
pub open spec fn stream_error_at(s: Seq<char>, i: int) -> StreamError {
    if i >= s.len() {
        StreamError::Eoi
    } else {
        StreamError::UnexpectedParse
    }
}

/// The result of parsing `s` as an assignment: the variable name and value.
pub open spec fn spec_parse_set_variable(s: Seq<char>) -> Result<(Seq<char>, i32), VariableParsingError> {
    let n = run_end(s, 0, alpha_pred());
    let a = run_end(s, n, ws_pred());
    let b = run_end(s, a + 1, ws_pred());
    let m = if b < s.len() && s[b] == '-' { b + 1 } else { b };
    let d = run_end(s, m, digit_pred());
    if n == 0 {
        Err(VariableParsingError::InternalParseError(stream_error_at(s, 0)))
    } else if a >= s.len() || s[a] != '=' {
        Err(VariableParsingError::InternalParseError(stream_error_at(s, a)))
    } else if d == m {
        Err(VariableParsingError::InternalParseError(stream_error_at(s, m)))
    } else if d < s.len() {
        Err(VariableParsingError::UnconsumedInput)
    } else {
        match parse_i32(s.subrange(m, d)) {
            None => Err(VariableParsingError::InvalidValue),
            Some(v) => if m == b {
                Ok((s.subrange(0, n), v))
            } else {
                Ok((s.subrange(0, n), -v as i32))
            },
        }
    }
}

/// Parse a variable assignment such as `myvar = 5` into the variable name
/// and its value.
pub fn parse_set_variable(input: &Vec<char>) -> (r: Result<(String, i32), VariableParsingError>)
    ensures
        match spec_parse_set_variable(input@) {
            Ok((name, value)) => r matches Ok((n, v)) && n@ == name && v == value,
            Err(e) => r == Err::<(String, i32), VariableParsingError>(e),
        },
{
    let s = input;
    let n = alpha_end_exec(s, 0);
    proof {
        lemma_run_end(s@, 0, alpha_pred());
    }
    let a = ws_end_exec(s, n);
    proof {
        lemma_run_end(s@, n as int, ws_pred());
    }
    if n == 0 {
        return Err(
            VariableParsingError::InternalParseError(
                if s.len() == 0 {
                    StreamError::Eoi
                } else {
                    StreamError::UnexpectedParse
                },
            ),
        );
    }
    if a >= s.len() || s[a] != '=' {
        return Err(
            VariableParsingError::InternalParseError(
                if a >= s.len() {
                    StreamError::Eoi
                } else {
                    StreamError::UnexpectedParse
                },
            ),
        );
    }
    let b = ws_end_exec(s, a + 1);
    proof {
        lemma_run_end(s@, a + 1, ws_pred());
    }
    let m = if b < s.len() && s[b] == '-' {
        b + 1
    } else {
        b
    };
    let d = digit_end_exec(s, m);
    proof {
        lemma_run_end(s@, m as int, digit_pred());
    }
    if d == m {
        return Err(
            VariableParsingError::InternalParseError(
                if m >= s.len() {
                    StreamError::Eoi
                } else {
                    StreamError::UnexpectedParse
                },
            ),
        );
    }
    if d < s.len() {
        return Err(VariableParsingError::UnconsumedInput);
    }
    let name = string_of(s, 0, n);
    proof {
        let t = s@.subrange(m as int, d as int);
        assert(all_in(t, 0, t.len() as int, digit_pred())) by {
            assert forall|k: int| 0 <= k < t.len() implies #[trigger] digit_pred()(t[k]) by {
                assert(digit_pred()(s@[m + k]));
            }
        }
        lemma_decimal_value_nonneg(t);
    }
    match parse_i32_range(s, m, d) {
        None => Err(VariableParsingError::InvalidValue),
        Some(v) => if m == b {
            Ok((name, v))
        } else {
            Ok((name, -v))
        },
    }
}

}
