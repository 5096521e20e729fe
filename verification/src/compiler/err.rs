//! Structured diagnostics. The library only builds these records; rendering
//! them to the terminal is the caller's business.

use vstd::prelude::*;

verus! {

/// The error taxonomy: an internal fault, a source-level diagnostic, a usage
/// error, or a diagnostic that also points at a function definition line.
#[derive(Debug, Clone, Copy, PartialEq, Eq, Structural)]
pub enum ErrTyp {
    Internal,
    User,
    CommandLine,
    Function,
}

/// A character repeated `n` times.
pub open spec fn spec_repeat(c: char, n: int) -> Seq<char>
    decreases n,
{
    if n <= 0 {
        Seq::empty()
    } else {
        spec_repeat(c, n - 1).push(c)
    }
}

/// One diagnostic: a message with the source position it points at and the
/// width of the offending token, so that a renderer can draw a caret rule.
#[derive(Debug)]
pub struct Error {
    pub typ: ErrTyp,
    pub message: String,
    pub location: (usize, usize),
    pub filename: String,
    pub token_len: usize,
    pub function_line: Option<usize>,
}

impl Error {
    /// A source-level diagnostic at `location` (row, column, filename).
    pub fn new(message: String, location: (usize, usize, String), token_len: usize) -> (r: Error)
        ensures
            r.typ == ErrTyp::User,
            r.message == message,
            r.location == (location.0, location.1),
            r.filename == location.2,
            r.token_len == token_len,
            r.function_line is None,
    {
        Error {
            typ: ErrTyp::User,
            message,
            location: (location.0, location.1),
            filename: location.2,
            token_len,
            function_line: None,
        }
    }

    /// A diagnostic that also points at the line of the enclosing function
    /// definition.
    pub fn function(message: String, location: (usize, usize, String), token_len: usize, func_line: usize) -> (r: Error)
        ensures
            r.typ == ErrTyp::Function,
            r.message == message,
            r.location == (location.0, location.1),
            r.filename == location.2,
            r.token_len == token_len,
            r.function_line == Some(func_line),
    {
        Error {
            typ: ErrTyp::Function,
            message,
            location: (location.0, location.1),
            filename: location.2,
            token_len,
            function_line: Some(func_line),
        }
    }

    /// Either a plain or a function-pointing diagnostic, per `is_function`.
    pub fn typ(message: String, location: (usize, usize, String), token_len: usize, func_line: usize, is_function: bool) -> (r: Error)
        ensures
            r.typ == if is_function {
                ErrTyp::Function
            } else {
                ErrTyp::User
            },
            r.message == message,
            r.location == (location.0, location.1),
            r.filename == location.2,
            r.token_len == token_len,
            r.function_line == if is_function {
                Some(func_line)
            } else {
                None::<usize>
            },
    {
        if is_function {
            Self::function(message, location, token_len, func_line)
        } else {
            Self::new(message, location, token_len)
        }
    }

    /// The fixed diagnostic for a compiler bug observed at `location`.
    pub fn internal(location: (usize, usize, String)) -> (r: Error)
        ensures
            r.typ == ErrTyp::Internal,
            r.message@ == "An internal error occured while parsing or compiling the program"@,
            r.location == (location.0, location.1),
            r.filename == location.2,
            r.token_len == 1,
            r.function_line is None,
    {
        Error {
            typ: ErrTyp::Internal,
            message: String::from_str(
                "An internal error occured while parsing or compiling the program",
            ),
            location: (location.0, location.1),
            filename: location.2,
            token_len: 1,
            function_line: None,
        }
    }

    /// The caret rule drawn under the offending source line: the column the
    /// carets start at — two to the left of the position just past the
    /// token, floored at zero — and one caret per character of the token.
    pub fn caret_rule(&self) -> (r: (usize, String))
        ensures
            ({
                let base = if self.location.1 + 2 > usize::MAX {
                    usize::MAX as int
                } else {
                    self.location.1 + 2
                };
                r.0 == if base >= self.token_len {
                    base - self.token_len
                } else {
                    0int
                }
            }),
            r.1@ == spec_repeat('^', self.token_len as int),
    {
        let base = self.location.1.saturating_add(2);
        let column = if base >= self.token_len {
            base - self.token_len
        } else {
            0
        };
        let mut carets = String::new();
        let mut i: usize = 0;
        while i < self.token_len
            invariant
                0 <= i <= self.token_len,
                carets@ == spec_repeat('^', i as int),
            decreases self.token_len - i,
        {
            carets.append("^");
            proof {
                reveal_strlit("^");
                assert(carets@ =~= spec_repeat('^', i + 1));
            }
            i += 1;
        }
        (column, carets)
    }

    /// A usage error, with no source position.
    pub fn command_line(message: String) -> (r: Error)
        ensures
            r.typ == ErrTyp::CommandLine,
            r.message == message,
            r.location == (0usize, 0usize),
            r.filename@ == Seq::<char>::empty(),
            r.token_len == 0,
            r.function_line is None,
    {
        Error {
            typ: ErrTyp::CommandLine,
            message,
            location: (0, 0),
            filename: String::new(),
            token_len: 0,
            function_line: None,
        }
    }
}

} // verus!
