use vstd::prelude::*;

verus! {

/// 0-based position (line, column) of a token, AST node or error in the
/// original source text.
#[derive(Clone, Copy, Debug, PartialEq, Eq, Structural)]
pub struct SrcLoc {
    pub line: usize,
    pub col: usize,
}

/// Mathematical image of a source location, with unbounded coordinates so
/// that specifications stay total over arbitrary character sequences.
pub struct LocV {
    pub line: int,
    pub col: int,
}

impl View for SrcLoc {
    type V = LocV;

    open spec fn view(&self) -> LocV {
        LocV { line: self.line as int, col: self.col as int }
    }
}

/// The single error shape produced by the lexer, the parser and the
/// interpreter: a source location plus a message.
#[derive(Debug)]
pub struct Error {
    pub loc: SrcLoc,
    pub msg: String,
}

/// Mathematical image of an `Error`.
pub struct ErrorV {
    pub loc: LocV,
    pub msg: Seq<char>,
}

impl View for Error {
    type V = ErrorV;

    open spec fn view(&self) -> ErrorV {
        ErrorV { loc: self.loc@, msg: self.msg@ }
    }
}

/// Builds the failing arm of a `Result` from a location and a message.
pub fn error<T>(loc: SrcLoc, msg: &str) -> (r: Result<T, Error>)
    ensures
        r matches Err(e) && e@ == (ErrorV { loc: loc@, msg: msg@ }),
{
    Err(Error { loc, msg: msg.to_owned() })
}

} // verus!
