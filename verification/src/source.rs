//! Source positions and diagnostics carried by the IR.
use vstd::prelude::*;
use crate::text::chars_of;

verus! {

#[derive(Clone, Copy, Debug, PartialEq, Eq, Structural)]
pub struct Position {
    pub source_id: u32,
    pub revision: u32,
    pub offset: u64,
    pub line: u32,
    pub column: u32,
}

#[derive(Clone, Copy, Debug, PartialEq, Eq, Structural)]
pub struct Span {
    pub start: Position,
    pub end: Position,
}

/// A stable diagnostic: its code, its human-readable detail and where it points.
#[derive(Debug)]
pub struct Diagnostic {
    pub code: String,
    pub message: String,
    pub span: Span,
}

/// The span used when a diagnostic has no source location: line 1, column 1
/// of an unknown source.
pub open spec fn spec_unknown_span() -> Span {
    let position = Position { source_id: 0, revision: 0, offset: 0, line: 1, column: 1 };
    Span { start: position, end: position }
}

pub fn unknown_span() -> (s: Span)
    ensures
        s == spec_unknown_span(),
{
    let position = Position { source_id: 0, revision: 0, offset: 0, line: 1, column: 1 };
    Span { start: position, end: position }
}

/// The code of every language-level IR validation failure.
pub open spec fn invalid_ir_code() -> Seq<char> {
    "INVALID_IR"@
}

/// Builds a diagnostic with the given code, message and span.
pub fn diagnostic(code: &[char], message: &str, span: Span) -> (d: Diagnostic)
    ensures
        d.code@ == code@,
        d.message@ == message@,
        d.span == span,
{
    let mut text = String::new();
    let mut i: usize = 0;
    while i < code.len()
        invariant
            0 <= i <= code@.len(),
            text@ == code@.take(i as int),
        decreases code@.len() - i,
    {
        crate::text::push_char(&mut text, code[i]);
        i += 1;
        assert(text@ =~= code@.take(i as int));
    }
    assert(code@.take(code@.len() as int) =~= code@);
    Diagnostic { code: text, message: message.to_owned(), span }
}

/// Builds the stable diagnostic for malformed IR.
pub fn invalid_ir(message: &str, span: Span) -> (d: Diagnostic)
    ensures
        d.code@ == invalid_ir_code(),
        d.message@ == message@,
        d.span == span,
{
    let code = chars_of("INVALID_IR");
    assert(code@ =~= invalid_ir_code());
    diagnostic(&code, message, span)
}

} // verus!
