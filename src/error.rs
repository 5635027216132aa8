use vstd::prelude::*;

verus! {

/// What went wrong while reading input.
#[derive(Debug, Clone, Copy, PartialEq, Eq, Structural)]
pub enum ParseErrorKind {
    /// A field parser rejected the tokens at the cursor.
    Field,
    /// Every variant of a schema was tried and none matched.
    NoVariantMatched,
}

/// An input-shape error: where it happened and a message for humans.
#[derive(Debug, Clone)]
pub struct ParseError {
    pub kind: ParseErrorKind,
    /// Token index, counted in the stream the root cursor walks.
    pub pos: usize,
    pub message: String,
}

impl ParseError {
    /// An error raised by a field parser at `pos`.
    pub fn field(pos: usize, message: String) -> (r: Self)
        ensures
            r.kind == ParseErrorKind::Field,
            r.pos == pos,
            r.message == message,
    {
        ParseError { kind: ParseErrorKind::Field, pos, message }
    }
}

/// A schema-shape error, found before any input is read.
#[derive(Debug, Clone)]
pub enum StructuralError {
    /// The schema declares no variant at all.
    EmptySchema,
    /// The named variant declares no field, so no token sequence can select it.
    UnitVariant(String),
}

} // verus!
