use vstd::prelude::*;

use crate::cursor::Cursor;
use crate::error::ParseError;

verus! {

/// The capability to read one value of a field type from a cursor.
///
/// Field types are keyed by the `ty` number that a schema's `Field` carries;
/// one implementation covers every field type its schemas use. Parsing is
/// deterministic: `outcome` gives, for a field type, a token stream and a
/// position, either the value read and the position after it, or `None` when
/// the tokens there are not a value of that type. On failure the cursor may be
/// left anywhere; callers always parse on a fork.
pub trait FieldParser<T> {
    type Value;

    /// The result of reading a value of field type `ty` at `pos` in `tokens`.
    ///
    /// An implementation that is verified defines it and proves `parse_field`
    /// against it. One written in plain Rust keeps this default, which leaves
    /// the outcome unspecified.
    closed spec fn outcome(&self, ty: usize, tokens: Seq<T>, pos: nat) -> Option<(Self::Value, nat)> {
        arbitrary()
    }

    /// Reads a value of field type `ty` at the cursor and moves past it.
    fn parse_field(&self, ty: usize, cursor: &mut Cursor<'_, T>) -> (r: Result<Self::Value, ParseError>)
        ensures
            final(cursor).stream() == old(cursor).stream(),
            match r {
                Ok(v) => self.outcome(ty, old(cursor).stream(), old(cursor).position()) == Some(
                    (v, final(cursor).position()),
                ),
                Err(_) => self.outcome(ty, old(cursor).stream(), old(cursor).position()) is None,
            },
    ;
}

/// The simplest field parser, for streams of token kinds: field type `ty`
/// is one token equal to `ty`.
#[derive(Debug, Clone, Copy)]
pub struct TokenKind;

impl FieldParser<usize> for TokenKind {
    type Value = usize;

    open spec fn outcome(&self, ty: usize, tokens: Seq<usize>, pos: nat) -> Option<(usize, nat)> {
        if pos < tokens.len() && tokens[pos as int] == ty {
            Some((ty, pos + 1))
        } else {
            None
        }
    }

    fn parse_field(&self, ty: usize, cursor: &mut Cursor<'_, usize>) -> (r: Result<usize, ParseError>) {
        let start = cursor.pos();
        match cursor.next() {
            Some(t) => {
                if *t == ty {
                    Ok(ty)
                } else {
                    Err(ParseError::field(start, String::from_str("unexpected token")))
                }
            },
            None => Err(ParseError::field(start, String::from_str("unexpected end of input"))),
        }
    }
}

} // verus!
