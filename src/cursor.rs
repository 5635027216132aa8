use vstd::prelude::*;

verus! {

/// A position in a read-only stream of tokens.
///
/// A cursor borrows the stream and owns only its position, so forking one is a
/// copy of an index: speculative attempts never duplicate the tokens.
pub struct Cursor<'a, T> {
    tokens: &'a [T],
    pos: usize,
}

impl<'a, T> Cursor<'a, T> {
    #[verifier::type_invariant]
    spec fn inv(&self) -> bool {
        self.pos <= self.tokens@.len()
    }

    /// The whole token stream the cursor walks over.
    pub closed spec fn stream(&self) -> Seq<T> {
        self.tokens@
    }

    /// The index of the next token to be consumed.
    pub closed spec fn position(&self) -> nat {
        self.pos as nat
    }

    /// A root cursor at the start of `tokens`.
    pub fn new(tokens: &'a [T]) -> (r: Self)
        ensures
            r.stream() == tokens@,
            r.position() == 0,
    {
        Cursor { tokens, pos: 0 }
    }

    /// The index of the next token to be consumed.
    pub fn pos(&self) -> (r: usize)
        ensures
            r == self.position(),
            r <= self.stream().len(),
    {
        proof { use_type_invariant(self); }
        self.pos
    }

    /// Whether every token has been consumed.
    pub fn is_empty(&self) -> (r: bool)
        ensures
            r == (self.position() == self.stream().len()),
    {
        proof { use_type_invariant(self); }
        self.pos == self.tokens.len()
    }

    /// The next token, without consuming it.
    pub fn peek(&self) -> (r: Option<&'a T>)
        ensures
            self.position() < self.stream().len() ==> r == Some(&self.stream()[self.position() as int]),
            self.position() == self.stream().len() ==> r is None,
    {
        proof { use_type_invariant(self); }
        if self.pos < self.tokens.len() {
            Some(&self.tokens[self.pos])
        } else {
            None
        }
    }

    /// Consumes and returns the next token, or returns `None` at the end of the stream.
    pub fn next(&mut self) -> (r: Option<&'a T>)
        ensures
            final(self).stream() == old(self).stream(),
            old(self).position() < old(self).stream().len() ==> r == Some(
                &old(self).stream()[old(self).position() as int],
            ) && final(self).position() == old(self).position() + 1,
            old(self).position() == old(self).stream().len() ==> r is None && final(self).position()
                == old(self).position(),
    {
        proof { use_type_invariant(&*self); }
        if self.pos < self.tokens.len() {
            let t = &self.tokens[self.pos];
            self.pos = self.pos + 1;
            Some(t)
        } else {
            None
        }
    }

    /// A speculative copy of this cursor: same stream, same position, moved independently.
    pub fn fork(&self) -> (r: Self)
        ensures
            r.stream() == self.stream(),
            r.position() == self.position(),
    {
        proof { use_type_invariant(self); }
        Cursor { tokens: self.tokens, pos: self.pos }
    }

    /// Commits a fork: this cursor takes over the fork's position.
    pub fn advance_to(&mut self, fork: &Self)
        requires
            fork.stream() == old(self).stream(),
        ensures
            final(self).stream() == old(self).stream(),
            final(self).position() == fork.position(),
    {
        proof { use_type_invariant(fork); }
        self.pos = fork.pos;
    }
}

} // verus!
