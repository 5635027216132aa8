use vstd::prelude::*;

use crate::cursor::Cursor;
use crate::error::{ParseError, ParseErrorKind};
use crate::field::FieldParser;
use crate::schema::{Field, Schema, ValidatedSchema, Variant};

verus! {

/// The value of one variant: which variant matched, and its field values in
/// declaration order.
#[derive(Debug, Clone)]
pub struct VariantValue<V> {
    /// Index of the variant in the schema's declaration order.
    pub variant: usize,
    pub values: Vec<V>,
}

/// The index of the first field at or after `k` called `name`.
pub open spec fn named_field_from(fields: Seq<Field>, name: Seq<char>, k: int) -> Option<int>
    decreases fields.len() - k,
{
    if k < 0 || k >= fields.len() {
        None
    } else if fields[k].name@ == name {
        Some(k)
    } else {
        named_field_from(fields, name, k + 1)
    }
}

impl<V> VariantValue<V> {
    /// The value of the field called `name`, reading this value as one of
    /// `schema`: the value of the first field of the matched variant with
    /// that name, or `None` when there is no such field.
    pub fn field(&self, schema: &ValidatedSchema, name: &String) -> (r: Option<&V>)
        ensures
            ({
                let variants = schema.spec_schema().variants@;
                if self.variant < variants.len() {
                    match named_field_from(variants[self.variant as int].fields@, name@, 0) {
                        Some(k) => if k < self.values@.len() {
                            r == Some(&self.values@[k])
                        } else {
                            r is None
                        },
                        None => r is None,
                    }
                } else {
                    r is None
                }
            }),
    {
        let s = schema.schema();
        if self.variant >= s.variants.len() {
            return None;
        }
        let fields = &s.variants[self.variant].fields;
        let mut k: usize = 0;
        while k < fields.len()
            invariant
                0 <= k <= fields@.len(),
                *s == schema.spec_schema(),
                self.variant < s.variants@.len(),
                fields@ == s.variants@[self.variant as int].fields@,
                named_field_from(fields@, name@, 0) == named_field_from(fields@, name@, k as int),
            decreases fields@.len() - k,
        {
            if fields[k].name.eq(name) {
                assert(named_field_from(fields@, name@, k as int) == Some(k as int));
                if k < self.values.len() {
                    return Some(&self.values[k]);
                } else {
                    return None;
                }
            }
            k = k + 1;
        }
        None
    }
}

/// Reads `fields` one after the other from `pos`: the values and the position
/// after the last one, or `None` as soon as one field fails.
pub open spec fn parse_fields<T, P: FieldParser<T>>(
    p: &P,
    fields: Seq<Field>,
    tokens: Seq<T>,
    pos: nat,
) -> Option<(Seq<P::Value>, nat)>
    decreases fields.len(),
{
    if fields.len() == 0 {
        Some((Seq::empty(), pos))
    } else {
        match parse_fields(p, fields.drop_last(), tokens, pos) {
            None => None,
            Some((vs, q)) => match p.outcome(fields.last().ty, tokens, q) {
                None => None,
                Some((v, r)) => Some((vs.push(v), r)),
            },
        }
    }
}

/// Ordered choice from variant `i` on: the first variant, at index `i` or
/// later, whose fields all parse from `pos`, with its values and end position.
pub open spec fn first_match_from<T, P: FieldParser<T>>(
    p: &P,
    variants: Seq<Variant>,
    tokens: Seq<T>,
    pos: nat,
    i: int,
) -> Option<(nat, Seq<P::Value>, nat)>
    decreases variants.len() - i,
{
    if i < 0 || i >= variants.len() {
        None
    } else {
        match parse_fields(p, variants[i].fields@, tokens, pos) {
            Some((vs, q)) => Some((i as nat, vs, q)),
            None => first_match_from(p, variants, tokens, pos, i + 1),
        }
    }
}

/// Ordered choice over all variants: the first one whose fields all parse.
pub open spec fn first_match<T, P: FieldParser<T>>(
    p: &P,
    variants: Seq<Variant>,
    tokens: Seq<T>,
    pos: nat,
) -> Option<(nat, Seq<P::Value>, nat)> {
    first_match_from(p, variants, tokens, pos, 0)
}

/// The message of the error raised when no variant of the schema named `name` matches.
pub open spec fn no_match_message(name: Seq<char>) -> Seq<char> {
    "cannot parse as any variant of "@ + name
}

/// A failed field sequence stays failed however many fields follow.
pub proof fn lemma_prefix_failure<T, P: FieldParser<T>>(
    p: &P,
    fields: Seq<Field>,
    tokens: Seq<T>,
    pos: nat,
    j: int,
)
    requires
        0 <= j <= fields.len(),
        parse_fields(p, fields.take(j), tokens, pos) is None,
    ensures
        parse_fields(p, fields, tokens, pos) is None,
    decreases fields.len(),
{
    if j < fields.len() {
        assert(fields.drop_last().take(j) =~= fields.take(j));
        lemma_prefix_failure(p, fields.drop_last(), tokens, pos, j);
    } else {
        assert(fields.take(j) =~= fields);
    }
}

/// Reads the fields of one variant, in order, on `attempt`.
///
/// Stops at the first field that fails and returns that field's error.
pub fn parse_variant_fields<T, P: FieldParser<T>>(
    parser: &P,
    fields: &Vec<Field>,
    attempt: &mut Cursor<'_, T>,
) -> (r: Result<Vec<P::Value>, ParseError>)
    ensures
        final(attempt).stream() == old(attempt).stream(),
        match r {
            Ok(vs) => parse_fields(parser, fields@, old(attempt).stream(), old(attempt).position())
                == Some((vs@, final(attempt).position())),
            Err(_) => parse_fields(
                parser,
                fields@,
                old(attempt).stream(),
                old(attempt).position(),
            ) is None,
        },
{
    let ghost tokens = attempt.stream();
    let ghost start = attempt.position();
    let mut values: Vec<P::Value> = Vec::new();
    let mut j: usize = 0;
    assert(fields@.take(0) =~= Seq::<Field>::empty());
    while j < fields.len()
        invariant
            0 <= j <= fields@.len(),
            attempt.stream() == tokens,
            tokens == old(attempt).stream(),
            start == old(attempt).position(),
            parse_fields(parser, fields@.take(j as int), tokens, start) == Some(
                (values@, attempt.position()),
            ),
        decreases fields@.len() - j,
    {
        let ghost before = attempt.position();
        assert(fields@.take(j as int + 1).drop_last() =~= fields@.take(j as int));
        match parser.parse_field(fields[j].ty, attempt) {
            Ok(v) => {
                values.push(v);
            },
            Err(e) => {
                proof { lemma_prefix_failure(parser, fields@, tokens, start, j as int + 1); }
                return Err(e);
            },
        }
        j = j + 1;
    }
    assert(fields@.take(j as int) =~= fields@);
    Ok(values)
}

/// Parses one variant of `schema` at `cursor`, trying the variants in
/// declaration order and committing the first whose fields all parse.
///
/// Each variant is tried on a fork of `cursor`, so a variant that fails after
/// reading some of its fields leaves no trace: the next variant starts from
/// the same position. On success `cursor` moves past the matched tokens; when
/// no variant matches it is left where it was and the error points there.
pub fn dispatch<T, P: FieldParser<T>>(
    schema: &ValidatedSchema,
    parser: &P,
    cursor: &mut Cursor<'_, T>,
) -> (r: Result<VariantValue<P::Value>, ParseError>)
    ensures
        final(cursor).stream() == old(cursor).stream(),
        match first_match(
            parser,
            schema.spec_schema().variants@,
            old(cursor).stream(),
            old(cursor).position(),
        ) {
            Some((i, vs, q)) => r matches Ok(v) && v.variant == i && v.values@ == vs
                && final(cursor).position() == q,
            None => r matches Err(e) && e.kind == ParseErrorKind::NoVariantMatched && e.pos
                == old(cursor).position() && e.message@ == no_match_message(
                schema.spec_schema().name@,
            ) && final(cursor).position() == old(cursor).position(),
        },
{
    let start = cursor.pos();
    let s: &Schema = schema.schema();
    let ghost variants = s.variants@;
    let ghost tokens = cursor.stream();
    let mut i: usize = 0;
    while i < s.variants.len()
        invariant
            0 <= i <= variants.len(),
            variants == schema.spec_schema().variants@,
            *s == schema.spec_schema(),
            cursor.stream() == tokens,
            tokens == old(cursor).stream(),
            cursor.position() == old(cursor).position(),
            start == old(cursor).position(),
            first_match(parser, variants, tokens, start as nat) == first_match_from(
                parser,
                variants,
                tokens,
                start as nat,
                i as int,
            ),
        decreases variants.len() - i,
    {
        let mut attempt = cursor.fork();
        match parse_variant_fields(parser, &s.variants[i].fields, &mut attempt) {
            Ok(values) => {
                cursor.advance_to(&attempt);
                return Ok(VariantValue { variant: i, values });
            },
            Err(_) => {},
        }
        i = i + 1;
    }
    Err(no_variant_matched(&s.name, start))
}

/// The error reported at `pos` when no variant of the schema named `name` matches.
pub fn no_variant_matched(name: &String, pos: usize) -> (r: ParseError)
    ensures
        r.kind == ParseErrorKind::NoVariantMatched,
        r.pos == pos,
        r.message@ == no_match_message(name@),
{
    let message = String::from_str("cannot parse as any variant of ").concat(name.as_str());
    proof { reveal_strlit("cannot parse as any variant of "); }
    ParseError { kind: ParseErrorKind::NoVariantMatched, pos, message }
}

/// Parses one variant of `schema` from the start of `tokens`.
///
/// Returns the value and the number of tokens it took; trailing tokens are
/// left for the caller to judge.
pub fn parse<T, P: FieldParser<T>>(
    schema: &ValidatedSchema,
    parser: &P,
    tokens: &[T],
) -> (r: Result<(VariantValue<P::Value>, usize), ParseError>)
    ensures
        match first_match(parser, schema.spec_schema().variants@, tokens@, 0) {
            Some((i, vs, q)) => r matches Ok((v, n)) && v.variant == i && v.values@ == vs && n == q,
            None => r matches Err(e) && e.kind == ParseErrorKind::NoVariantMatched && e.pos == 0
                && e.message@ == no_match_message(schema.spec_schema().name@),
        },
{
    let mut cursor = Cursor::new(tokens);
    let value = dispatch(schema, parser, &mut cursor)?;
    Ok((value, cursor.pos()))
}

} // verus!
