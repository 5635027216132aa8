use vstd::prelude::*;

use crate::error::StructuralError;

verus! {

/// How the fields of a variant are addressed once parsed.
#[derive(Debug, Clone, Copy, PartialEq, Eq, Structural)]
pub enum Shape {
    /// Fields carry identifiers (`Pair { first, sep, second }`).
    Named,
    /// Fields are addressed by index (`Pair(Int, Comma, Int)`).
    Positional,
}

/// One field of a variant: its name (empty for a positional field) and the
/// type whose parser reads it, as a key understood by a `FieldParser`.
#[derive(Debug, Clone)]
pub struct Field {
    pub name: String,
    pub ty: usize,
}

/// One alternative of a tagged union: a tag and its fields, parsed in order.
#[derive(Debug, Clone)]
pub struct Variant {
    pub name: String,
    pub shape: Shape,
    pub fields: Vec<Field>,
}

/// A tagged union: its name, used in diagnostics, and its variants in priority order.
#[derive(Debug, Clone)]
pub struct Schema {
    pub name: String,
    pub variants: Vec<Variant>,
}

/// A schema is usable when it has a variant and none of its variants is a unit.
pub open spec fn schema_is_valid(s: Schema) -> bool {
    &&& s.variants@.len() > 0
    &&& forall|i: int| 0 <= i < s.variants@.len() ==> #[trigger] s.variants@[i].fields@.len() > 0
}

/// The index of the first variant without fields, searching from `i`.
pub open spec fn first_unit_variant_from(variants: Seq<Variant>, i: int) -> Option<int>
    decreases variants.len() - i,
{
    if i < 0 || i >= variants.len() {
        None
    } else if variants[i].fields@.len() == 0 {
        Some(i)
    } else {
        first_unit_variant_from(variants, i + 1)
    }
}

/// The index of the first variant without fields, if any.
pub open spec fn first_unit_variant(variants: Seq<Variant>) -> Option<int> {
    first_unit_variant_from(variants, 0)
}

/// A schema that passed `validate`. The only way to obtain one is through
/// `validate`, so every value of this type has at least one variant and no
/// unit variant.
#[derive(Debug)]
pub struct ValidatedSchema {
    schema: Schema,
}

impl ValidatedSchema {
    #[verifier::type_invariant]
    spec fn inv(&self) -> bool {
        schema_is_valid(self.schema)
    }

    /// The schema that was validated.
    pub closed spec fn spec_schema(&self) -> Schema {
        self.schema
    }

    /// The schema that was validated.
    pub fn schema(&self) -> (r: &Schema)
        ensures
            *r == self.spec_schema(),
            schema_is_valid(*r),
    {
        proof { use_type_invariant(self); }
        &self.schema
    }
}

proof fn lemma_first_unit_variant_from(variants: Seq<Variant>, i: int)
    requires
        0 <= i <= variants.len(),
    ensures
        match first_unit_variant_from(variants, i) {
            Some(k) => i <= k < variants.len() && variants[k].fields@.len() == 0
                && forall|j: int| i <= j < k ==> #[trigger] variants[j].fields@.len() > 0,
            None => forall|j: int| i <= j < variants.len() ==> #[trigger] variants[j].fields@.len() > 0,
        },
    decreases variants.len() - i,
{
    if i < variants.len() {
        lemma_first_unit_variant_from(variants, i + 1);
    }
}

/// Checks the shape of `schema` once, before it is used on any input.
///
/// An empty schema gives `EmptySchema`; otherwise the first variant without
/// fields gives `UnitVariant` with its name; otherwise the schema is accepted
/// as it is.
pub fn validate(schema: Schema) -> (r: Result<ValidatedSchema, StructuralError>)
    ensures
        schema.variants@.len() == 0 ==> r matches Err(StructuralError::EmptySchema),
        schema.variants@.len() > 0 ==> match first_unit_variant(schema.variants@) {
            Some(k) => r matches Err(StructuralError::UnitVariant(name)) && name
                == schema.variants@[k].name,
            None => r matches Ok(v) && v.spec_schema() == schema,
        },
        r is Ok <==> schema_is_valid(schema),
{
    if schema.variants.len() == 0 {
        return Err(StructuralError::EmptySchema);
    }
    let mut i: usize = 0;
    while i < schema.variants.len()
        invariant
            0 <= i <= schema.variants@.len(),
            first_unit_variant(schema.variants@) == first_unit_variant_from(schema.variants@, i as int),
            forall|j: int| 0 <= j < i ==> #[trigger] schema.variants@[j].fields@.len() > 0,
        decreases schema.variants@.len() - i,
    {
        if schema.variants[i].fields.len() == 0 {
            proof { lemma_first_unit_variant_from(schema.variants@, i as int); }
            return Err(StructuralError::UnitVariant(schema.variants[i].name.clone()));
        }
        i = i + 1;
    }
    proof { lemma_first_unit_variant_from(schema.variants@, i as int); }
    Ok(ValidatedSchema { schema })
}

} // verus!
