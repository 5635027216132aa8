use vstd::prelude::*;

use crate::dispatch::{first_match, first_match_from, lemma_prefix_failure, parse_fields};
use crate::field::FieldParser;
use crate::schema::Variant;

verus! {

/// Variants `a..b` failing means the search from `a` is the search from `b`.
proof fn lemma_skip_failed<T, P: FieldParser<T>>(
    p: &P,
    variants: Seq<Variant>,
    tokens: Seq<T>,
    pos: nat,
    a: int,
    b: int,
)
    requires
        0 <= a <= b <= variants.len(),
        forall|k: int| a <= k < b ==> (#[trigger] parse_fields(p, variants[k].fields@, tokens, pos)) is None,
    ensures
        first_match_from(p, variants, tokens, pos, a) == first_match_from(p, variants, tokens, pos, b),
    decreases b - a,
{
    if a < b {
        assert(parse_fields(p, variants[a].fields@, tokens, pos) is None);
        lemma_skip_failed(p, variants, tokens, pos, a + 1, b);
    }
}

/// What the search from `a` finds: the first variant at or after `a` that
/// parses, every one before it failing; or nothing, every one failing.
proof fn lemma_search_from<T, P: FieldParser<T>>(
    p: &P,
    variants: Seq<Variant>,
    tokens: Seq<T>,
    pos: nat,
    a: int,
)
    requires
        0 <= a <= variants.len(),
    ensures
        match first_match_from(p, variants, tokens, pos, a) {
            Some((i, vs, q)) => a <= i < variants.len() && parse_fields(
                p,
                variants[i as int].fields@,
                tokens,
                pos,
            ) == Some((vs, q)) && forall|k: int|
                a <= k < i ==> (#[trigger] parse_fields(p, variants[k].fields@, tokens, pos)) is None,
            None => forall|k: int|
                a <= k < variants.len() ==> (#[trigger] parse_fields(
                    p,
                    variants[k].fields@,
                    tokens,
                    pos,
                )) is None,
        },
    decreases variants.len() - a,
{
    if a < variants.len() {
        lemma_search_from(p, variants, tokens, pos, a + 1);
    }
}

/// The first variant that parses is the one chosen: when variant `i` parses
/// and every variant declared before it fails, ordered choice returns variant
/// `i` with its values and end position.
pub proof fn lemma_earliest_match_wins<T, P: FieldParser<T>>(
    p: &P,
    variants: Seq<Variant>,
    tokens: Seq<T>,
    pos: nat,
    i: int,
)
    requires
        0 <= i < variants.len(),
        parse_fields(p, variants[i].fields@, tokens, pos) is Some,
        forall|k: int| 0 <= k < i ==> (#[trigger] parse_fields(p, variants[k].fields@, tokens, pos)) is None,
    ensures
        first_match(p, variants, tokens, pos) == Some(
            (
                i as nat,
                parse_fields(p, variants[i].fields@, tokens, pos).unwrap().0,
                parse_fields(p, variants[i].fields@, tokens, pos).unwrap().1,
            ),
        ),
{
    lemma_skip_failed(p, variants, tokens, pos, 0, i);
}

/// Declaration order decides between overlapping variants: when variants `i`
/// and `j > i` both parse the input and nothing before `i` does, the earlier
/// one wins; with the two swapped, the other one wins, in the same place.
pub proof fn lemma_order_sensitivity<T, P: FieldParser<T>>(
    p: &P,
    variants: Seq<Variant>,
    tokens: Seq<T>,
    pos: nat,
    i: int,
    j: int,
)
    requires
        0 <= i < j < variants.len(),
        parse_fields(p, variants[i].fields@, tokens, pos) is Some,
        parse_fields(p, variants[j].fields@, tokens, pos) is Some,
        forall|k: int| 0 <= k < i ==> (#[trigger] parse_fields(p, variants[k].fields@, tokens, pos)) is None,
    ensures
        first_match(p, variants, tokens, pos) == Some(
            (
                i as nat,
                parse_fields(p, variants[i].fields@, tokens, pos).unwrap().0,
                parse_fields(p, variants[i].fields@, tokens, pos).unwrap().1,
            ),
        ),
        first_match(p, variants.update(i, variants[j]).update(j, variants[i]), tokens, pos) == Some(
            (
                i as nat,
                parse_fields(p, variants[j].fields@, tokens, pos).unwrap().0,
                parse_fields(p, variants[j].fields@, tokens, pos).unwrap().1,
            ),
        ),
{
    lemma_earliest_match_wins(p, variants, tokens, pos, i);
    let swapped = variants.update(i, variants[j]).update(j, variants[i]);
    assert forall|k: int| 0 <= k < i implies (#[trigger] parse_fields(
        p,
        swapped[k].fields@,
        tokens,
        pos,
    )) is None by {
        assert(swapped[k] == variants[k]);
    }
    assert(swapped[i] == variants[j]);
    lemma_earliest_match_wins(p, swapped, tokens, pos, i);
}

/// A variant that fails part-way leaves no trace: when its first field parses
/// and its second does not, the variant fails as a whole, and the search goes
/// on with the next variant from the very position it started at.
pub proof fn lemma_partial_failure_is_atomic<T, P: FieldParser<T>>(
    p: &P,
    variants: Seq<Variant>,
    tokens: Seq<T>,
    pos: nat,
    i: int,
)
    requires
        0 <= i < variants.len(),
        variants[i].fields@.len() >= 2,
        p.outcome(variants[i].fields@[0].ty, tokens, pos) is Some,
        p.outcome(
            variants[i].fields@[1].ty,
            tokens,
            p.outcome(variants[i].fields@[0].ty, tokens, pos).unwrap().1,
        ) is None,
    ensures
        parse_fields(p, variants[i].fields@, tokens, pos) is None,
        first_match_from(p, variants, tokens, pos, i) == first_match_from(
            p,
            variants,
            tokens,
            pos,
            i + 1,
        ),
{
    let fields = variants[i].fields@;
    let two = fields.take(2);
    assert(two.drop_last() =~= fields.take(1));
    assert(fields.take(1).drop_last() =~= Seq::<crate::schema::Field>::empty());
    assert(parse_fields(p, Seq::<crate::schema::Field>::empty(), tokens, pos) == Some(
        (Seq::<P::Value>::empty(), pos),
    ));
    assert(fields.take(1).last() == fields[0]);
    assert(two.last() == fields[1]);
    let first = p.outcome(fields[0].ty, tokens, pos).unwrap();
    assert(parse_fields(p, fields.take(1), tokens, pos) == Some(
        (Seq::<P::Value>::empty().push(first.0), first.1),
    ));
    assert(parse_fields(p, two, tokens, pos) is None);
    lemma_prefix_failure(p, fields, tokens, pos, 2);
}

/// Once a variant matches, the variants declared after it play no part:
/// any schema that agrees on the variants up to the chosen one makes the same
/// choice, with the same values and end position.
pub proof fn lemma_first_match_commits<T, P: FieldParser<T>>(
    p: &P,
    variants: Seq<Variant>,
    others: Seq<Variant>,
    tokens: Seq<T>,
    pos: nat,
)
    requires
        first_match(p, variants, tokens, pos) is Some,
        first_match(p, variants, tokens, pos).unwrap().0 < others.len(),
        forall|k: int|
            0 <= k <= first_match(p, variants, tokens, pos).unwrap().0 ==> #[trigger] others[k]
                == variants[k],
    ensures
        first_match(p, others, tokens, pos) == first_match(p, variants, tokens, pos),
{
    lemma_search_from(p, variants, tokens, pos, 0);
    let i = first_match(p, variants, tokens, pos).unwrap().0 as int;
    assert(others[i] == variants[i]);
    assert forall|k: int| 0 <= k < i implies (#[trigger] parse_fields(
        p,
        others[k].fields@,
        tokens,
        pos,
    )) is None by {
        assert(others[k] == variants[k]);
        assert(parse_fields(p, variants[k].fields@, tokens, pos) is None);
    }
    lemma_earliest_match_wins(p, others, tokens, pos, i);
}

/// Ordered choice fails exactly when every variant fails on the input.
pub proof fn lemma_no_match_iff_all_fail<T, P: FieldParser<T>>(
    p: &P,
    variants: Seq<Variant>,
    tokens: Seq<T>,
    pos: nat,
)
    ensures
        first_match(p, variants, tokens, pos) is None <==> forall|k: int|
            0 <= k < variants.len() ==> (#[trigger] parse_fields(p, variants[k].fields@, tokens, pos))
                is None,
{
    lemma_search_from(p, variants, tokens, pos, 0);
}

} // verus!
