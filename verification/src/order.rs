//! The order of formats is a total preorder, so a list in which each format
//! precedes its successor is sorted throughout.

use crate::vertex::{attributes_order, formats_sorted, Attribute, FormatModel};
use vstd::prelude::*;

verus! {

/// Comparing a list with itself finds it equal.
pub proof fn lemma_order_reflexive(a: Seq<Attribute>, i: int)
    requires
        0 <= i,
    ensures
        attributes_order(a, a, i) == 0,
    decreases a.len() - i,
{
    if i < a.len() {
        lemma_order_reflexive(a, i + 1);
    }
}

/// Comparing two lists the other way round gives the opposite outcome.
pub proof fn lemma_order_antisymmetric(a: Seq<Attribute>, b: Seq<Attribute>, i: int)
    requires
        0 <= i,
    ensures
        attributes_order(b, a, i) == -attributes_order(a, b, i),
    decreases a.len() - i,
{
    if i < a.len() && i < b.len() && a[i] == b[i] {
        lemma_order_antisymmetric(a, b, i + 1);
    }
}

/// A list that is not greater than a second, which is not greater than a
/// third, is not greater than the third, and equal to it only if all three
/// are equal.
pub proof fn lemma_order_transitive(
    a: Seq<Attribute>,
    b: Seq<Attribute>,
    c: Seq<Attribute>,
    i: int,
)
    requires
        0 <= i,
        attributes_order(a, b, i) <= 0,
        attributes_order(b, c, i) <= 0,
    ensures
        attributes_order(a, c, i) <= 0,
        attributes_order(a, c, i) == 0 ==> attributes_order(a, b, i) == 0 && attributes_order(
            b,
            c,
            i,
        ) == 0,
    decreases a.len() - i,
{
    if i < a.len() && i < b.len() && i < c.len() && a[i] == b[i] && b[i] == c[i] {
        lemma_order_transitive(a, b, c, i + 1);
    }
}

/// Every format precedes itself.
pub proof fn lemma_precedes_reflexive(a: FormatModel)
    ensures
        a.precedes(a),
{
    lemma_order_reflexive(a.attributes, 0);
}

/// Of two formats one precedes the other.
pub proof fn lemma_precedes_total(a: FormatModel, b: FormatModel)
    ensures
        a.precedes(b) || b.precedes(a),
{
    lemma_order_antisymmetric(a.attributes, b.attributes, 0);
}

/// A format that precedes a second, which precedes a third, precedes the
/// third.
pub proof fn lemma_precedes_transitive(a: FormatModel, b: FormatModel, c: FormatModel)
    requires
        a.precedes(b),
        b.precedes(c),
    ensures
        a.precedes(c),
{
    lemma_order_transitive(a.attributes, b.attributes, c.attributes, 0);
}

/// In a sorted list every format precedes all that come behind it.
pub proof fn lemma_sorted_throughout(formats: Seq<FormatModel>, i: int, j: int)
    requires
        formats_sorted(formats),
        0 <= i <= j < formats.len(),
    ensures
        formats[i].precedes(formats[j]),
    decreases j - i,
{
    if i == j {
        lemma_precedes_reflexive(formats[i]);
    } else {
        lemma_sorted_throughout(formats, i, j - 1);
        assert(formats[j - 1].precedes(formats[j - 1 + 1]));
        lemma_precedes_transitive(formats[i], formats[j - 1], formats[j]);
    }
}

} // verus!
