//! When a buffer laid out in one format can serve a draw that expects another.

use crate::vertex::{Attribute, FormatModel, VertexFormat};
use vstd::prelude::*;

verus! {

/// `places[i]` is a position of `have` that holds an attribute equal to
/// `want[i]`, and the positions never go back.
pub open spec fn embeds(have: Seq<Attribute>, want: Seq<Attribute>, places: Seq<int>) -> bool {
    &&& places.len() == want.len()
    &&& forall|i: int|
        0 <= i < want.len() ==> 0 <= #[trigger] places[i] < have.len() && have[places[i]]
            == want[i]
    &&& forall|i: int, j: int| 0 <= i <= j < want.len() ==> places[i] <= places[j]
}

/// `have` holds every attribute of `want`, in the order in which `want`
/// lists them.
pub open spec fn contains_in_order(have: Seq<Attribute>, want: Seq<Attribute>) -> bool {
    exists|places: Seq<int>| embeds(have, want, places)
}

impl FormatModel {
    /// A buffer laid out as `self` can serve a draw that expects `want`: the
    /// strides are equal, and `self` holds every attribute of `want`, equal in
    /// semantic, format and offset, in `want`'s order.
    pub open spec fn compatible(self, want: FormatModel) -> bool {
        self.stride == want.stride && contains_in_order(self.attributes, want.attributes)
    }

    /// Every attribute of `want` occurs among those of `self`.
    pub open spec fn has_all_of(self, want: FormatModel) -> bool {
        forall|i: int|
            0 <= i < want.attributes.len() ==> self.attributes.contains(
                #[trigger] want.attributes[i],
            )
    }
}

/// Decides whether a buffer laid out as `left` can serve a draw that expects
/// `right`, in one forward pass over both attribute lists.
pub fn is_compatible(left: &VertexFormat, right: &VertexFormat) -> (ok: bool)
    ensures
        ok == left@.compatible(right@),
{
    if left.stride != right.stride {
        return false;
    }
    let ghost have = left.attributes@;
    let ghost want = right.attributes@;
    let have_len = left.attributes.len();
    let want_len = right.attributes.len();
    // Attributes are sorted, so the search for the next one starts where the
    // last one was found.
    let mut skip: usize = 0;
    let mut i: usize = 0;
    let ghost mut found: Seq<int> = Seq::empty();
    while i < want_len
        invariant
            have == left.attributes@,
            want == right.attributes@,
            have_len == have.len(),
            want_len == want.len(),
            i <= want_len,
            skip <= have_len,
            embeds(have, want.take(i as int), found),
            i == 0 ==> skip == 0,
            i > 0 ==> found[i - 1] == skip,
            forall|places: Seq<int>|
                i > 0 && #[trigger] embeds(have, want.take(i as int), places) ==> places[i - 1]
                    >= skip,
        decreases want_len - i,
    {
        let r = right.attributes[i];
        let mut p: usize = skip;
        while p < have_len && left.attributes[p] != r
            invariant
                have == left.attributes@,
                have_len == have.len(),
                skip <= p <= have_len,
                forall|q: int| skip <= q < p ==> have[q] != r,
            decreases have_len - p,
        {
            p += 1;
        }
        if p == have_len {
            proof {
                assert forall|places: Seq<int>| !embeds(have, want, places) by {
                    if embeds(have, want, places) {
                        lemma_embeds_prefix(have, want, places, i as int);
                        if i > 0 {
                            assert(places.take(i as int)[i - 1] == places[i - 1]);
                            assert(places[i - 1] <= places[i as int]);
                        }
                        assert(have[places[i as int]] == want[i as int]);
                    }
                }
            }
            return false;
        }
        proof {
            let longer = found.push(p as int);
            assert(want.take(i + 1) == want.take(i as int).push(r));
            assert(embeds(have, want.take(i + 1), longer)) by {
                assert forall|a: int| 0 <= a < i + 1 implies 0 <= #[trigger] longer[a] < have.len()
                    && have[longer[a]] == want.take(i + 1)[a] by {
                    if a < i {
                        assert(longer[a] == found[a]);
                        assert(want.take(i as int)[a] == want.take(i + 1)[a]);
                    }
                }
                assert forall|a: int, b: int| 0 <= a <= b < i + 1 implies longer[a]
                    <= longer[b] by {
                    if b < i {
                        assert(longer[a] == found[a] && longer[b] == found[b]);
                    } else if a < i {
                        assert(longer[a] == found[a]);
                        assert(found[a] <= found[i - 1]);
                    }
                }
            }
            assert forall|places: Seq<int>| #[trigger]
                embeds(have, want.take(i + 1), places) implies places[i as int] >= p by {
                lemma_embeds_prefix(have, want.take(i + 1), places, i as int);
                assert(want.take(i + 1).take(i as int) == want.take(i as int));
                if i > 0 {
                    assert(places.take(i as int)[i - 1] == places[i - 1]);
                    assert(places[i - 1] <= places[i as int]);
                }
                assert(have[places[i as int]] == want.take(i + 1)[i as int]);
            }
            found = longer;
        }
        skip = p;
        i += 1;
    }
    proof {
        assert(want.take(i as int) == want);
    }
    true
}

/// The first `n` places of an embedding embed the first `n` wanted
/// attributes.
proof fn lemma_embeds_prefix(have: Seq<Attribute>, want: Seq<Attribute>, places: Seq<int>, n: int)
    requires
        embeds(have, want, places),
        0 <= n <= want.len(),
    ensures
        embeds(have, want.take(n), places.take(n)),
{
    let w = want.take(n);
    let p = places.take(n);
    assert forall|i: int| 0 <= i < w.len() implies 0 <= #[trigger] p[i] < have.len() && have[p[i]]
        == w[i] by {
        assert(p[i] == places[i]);
    }
    assert forall|i: int, j: int| 0 <= i <= j < w.len() implies p[i] <= p[j] by {
        assert(p[i] == places[i] && p[j] == places[j]);
    }
}

/// Every format is compatible with itself.
pub proof fn lemma_compatible_reflexive(a: FormatModel)
    ensures
        a.compatible(a),
{
    let places = Seq::new(a.attributes.len(), |i: int| i);
    assert(embeds(a.attributes, a.attributes, places));
}

/// Formats of different stride are never compatible, whatever their
/// attributes.
pub proof fn lemma_stride_mismatch_incompatible(have: FormatModel, want: FormatModel)
    requires
        have.stride != want.stride,
    ensures
        !have.compatible(want),
{
}

/// A well-formed format is compatible with every format of the same stride
/// whose attributes it holds, if those are sorted by offset.
pub proof fn lemma_subset_compatible(have: FormatModel, want: FormatModel)
    requires
        have.well_formed(),
        want.sorted_by_offset(),
        have.stride == want.stride,
        have.has_all_of(want),
    ensures
        have.compatible(want),
{
    let h = have.attributes;
    let w = want.attributes;
    let places = Seq::new(w.len(), |i: int| h.index_of(w[i]));
    assert forall|i: int| 0 <= i < w.len() implies 0 <= #[trigger] places[i] < h.len()
        && h[places[i]] == w[i] by {
        assert(h.contains(w[i]));
    }
    assert forall|i: int, j: int| 0 <= i <= j < w.len() implies places[i] <= places[j] by {
        assert(h[places[i]] == w[i] && h[places[j]] == w[j]);
        if places[i] > places[j] {
            assert(h[places[j]].offset < h[places[i]].offset);
            assert(w[i].offset <= w[j].offset);
        }
    }
    assert(embeds(h, w, places));
}

} // verus!
