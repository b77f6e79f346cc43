//! How requested formats find their buffers: each takes the first compatible
//! buffer behind the one that the format before it took.

use crate::draw::BindModel;
use crate::mesh::{MeshModel, VertexBufferModel};
use crate::vertex::{formats_sorted, formats_well_formed, FormatModel};
use vstd::prelude::*;

verus! {

/// The position of the first format at or after `from` that is compatible
/// with `want`, if there is one.
pub open spec fn first_compatible(
    formats: Seq<FormatModel>,
    want: FormatModel,
    from: int,
) -> Option<int>
    decreases formats.len() - from,
{
    if from < 0 || from >= formats.len() {
        None
    } else if formats[from].compatible(want) {
        Some(from)
    } else {
        first_compatible(formats, want, from + 1)
    }
}

/// `first_compatible` finds a position exactly when a compatible format
/// stands at or after `from`, and then the first such position.
pub proof fn lemma_first_compatible(formats: Seq<FormatModel>, want: FormatModel, from: int)
    requires
        0 <= from,
    ensures
        match first_compatible(formats, want, from) {
            Some(p) => {
                &&& from <= p < formats.len()
                &&& formats[p].compatible(want)
                &&& forall|q: int| from <= q < p ==> !(#[trigger] formats[q]).compatible(want)
            },
            None => forall|q: int|
                from <= q < formats.len() ==> !(#[trigger] formats[q]).compatible(want),
        },
    decreases formats.len() - from,
{
    if from < formats.len() && !formats[from].compatible(want) {
        lemma_first_compatible(formats, want, from + 1);
    }
}

/// Searching a window that starts at `from` finds the same buffer as
/// searching the whole list from `from` on, by its position in the window.
pub proof fn lemma_first_compatible_window(
    formats: Seq<FormatModel>,
    want: FormatModel,
    from: int,
    k: int,
)
    requires
        0 <= from <= formats.len(),
        0 <= k,
    ensures
        first_compatible(formats, want, from + k) == match first_compatible(
            formats.subrange(from, formats.len() as int),
            want,
            k,
        ) {
            Some(p) => Some(from + p),
            None => None,
        },
    decreases formats.len() - from - k,
{
    let window = formats.subrange(from, formats.len() as int);
    if k < window.len() {
        assert(window[k] == formats[from + k]);
        if !window[k].compatible(want) {
            lemma_first_compatible_window(formats, want, from, k + 1);
        }
    }
}

/// `places[i]` is the position of a buffer whose format is compatible with
/// `wants[i]`, and the positions go strictly forward: no buffer is taken
/// twice, and buffers are taken in storage order.
pub open spec fn assigns(
    formats: Seq<FormatModel>,
    wants: Seq<FormatModel>,
    places: Seq<int>,
) -> bool {
    &&& places.len() == wants.len()
    &&& forall|i: int|
        0 <= i < wants.len() ==> 0 <= #[trigger] places[i] < formats.len()
            && formats[places[i]].compatible(wants[i])
    &&& forall|i: int, j: int| 0 <= i < j < wants.len() ==> places[i] < places[j]
}

impl<H> MeshModel<H> {
    /// The formats of the vertex buffers, in storage order.
    pub open spec fn formats(self) -> Seq<FormatModel> {
        self.vertex_buffers.map_values(|b: VertexBufferModel<H>| b.format)
    }

    /// The vertex buffers are sorted by format, and each format is well
    /// formed.
    pub open spec fn well_formed(self) -> bool {
        formats_sorted(self.formats()) && formats_well_formed(self.formats())
    }

    /// The position of the buffer that serves `wants[k]`: the first
    /// compatible one after the buffer that serves `wants[k - 1]`, or the
    /// first compatible one of all for `k == 0`. `None` where that search, or
    /// an earlier one, finds nothing.
    pub open spec fn matched(self, wants: Seq<FormatModel>, k: int) -> Option<int>
        decreases k,
    {
        if k < 0 || k >= wants.len() {
            None
        } else if k == 0 {
            first_compatible(self.formats(), wants[0], 0)
        } else {
            match self.matched(wants, k - 1) {
                Some(p) => first_compatible(self.formats(), wants[k], p + 1),
                None => None,
            }
        }
    }

    /// Each of the first `n` requested formats finds its buffer.
    pub open spec fn resolves(self, wants: Seq<FormatModel>, n: int) -> bool {
        forall|k: int| 0 <= k < n ==> (#[trigger] self.matched(wants, k)) is Some
    }

    /// The binding set that serves the first `n` requested formats: slot by
    /// slot the handle of the matched buffer, at offset 0.
    pub open spec fn bindings(self, wants: Seq<FormatModel>, n: int) -> Seq<(H, u64)> {
        Seq::new(
            n as nat,
            |k: int| (self.vertex_buffers[self.matched(wants, k).unwrap()].buffer, 0u64),
        )
    }

    /// How many vertices the buffer holds that serves `wants[k]`.
    pub open spec fn matched_count(self, wants: Seq<FormatModel>, k: int) -> u32 {
        self.vertex_buffers[self.matched(wants, k).unwrap()].len
    }

    /// All the buffers that serve requested formats hold the same number of
    /// vertices.
    pub open spec fn counts_agree(self, wants: Seq<FormatModel>) -> bool {
        forall|a: int, b: int|
            (#[trigger] self.matched(wants, a)) is Some && (#[trigger] self.matched(wants, b))
                is Some ==> self.matched_count(wants, a) == self.matched_count(wants, b)
    }

    /// What `Mesh::bind` asks of a mesh and of the formats requested from
    /// it: the mesh is well formed, the requested formats are sorted and well
    /// formed, and the buffers that come to serve them agree in their number
    /// of vertices.
    pub open spec fn accepts(self, wants: Seq<FormatModel>) -> bool {
        &&& self.well_formed()
        &&& formats_sorted(wants)
        &&& formats_well_formed(wants)
        &&& self.counts_agree(wants)
    }

    /// How many vertices an unindexed draw of `wants` covers: as many as the
    /// bound buffers hold, and none where nothing was requested.
    pub open spec fn vertex_count(self, wants: Seq<FormatModel>) -> u32 {
        if wants.len() == 0 {
            0
        } else {
            self.matched_count(wants, wants.len() - 1)
        }
    }

    /// What a successful binding of `wants` hands back: the index buffer
    /// from its start and the number of indices where the mesh has one, else
    /// the number of vertices.
    pub open spec fn outcome(self, wants: Seq<FormatModel>) -> BindModel<H> {
        match self.index_buffer {
            Some(ibuf) => BindModel::Indexed {
                buffer: ibuf.buffer,
                offset: 0,
                index_type: ibuf.index_type,
                count: ibuf.len,
            },
            None => BindModel::Unindexed { count: self.vertex_count(wants) },
        }
    }
}

/// The buffer that serves a requested format is one of the mesh's, its
/// format is compatible with the requested one, and it stands behind the
/// buffer that serves the format requested before.
pub proof fn lemma_matched_position<H>(mesh: MeshModel<H>, wants: Seq<FormatModel>, k: int)
    requires
        mesh.matched(wants, k) is Some,
    ensures
        0 <= k < wants.len(),
        0 <= mesh.matched(wants, k).unwrap() < mesh.vertex_buffers.len(),
        mesh.formats()[mesh.matched(wants, k).unwrap()].compatible(wants[k]),
        k > 0 ==> mesh.matched(wants, k - 1) is Some && mesh.matched(wants, k - 1).unwrap()
            < mesh.matched(wants, k).unwrap(),
    decreases k,
{
    if k == 0 {
        lemma_first_compatible(mesh.formats(), wants[0], 0);
    } else {
        lemma_matched_position(mesh, wants, k - 1);
        lemma_first_compatible(mesh.formats(), wants[k], mesh.matched(wants, k - 1).unwrap() + 1);
    }
}

/// A requested format finds its buffer only if each format requested before
/// it found one.
pub proof fn lemma_matched_prefix<H>(mesh: MeshModel<H>, wants: Seq<FormatModel>, j: int, k: int)
    requires
        0 <= j <= k,
        mesh.matched(wants, k) is Some,
    ensures
        mesh.matched(wants, j) is Some,
    decreases k - j,
{
    if j < k {
        lemma_matched_prefix(mesh, wants, j, k - 1);
    }
}

/// Buffers are taken in storage order, and none twice: a format requested
/// later is served by a buffer that stands later.
pub proof fn lemma_matched_increasing<H>(
    mesh: MeshModel<H>,
    wants: Seq<FormatModel>,
    j: int,
    k: int,
)
    requires
        0 <= j < k,
        mesh.matched(wants, k) is Some,
    ensures
        mesh.matched(wants, j) is Some,
        mesh.matched(wants, j).unwrap() < mesh.matched(wants, k).unwrap(),
    decreases k - j,
{
    lemma_matched_position(mesh, wants, k);
    if j < k - 1 {
        lemma_matched_increasing(mesh, wants, j, k - 1);
    }
}

/// Where the buffers can be assigned to the requested formats at all, each
/// requested format finds its buffer, and none later than in the assignment.
pub proof fn lemma_matched_not_behind<H>(
    mesh: MeshModel<H>,
    wants: Seq<FormatModel>,
    places: Seq<int>,
    k: int,
)
    requires
        assigns(mesh.formats(), wants, places),
        0 <= k < wants.len(),
    ensures
        mesh.matched(wants, k) is Some,
        mesh.matched(wants, k).unwrap() <= places[k],
    decreases k,
{
    assert(mesh.formats()[places[k]].compatible(wants[k]));
    if k == 0 {
        lemma_first_compatible(mesh.formats(), wants[0], 0);
    } else {
        lemma_matched_not_behind(mesh, wants, places, k - 1);
        lemma_matched_position(mesh, wants, k - 1);
        assert(places[k - 1] < places[k]);
        lemma_first_compatible(mesh.formats(), wants[k], mesh.matched(wants, k - 1).unwrap() + 1);
    }
}

/// The requested formats all find their buffers exactly when the buffers can
/// be assigned to them, one buffer to one format, in storage order.
pub proof fn lemma_resolves_iff_assignable<H>(mesh: MeshModel<H>, wants: Seq<FormatModel>)
    ensures
        mesh.resolves(wants, wants.len() as int) <==> exists|places: Seq<int>|
            assigns(mesh.formats(), wants, places),
{
    if mesh.resolves(wants, wants.len() as int) {
        let places = Seq::new(wants.len(), |k: int| mesh.matched(wants, k).unwrap());
        assert forall|i: int| 0 <= i < wants.len() implies 0 <= #[trigger] places[i]
            < mesh.formats().len() && mesh.formats()[places[i]].compatible(wants[i]) by {
            assert(mesh.matched(wants, i) is Some);
            lemma_matched_position(mesh, wants, i);
        }
        assert forall|i: int, j: int| 0 <= i < j < wants.len() implies places[i] < places[j] by {
            lemma_matched_increasing(mesh, wants, i, j);
        }
        assert(assigns(mesh.formats(), wants, places));
    }
    if exists|places: Seq<int>| assigns(mesh.formats(), wants, places) {
        let places = choose|places: Seq<int>| assigns(mesh.formats(), wants, places);
        assert forall|k: int| 0 <= k < wants.len() implies (#[trigger] mesh.matched(wants, k))
            is Some by {
            lemma_matched_not_behind(mesh, wants, places, k);
        }
    }
}

/// Where all vertex buffers of a mesh hold the same number of vertices, the
/// buffers that serve requested formats agree, whatever is requested.
pub proof fn lemma_uniform_counts_agree<H>(mesh: MeshModel<H>, wants: Seq<FormatModel>)
    requires
        forall|i: int, j: int|
            0 <= i < mesh.vertex_buffers.len() && 0 <= j < mesh.vertex_buffers.len()
                ==> mesh.vertex_buffers[i].len == mesh.vertex_buffers[j].len,
    ensures
        mesh.counts_agree(wants),
{
    assert forall|a: int, b: int|
        (#[trigger] mesh.matched(wants, a)) is Some && (#[trigger] mesh.matched(wants, b))
            is Some implies mesh.matched_count(wants, a) == mesh.matched_count(wants, b) by {
        lemma_matched_position(mesh, wants, a);
        lemma_matched_position(mesh, wants, b);
    }
}

/// A requested format with which no buffer of the mesh is compatible finds
/// no buffer, so the requested formats do not all resolve.
pub proof fn lemma_absent_format_unresolved<H>(
    mesh: MeshModel<H>,
    wants: Seq<FormatModel>,
    k: int,
)
    requires
        0 <= k < wants.len(),
        forall|j: int|
            0 <= j < mesh.formats().len() ==> !(#[trigger] mesh.formats()[j]).compatible(wants[k]),
    ensures
        mesh.matched(wants, k) is None,
        !mesh.resolves(wants, wants.len() as int),
{
    if k == 0 {
        lemma_first_compatible(mesh.formats(), wants[0], 0);
    } else if let Some(p) = mesh.matched(wants, k - 1) {
        lemma_matched_position(mesh, wants, k - 1);
        lemma_first_compatible(mesh.formats(), wants[k], p + 1);
    }
}

} // verus!
