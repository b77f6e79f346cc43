//! Meshes: vertex buffers tagged with their formats, an optional index
//! buffer, and the binding of the buffers to the formats a pipeline asks for.

use crate::builder::{BuilderModel, MeshBuilder};
use crate::compat::is_compatible;
use crate::draw::{Bind, IndexBufferView};
use crate::topology::{IndexType, Primitive};
use crate::resolve::{
    first_compatible, lemma_first_compatible, lemma_first_compatible_window, lemma_matched_prefix,
};
use crate::vertex::{are_well_formed, is_slice_sorted, models_of, FormatModel, VertexFormat};
use vstd::prelude::*;
use vstd::slice::slice_subrange;

verus! {

/// A buffer of vertices with its format. `H` is the handle of the buffer.
#[derive(Debug)]
pub struct VertexBuffer<H> {
    buffer: H,
    format: VertexFormat,
    len: u32,
}

/// The mathematical value of a `VertexBuffer`.
pub ghost struct VertexBufferModel<H> {
    pub buffer: H,
    pub format: FormatModel,
    /// How many vertices the buffer holds.
    pub len: u32,
}

impl<H> View for VertexBuffer<H> {
    type V = VertexBufferModel<H>;

    closed spec fn view(&self) -> VertexBufferModel<H> {
        VertexBufferModel { buffer: self.buffer, format: self.format@, len: self.len }
    }
}

impl<H> VertexBuffer<H> {
    /// Tags `buffer`, which holds `len` vertices, with `format`.
    pub(crate) fn new(buffer: H, format: VertexFormat, len: u32) -> (vbuf: Self)
        ensures
            vbuf@ == (VertexBufferModel { buffer, format: format@, len }),
    {
        VertexBuffer { buffer, format, len }
    }

    /// The handle of the buffer.
    pub fn buffer(&self) -> (buffer: &H)
        ensures
            *buffer == self@.buffer,
    {
        &self.buffer
    }

    /// The layout of the vertices.
    pub fn format(&self) -> (format: &VertexFormat)
        ensures
            format@ == self@.format,
    {
        &self.format
    }

    /// How many vertices the buffer holds.
    pub fn len(&self) -> (len: u32)
        ensures
            len == self@.len,
    {
        self.len
    }
}

/// A buffer of indices with their width. `H` is the handle of the buffer.
#[derive(Debug)]
pub struct IndexBuffer<H> {
    buffer: H,
    index_type: IndexType,
    len: u32,
}

/// The mathematical value of an `IndexBuffer`.
pub ghost struct IndexBufferModel<H> {
    pub buffer: H,
    pub index_type: IndexType,
    /// How many indices the buffer holds.
    pub len: u32,
}

impl<H> View for IndexBuffer<H> {
    type V = IndexBufferModel<H>;

    closed spec fn view(&self) -> IndexBufferModel<H> {
        IndexBufferModel { buffer: self.buffer, index_type: self.index_type, len: self.len }
    }
}

impl<H> IndexBuffer<H> {
    /// Tags `buffer`, which holds `len` indices, with their width.
    pub(crate) fn new(buffer: H, index_type: IndexType, len: u32) -> (ibuf: Self)
        ensures
            ibuf@ == (IndexBufferModel { buffer, index_type, len }),
    {
        IndexBuffer { buffer, index_type, len }
    }

    /// The handle of the buffer.
    pub fn buffer(&self) -> (buffer: &H)
        ensures
            *buffer == self@.buffer,
    {
        &self.buffer
    }

    /// The width of the indices.
    pub fn index_type(&self) -> (index_type: IndexType)
        ensures
            index_type == self@.index_type,
    {
        self.index_type
    }

    /// How many indices the buffer holds.
    pub fn len(&self) -> (len: u32)
        ensures
            len == self@.len,
    {
        self.len
    }
}

/// The formats of a list of vertex buffers, in the same order.
pub open spec fn formats_of<H>(buffers: Seq<VertexBuffer<H>>) -> Seq<FormatModel> {
    buffers.map_values(|b: VertexBuffer<H>| b@.format)
}

/// Finds the first of `vbufs` whose format is compatible with `format`, and
/// gives its position in `vbufs`.
pub fn find_compatible_buffer<H>(vbufs: &[VertexBuffer<H>], format: &VertexFormat) -> (found:
    Option<usize>)
    ensures
        match found {
            Some(i) => {
                &&& i < vbufs@.len()
                &&& formats_of(vbufs@)[i as int].compatible(format@)
                &&& forall|j: int|
                    0 <= j < i ==> !(#[trigger] formats_of(vbufs@)[j]).compatible(format@)
                &&& first_compatible(formats_of(vbufs@), format@, 0) == Some(i as int)
            },
            None => {
                &&& forall|j: int|
                    0 <= j < vbufs@.len() ==> !(#[trigger] formats_of(vbufs@)[j]).compatible(
                        format@,
                    )
                &&& first_compatible(formats_of(vbufs@), format@, 0) is None
            },
        },
{
    let n = vbufs.len();
    let ghost formats = formats_of(vbufs@);
    let mut i: usize = 0;
    while i < n
        invariant
            n == vbufs@.len(),
            formats == formats_of(vbufs@),
            i <= n,
            first_compatible(formats, format@, 0) == first_compatible(formats, format@, i as int),
        decreases n - i,
    {
        if is_compatible(&vbufs[i].format, format) {
            proof {
                lemma_first_compatible(formats, format@, 0);
            }
            return Some(i);
        }
        i += 1;
    }
    proof {
        lemma_first_compatible(formats, format@, 0);
    }
    None
}

/// Returned by `Mesh::bind` when no buffer of the mesh is left that is
/// compatible with one of the requested formats.
#[derive(Clone, Copy, Debug, PartialEq, Eq, Structural)]
pub struct Incompatible;

/// A collection of buffers that provides the attributes of one object.
/// Nothing changes a mesh once it is built.
#[derive(Debug)]
pub struct Mesh<H> {
    vbufs: Vec<VertexBuffer<H>>,
    ibuf: Option<IndexBuffer<H>>,
    prim: Primitive,
}

/// The mathematical value of a `Mesh`.
pub ghost struct MeshModel<H> {
    pub vertex_buffers: Seq<VertexBufferModel<H>>,
    pub index_buffer: Option<IndexBufferModel<H>>,
    pub primitive: Primitive,
}

impl<H> View for Mesh<H> {
    type V = MeshModel<H>;

    closed spec fn view(&self) -> MeshModel<H> {
        MeshModel {
            vertex_buffers: self.vbufs@.map_values(|b: VertexBuffer<H>| b@),
            index_buffer: match self.ibuf {
                Some(ibuf) => Some(ibuf@),
                None => None,
            },
            primitive: self.prim,
        }
    }
}

/// The binding set as plain values: for each slot the handle and the offset.
pub open spec fn slots<H>(vertex: Seq<(&H, u64)>) -> Seq<(H, u64)> {
    vertex.map_values(|s: (&H, u64)| (*s.0, s.1))
}

impl<H> Mesh<H> {
    /// Makes a mesh of its parts.
    pub(crate) fn from_parts(
        vbufs: Vec<VertexBuffer<H>>,
        ibuf: Option<IndexBuffer<H>>,
        prim: Primitive,
    ) -> (mesh: Self)
        ensures
            mesh@.vertex_buffers == vbufs@.map_values(|b: VertexBuffer<H>| b@),
            mesh@.index_buffer == match ibuf {
                Some(i) => Some(i@),
                None => None,
            },
            mesh@.primitive == prim,
    {
        Mesh { vbufs, ibuf, prim }
    }

    /// An empty builder, with which to build a mesh.
    pub fn new() -> (builder: MeshBuilder)
        ensures
            builder@ == (BuilderModel {
                layers: Seq::empty(),
                indices: None,
                primitive: Primitive::TriangleList,
            }),
    {
        MeshBuilder::new()
    }

    /// How the vertices are assembled into primitives.
    pub fn primitive(&self) -> (prim: Primitive)
        ensures
            prim == self@.primitive,
    {
        self.prim
    }

    /// The vertex buffers, in storage order.
    pub fn vertex_buffers(&self) -> (vbufs: &[VertexBuffer<H>])
        ensures
            vbufs@.map_values(|b: VertexBuffer<H>| b@) == self@.vertex_buffers,
    {
        self.vbufs.as_slice()
    }

    /// The index buffer, if the mesh has one.
    pub fn index_buffer(&self) -> (ibuf: Option<&IndexBuffer<H>>)
        ensures
            match ibuf {
                Some(i) => self@.index_buffer == Some(i@),
                None => self@.index_buffer is None,
            },
    {
        self.ibuf.as_ref()
    }

    /// Tests that the vertex buffers are sorted by format and that each
    /// format is well formed.
    pub fn is_well_formed(&self) -> (ok: bool)
        ensures
            ok == self@.well_formed(),
    {
        let n = self.vbufs.len();
        let ghost formats = self@.formats();
        let mut k: usize = 0;
        while k < n
            invariant
                n == self.vbufs@.len(),
                formats == self@.formats(),
                formats == formats_of(self.vbufs@),
                k <= n,
                forall|i: int| 0 <= i < k ==> (#[trigger] formats[i]).well_formed(),
                forall|i: int|
                    0 <= i && i + 1 <= k && i + 1 < n ==> (#[trigger] formats[i]).precedes(
                        formats[i + 1],
                    ),
            decreases n - k,
        {
            if !self.vbufs[k].format.is_well_formed() {
                assert(!formats[k as int].well_formed());
                return false;
            }
            if k + 1 < n && !self.vbufs[k].format.precedes(&self.vbufs[k + 1].format) {
                assert(!formats[k as int].precedes(formats[k + 1]));
                return false;
            }
            k += 1;
        }
        true
    }

    /// Tests that the buffers which come to serve the requested formats
    /// hold the same number of vertices.
    pub fn counts_agree(&self, formats: &[VertexFormat]) -> (ok: bool)
        ensures
            ok == self@.counts_agree(models_of(formats@)),
    {
        let ghost wants = models_of(formats@);
        let ghost all = self@.formats();
        let n = formats.len();
        let total = self.vbufs.len();
        let mut next: usize = 0;
        let mut vertex_count: Option<u32> = None;
        let mut k: usize = 0;
        while k < n
            invariant
                wants == models_of(formats@),
                all == self@.formats(),
                all == formats_of(self.vbufs@),
                n == formats@.len(),
                total == self.vbufs@.len(),
                k <= n,
                next <= total,
                self@.resolves(wants, k as int),
                k == 0 ==> next == 0 && vertex_count is None,
                k > 0 ==> self@.matched(wants, k - 1) == Some(next - 1) && vertex_count is Some,
                forall|a: int|
                    0 <= a < k ==> vertex_count == Some(#[trigger] self@.matched_count(wants, a)),
            decreases n - k,
        {
            let window = slice_subrange(self.vbufs.as_slice(), next, total);
            proof {
                assert(formats_of(window@) == all.subrange(next as int, total as int));
                lemma_first_compatible_window(all, wants[k as int], next as int, 0);
                lemma_first_compatible(all, wants[k as int], next as int);
            }
            match find_compatible_buffer(window, &formats[k]) {
                Some(offset) => {
                    let index = next + offset;
                    assert(self@.matched(wants, k as int) == Some(index as int));
                    let len = self.vbufs[index].len;
                    assert(self@.matched_count(wants, k as int) == len);
                    match vertex_count {
                        Some(count) => {
                            if count != len {
                                assert(self@.matched(wants, k - 1) is Some);
                                assert(self@.matched_count(wants, k - 1) == count);
                                return false;
                            }
                        },
                        None => {},
                    }
                    next = index + 1;
                    vertex_count = Some(len);
                },
                None => {
                    proof {
                        assert(self@.matched(wants, k as int) is None);
                        assert forall|a: int| (#[trigger] self@.matched(wants, a)) is Some implies a
                            < k by {
                            if a >= k {
                                lemma_matched_prefix(self@, wants, k as int, a);
                            }
                        }
                    }
                    return true;
                },
            }
            k += 1;
        }
        true
    }

    /// Tests what `bind` asks of the mesh and of the requested formats.
    pub fn accepts(&self, formats: &[VertexFormat]) -> (ok: bool)
        ensures
            ok == self@.accepts(models_of(formats@)),
    {
        self.is_well_formed() && is_slice_sorted(formats) && are_well_formed(formats)
            && self.counts_agree(formats)
    }

    /// Binds the vertex buffers to the requested formats, slot by slot.
    ///
    /// Each requested format takes the first compatible buffer after the one
    /// that the format before it took, so no buffer serves two formats. For
    /// each, the buffer's handle is appended to `vertex` at offset 0. Where a
    /// format finds no buffer the binding fails, and `vertex` keeps the slots
    /// appended until then: discard it.
    pub fn bind<'a>(&'a self, formats: &[VertexFormat], vertex: &mut Vec<(&'a H, u64)>) -> (result:
        Result<Bind<'a, H>, Incompatible>)
        requires
            self@.accepts(models_of(formats@)),
            old(vertex)@.len() == 0,
        ensures
            ({
                let wants = models_of(formats@);
                &&& result is Ok <==> self@.resolves(wants, wants.len() as int)
                &&& match result {
                    Ok(bind) => {
                        &&& self@.resolves(wants, wants.len() as int)
                        &&& final(vertex)@.len() == wants.len()
                        &&& slots(final(vertex)@) == self@.bindings(wants, wants.len() as int)
                        &&& bind@ == self@.outcome(wants)
                    },
                    Err(_) => exists|n: int|
                        {
                            &&& 0 <= n < wants.len()
                            &&& self@.resolves(wants, n)
                            &&& #[trigger] self@.matched(wants, n) is None
                            &&& final(vertex)@.len() == n
                            &&& slots(final(vertex)@) == self@.bindings(wants, n)
                        },
                }
            }),
    {
        let ghost wants = models_of(formats@);
        let ghost all = self@.formats();
        let n = formats.len();
        let total = self.vbufs.len();
        let mut next: usize = 0;
        let mut vertex_count: Option<u32> = None;
        let mut k: usize = 0;
        while k < n
            invariant
                wants == models_of(formats@),
                all == self@.formats(),
                all == formats_of(self.vbufs@),
                n == formats@.len(),
                total == self.vbufs@.len(),
                k <= n,
                next <= total,
                vertex@.len() == k,
                self@.counts_agree(wants),
                self@.resolves(wants, k as int),
                k == 0 ==> next == 0 && vertex_count is None,
                k > 0 ==> self@.matched(wants, k - 1) == Some(next - 1) && vertex_count == Some(
                    self@.vertex_buffers[next - 1].len,
                ),
                slots(vertex@) == self@.bindings(wants, k as int),
            decreases n - k,
        {
            let window = slice_subrange(self.vbufs.as_slice(), next, total);
            proof {
                assert(formats_of(window@) == all.subrange(next as int, total as int));
                lemma_first_compatible_window(all, wants[k as int], next as int, 0);
                lemma_first_compatible(all, wants[k as int], next as int);
            }
            match find_compatible_buffer(window, &formats[k]) {
                Some(offset) => {
                    let index = next + offset;
                    assert(self@.matched(wants, k as int) == Some(index as int));
                    let vbuf = &self.vbufs[index];
                    proof {
                        if k > 0 {
                            assert(self@.matched(wants, k - 1) is Some);
                        }
                        assert(self@.vertex_buffers[index as int] == vbuf@);
                    }
                    // Buffers that are bound together hold equally many vertices.
                    assert(vertex_count is None || vertex_count == Some(vbuf.len));
                    let ghost before = vertex@;
                    vertex.push((&vbuf.buffer, 0));
                    proof {
                        assert(slots(vertex@) == slots(before).push((vbuf.buffer, 0u64)));
                        assert(slots(vertex@) == self@.bindings(wants, k + 1));
                    }
                    next = index + 1;
                    vertex_count = Some(vbuf.len);
                },
                None => {
                    assert(self@.matched(wants, k as int) is None);
                    return Err(Incompatible);
                },
            }
            k += 1;
        }
        Ok(
            match &self.ibuf {
                Some(ibuf) => Bind::Indexed {
                    index: IndexBufferView {
                        buffer: &ibuf.buffer,
                        offset: 0,
                        index_type: ibuf.index_type,
                    },
                    count: ibuf.len,
                },
                None => Bind::Unindexed {
                    count: match vertex_count {
                        Some(count) => count,
                        None => 0,
                    },
                },
            },
        )
    }

    /// Takes the mesh apart and hands back the handles of its buffers, in the
    /// order in which they are to be destroyed: the index buffer first, then
    /// the vertex buffers in storage order.
    pub fn dispose(self) -> (handles: Vec<H>)
        ensures
            handles@ == (match self@.index_buffer {
                Some(ibuf) => seq![ibuf.buffer],
                None => Seq::<H>::empty(),
            }) + self@.vertex_buffers.map_values(|b: VertexBufferModel<H>| b.buffer),
    {
        let ghost model = self@;
        let mut handles: Vec<H> = Vec::new();
        if let Some(ibuf) = self.ibuf {
            handles.push(ibuf.buffer);
        }
        let ghost head = handles@;
        let ghost buffers = self.vbufs@;
        for vbuf in it: self.vbufs
            invariant
                it.seq() == buffers,
                handles@ == head + buffers.take(it.index() as int).map_values(
                    |b: VertexBuffer<H>| b@.buffer,
                ),
        {
            assert(buffers.take(it.index() + 1) == buffers.take(it.index() as int).push(vbuf));
            handles.push(vbuf.buffer);
        }
        assert(buffers.take(buffers.len() as int) == buffers);
        assert(model.vertex_buffers.map_values(|b: VertexBufferModel<H>| b.buffer)
            == buffers.map_values(|b: VertexBuffer<H>| b@.buffer));
        handles
    }
}

} // verus!
