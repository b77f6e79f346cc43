//! Staging of vertex and index data, and the steps that turn what is staged
//! into a mesh.

use crate::indices::{holds_u16, holds_u32, u16_bytes, u32_bytes, Indices};
use crate::mesh::{
    IndexBuffer, IndexBufferModel, Mesh, MeshModel, VertexBuffer, VertexBufferModel,
};
use crate::staging::{
    layers_get, layers_len, layers_new, layers_of, layers_push, Layers, MAX_LAYERS,
};
use crate::topology::{IndexType, Primitive};
use crate::vertex::{FormatModel, VertexFormat};
use vstd::pervasive::unreached;
use vstd::prelude::*;

verus! {

/// What a buffer is used for.
#[derive(Clone, Copy, Debug, PartialEq, Eq, Structural)]
pub struct Usage {
    /// Vertices are read from it.
    pub vertex: bool,
    /// Indices are read from it.
    pub index: bool,
    /// Transfers write to it.
    pub transfer_dst: bool,
}

/// Where the memory of a buffer lies.
#[derive(Clone, Copy, Debug, PartialEq, Eq, Structural)]
pub struct Properties {
    /// In memory local to the device.
    pub device_local: bool,
}

/// How the pipeline reads a buffer once it is uploaded.
#[derive(Clone, Copy, Debug, PartialEq, Eq, Structural)]
pub struct Access {
    /// As vertices for draw commands.
    pub vertex_buffer_read: bool,
    /// As indices for indexed draw commands.
    pub index_buffer_read: bool,
}

/// One buffer that a build needs from the resource factory: a buffer of
/// `size` bytes with the given memory properties and usage, into which `data`
/// is uploaded at `offset` for the given access.
#[derive(Debug)]
pub struct BufferRequest<'a> {
    pub size: u64,
    pub properties: Properties,
    pub usage: Usage,
    pub access: Access,
    pub offset: u64,
    pub data: &'a [u8],
}

/// The mathematical value of a `BufferRequest`.
pub ghost struct RequestModel {
    pub size: u64,
    pub properties: Properties,
    pub usage: Usage,
    pub access: Access,
    pub offset: u64,
    pub data: Seq<u8>,
}

impl<'a> View for BufferRequest<'a> {
    type V = RequestModel;

    open spec fn view(&self) -> RequestModel {
        RequestModel {
            size: self.size,
            properties: self.properties,
            usage: self.usage,
            access: self.access,
            offset: self.offset,
            data: self.data@,
        }
    }
}

/// One staged vertex layer as a plain value.
pub ghost struct LayerModel {
    pub bytes: Seq<u8>,
    pub format: FormatModel,
}

impl LayerModel {
    /// How many whole vertices the bytes hold. Bytes left over are not counted.
    pub open spec fn vertex_count(self) -> int {
        self.bytes.len() as int / self.format.stride as int
    }

    /// The stride is not zero and the number of vertices fits 32 bits.
    pub open spec fn countable(self) -> bool {
        self.format.stride > 0 && self.vertex_count() <= u32::MAX
    }

    /// The buffer that a build asks for to hold this layer.
    pub open spec fn request(self) -> RequestModel {
        RequestModel {
            size: self.bytes.len() as u64,
            properties: Properties { device_local: true },
            usage: Usage { vertex: true, index: false, transfer_dst: true },
            access: Access { vertex_buffer_read: true, index_buffer_read: false },
            offset: 0,
            data: self.bytes,
        }
    }
}

/// The staged index layer as a plain value.
pub ghost struct IndexLayerModel {
    pub bytes: Seq<u8>,
    pub index_type: IndexType,
}

impl IndexLayerModel {
    /// How many whole indices the bytes hold. Bytes left over are not counted.
    pub open spec fn index_count(self) -> int {
        self.bytes.len() as int / self.index_type.bytes_per_index() as int
    }

    /// The buffer that a build asks for to hold the indices.
    pub open spec fn request(self) -> RequestModel {
        RequestModel {
            size: self.bytes.len() as u64,
            properties: Properties { device_local: true },
            usage: Usage { vertex: false, index: true, transfer_dst: true },
            access: Access { vertex_buffer_read: false, index_buffer_read: true },
            offset: 0,
            data: self.bytes,
        }
    }
}

/// The mathematical value of a `MeshBuilder`.
pub ghost struct BuilderModel {
    pub layers: Seq<LayerModel>,
    pub indices: Option<IndexLayerModel>,
    pub primitive: Primitive,
}

impl BuilderModel {
    /// Every count that a build computes fits 32 bits.
    pub open spec fn countable(self) -> bool {
        &&& forall|k: int| 0 <= k < self.layers.len() ==> (#[trigger] self.layers[k]).countable()
        &&& self.indices matches Some(layer) ==> layer.index_count() <= u32::MAX
    }

    /// How many buffers a build needs: one for each vertex layer, and one
    /// for the indices where there are any.
    pub open spec fn request_count(self) -> int {
        self.layers.len() + if self.indices is Some {
            1int
        } else {
            0int
        }
    }

    /// The `k`-th buffer that a build asks for: the vertex layers come in the
    /// order in which they were added, the indices last.
    pub open spec fn request(self, k: int) -> RequestModel {
        if k < self.layers.len() {
            self.layers[k].request()
        } else {
            self.indices.unwrap().request()
        }
    }

    /// The vertex buffer that holds layer `k` once `buffer` is staged for it.
    pub open spec fn vertex_buffer<H>(self, k: int, buffer: H) -> VertexBufferModel<H> {
        VertexBufferModel {
            buffer,
            format: self.layers[k].format,
            len: self.layers[k].vertex_count() as u32,
        }
    }

    /// The vertex buffers made of the staged handles, layer by layer.
    pub open spec fn vertex_buffers<H>(self, staged: Seq<H>) -> Seq<VertexBufferModel<H>> {
        Seq::new(staged.len(), |k: int| self.vertex_buffer(k, staged[k]))
    }

    /// The mesh made of the staged handles, of which there is one for each
    /// request, in the order of the requests.
    pub open spec fn mesh<H>(self, staged: Seq<H>) -> MeshModel<H> {
        MeshModel {
            vertex_buffers: self.vertex_buffers(staged.take(self.layers.len() as int)),
            index_buffer: match self.indices {
                Some(layer) => Some(
                    IndexBufferModel {
                        buffer: staged[self.layers.len() as int],
                        index_type: layer.index_type,
                        len: layer.index_count() as u32,
                    },
                ),
                None => None,
            },
            primitive: self.primitive,
        }
    }

    /// What a build does once the buffers in `staged` are in place: it asks
    /// for the next buffer, or it is done.
    pub open spec fn next<H, E>(self, staged: Seq<H>) -> StepModel<H, E> {
        if staged.len() < self.request_count() {
            StepModel::Stage { staged, request: self.request(staged.len() as int) }
        } else {
            StepModel::Done(self.mesh(staged))
        }
    }

    /// What a build does on `event` when the buffers in `staged` are in
    /// place. A buffer that was staged is taken and the build goes on; an
    /// error ends the build and comes out unchanged.
    pub open spec fn step<H, E>(self, staged: Seq<H>, event: BuildEvent<H, E>) -> StepModel<H, E> {
        match event {
            BuildEvent::Begin => self.next(staged),
            BuildEvent::Staged(buffer) => self.next(staged.push(buffer)),
            BuildEvent::Failed(error) => StepModel::Failed(error),
        }
    }
}

/// `layer` is what a builder stages for `indices`: nothing for no indices,
/// else the bytes of the indices as they lie in memory, with their width.
pub open spec fn stages(indices: Indices, layer: Option<IndexLayerModel>) -> bool {
    match indices {
        Indices::Absent => layer is None,
        Indices::U16(values) => layer matches Some(l) && l.index_type == IndexType::U16
            && holds_u16(l.bytes, values@),
        Indices::U32(values) => layer matches Some(l) && l.index_type == IndexType::U32
            && holds_u32(l.bytes, values@),
    }
}

/// The number of indices fits 32 bits.
pub open spec fn countable_indices(indices: Indices) -> bool {
    match indices {
        Indices::Absent => true,
        Indices::U16(values) => values@.len() <= u32::MAX,
        Indices::U32(values) => values@.len() <= u32::MAX,
    }
}

/// What happened since the last step of a build.
#[derive(Debug)]
pub enum BuildEvent<H, E> {
    /// Nothing: the build begins.
    Begin,
    /// The buffer that the last step asked for was allocated and filled.
    Staged(H),
    /// Allocating or filling the buffer that the last step asked for failed.
    Failed(E),
}

/// The buffers staged so far in a build.
#[derive(Debug)]
pub struct BuildState<H> {
    vbufs: Vec<VertexBuffer<H>>,
}

impl<H> View for BuildState<H> {
    type V = Seq<H>;

    /// The handles staged so far, in the order of the requests.
    closed spec fn view(&self) -> Seq<H> {
        self.vbufs@.map_values(|b: VertexBuffer<H>| b@.buffer)
    }
}

impl<H> BuildState<H> {
    /// The buffers staged so far are the first vertex buffers of a mesh that
    /// `builder` builds.
    pub closed spec fn fits(&self, builder: &MeshBuilder) -> bool {
        &&& self.vbufs@.len() <= builder@.layers.len()
        &&& self.vbufs@.map_values(|b: VertexBuffer<H>| b@) == builder@.vertex_buffers(self@)
    }

    /// The state in which a build begins: nothing is staged.
    pub fn new() -> (state: Self)
        ensures
            state@ == Seq::<H>::empty(),
            forall|builder: &MeshBuilder| #[trigger] state.fits(builder),
    {
        let state = BuildState { vbufs: Vec::new() };
        assert forall|builder: &MeshBuilder| #[trigger] state.fits(builder) by {
            assert(state.vbufs@.map_values(|b: VertexBuffer<H>| b@) == builder@.vertex_buffers(
                state@,
            ));
        }
        state
    }
}

/// What a build does next.
#[derive(Debug)]
pub enum BuildStep<'a, H, E> {
    /// Allocate the buffer that `request` describes, upload its data, and
    /// hand the outcome to `MeshBuilder::build` together with `state`.
    Stage { state: BuildState<H>, request: BufferRequest<'a> },
    /// The mesh is built. It owns every buffer that was staged.
    Done(Mesh<H>),
    /// The build ended on this error. The buffers staged before it are
    /// dropped, not released.
    Failed(E),
}

/// The mathematical value of a `BuildStep`.
pub ghost enum StepModel<H, E> {
    Stage { staged: Seq<H>, request: RequestModel },
    Done(MeshModel<H>),
    Failed(E),
}

impl<'a, H, E> View for BuildStep<'a, H, E> {
    type V = StepModel<H, E>;

    open spec fn view(&self) -> StepModel<H, E> {
        match *self {
            BuildStep::Stage { state, request } => StepModel::Stage {
                staged: state@,
                request: request@,
            },
            BuildStep::Done(mesh) => StepModel::Done(mesh@),
            BuildStep::Failed(error) => StepModel::Failed(error),
        }
    }
}

/// Collects the vertex layers, the indices and the primitive type of a mesh
/// to be, as untyped bytes.
#[derive(Debug)]
pub struct MeshBuilder {
    vertices: Layers,
    indices: Option<(Vec<u8>, IndexType)>,
    prim: Primitive,
}

impl View for MeshBuilder {
    type V = BuilderModel;

    closed spec fn view(&self) -> BuilderModel {
        BuilderModel {
            layers: layers_of(self.vertices).map_values(
                |l: (Vec<u8>, VertexFormat)| LayerModel { bytes: l.0@, format: l.1@ },
            ),
            indices: match self.indices {
                Some((bytes, index_type)) => Some(IndexLayerModel { bytes: bytes@, index_type }),
                None => None,
            },
            primitive: self.prim,
        }
    }
}

impl MeshBuilder {
    #[verifier::type_invariant]
    spec fn valid(&self) -> bool {
        self@.countable() && self@.layers.len() <= MAX_LAYERS
    }

    /// An empty builder: no vertices, no indices, triangle lists.
    pub fn new() -> (builder: Self)
        ensures
            builder@ == (BuilderModel {
                layers: Seq::empty(),
                indices: None,
                primitive: Primitive::TriangleList,
            }),
    {
        let builder = MeshBuilder {
            vertices: layers_new(),
            indices: None,
            prim: Primitive::TriangleList,
        };
        assert(builder@.layers =~= Seq::empty());
        builder
    }

    /// Sets the indices of the mesh, in place of those set before. Their
    /// number has to fit 32 bits.
    pub fn set_indices(&mut self, indices: Indices) -> (builder: &mut Self)
        requires
            countable_indices(indices),
        ensures
            builder@.layers == old(self)@.layers,
            builder@.primitive == old(self)@.primitive,
            stages(indices, builder@.indices),
            *final(self) == *final(builder),
    {
        proof {
            use_type_invariant(&*self);
        }
        let staged = match indices {
            Indices::Absent => None,
            Indices::U16(values) => Some((u16_bytes(&values), IndexType::U16)),
            Indices::U32(values) => Some((u32_bytes(&values), IndexType::U32)),
        };
        proof {
            if staged is Some {
                let layer = IndexLayerModel {
                    bytes: staged.unwrap().0@,
                    index_type: staged.unwrap().1,
                };
                assert(layer.index_count() <= u32::MAX);
            }
            let next = MeshBuilder { vertices: self.vertices, indices: staged, prim: self.prim };
            assert(next@.layers == self@.layers);
        }
        self.indices = staged;
        self
    }

    /// Sets the indices of the mesh, in place of those set before. Their
    /// number has to fit 32 bits.
    pub fn with_indices(self, indices: Indices) -> (builder: Self)
        requires
            countable_indices(indices),
        ensures
            builder@.layers == self@.layers,
            builder@.primitive == self@.primitive,
            stages(indices, builder@.indices),
    {
        let mut builder = self;
        builder.set_indices(indices);
        builder
    }

    /// Adds a layer of vertices, given as raw bytes with their format,
    /// behind the layers added before. The stride of the format is not zero,
    /// the number of vertices fits 32 bits, and the builder holds fewer than
    /// `MAX_LAYERS` layers.
    pub fn add_vertices(&mut self, vertices: Vec<u8>, format: VertexFormat) -> (builder: &mut Self)
        requires
            old(self)@.layers.len() < MAX_LAYERS,
            (LayerModel { bytes: vertices@, format: format@ }).countable(),
        ensures
            builder@ == (BuilderModel {
                layers: old(self)@.layers.push(LayerModel { bytes: vertices@, format: format@ }),
                ..old(self)@
            }),
            *final(self) == *final(builder),
    {
        proof {
            use_type_invariant(&*self);
        }
        let ghost before = self@;
        let mut layers = layers_new();
        core::mem::swap(&mut layers, &mut self.vertices);
        layers_push(&mut layers, (vertices, format));
        proof {
            let staged = layers_of(layers).map_values(
                |l: (Vec<u8>, VertexFormat)| LayerModel { bytes: l.0@, format: l.1@ },
            );
            let layer = LayerModel { bytes: vertices@, format: format@ };
            assert(staged =~= before.layers.push(layer));
            assert forall|k: int| 0 <= k < staged.len() implies (#[trigger] staged[k]).countable(
            ) by {
                if k < before.layers.len() {
                    assert(staged[k] == before.layers[k]);
                }
            }
        }
        self.vertices = layers;
        self
    }

    /// Adds a layer of vertices, given as raw bytes with their format,
    /// behind the layers added before. The stride of the format is not zero,
    /// the number of vertices fits 32 bits, and the builder holds fewer than
    /// `MAX_LAYERS` layers.
    pub fn with_vertices(self, vertices: Vec<u8>, format: VertexFormat) -> (builder: Self)
        requires
            self@.layers.len() < MAX_LAYERS,
            (LayerModel { bytes: vertices@, format: format@ }).countable(),
        ensures
            builder@ == (BuilderModel {
                layers: self@.layers.push(LayerModel { bytes: vertices@, format: format@ }),
                ..self@
            }),
    {
        let mut builder = self;
        builder.add_vertices(vertices, format);
        builder
    }

    /// How many vertex layers are staged.
    pub fn layer_count(&self) -> (count: usize)
        ensures
            count == self@.layers.len(),
    {
        layers_len(&self.vertices)
    }

    /// The bytes and the format of the `k`-th vertex layer.
    pub fn layer(&self, k: usize) -> (layer: (&[u8], &VertexFormat))
        requires
            k < self@.layers.len(),
        ensures
            layer.0@ == self@.layers[k as int].bytes,
            layer.1@ == self@.layers[k as int].format,
    {
        let staged = layers_get(&self.vertices, k);
        (staged.0.as_slice(), &staged.1)
    }

    /// The bytes and the width of the staged indices, if there are any.
    pub fn index_layer(&self) -> (layer: Option<(&[u8], IndexType)>)
        ensures
            match layer {
                Some((bytes, index_type)) => self@.indices == Some(
                    IndexLayerModel { bytes: bytes@, index_type },
                ),
                None => self@.indices is None,
            },
    {
        match &self.indices {
            Some((bytes, index_type)) => Some((bytes.as_slice(), *index_type)),
            None => None,
        }
    }

    /// The primitive type of the mesh.
    pub fn prim_type(&self) -> (prim: Primitive)
        ensures
            prim == self@.primitive,
    {
        self.prim
    }

    /// The next step of building the mesh.
    ///
    /// A build asks for one buffer for each vertex layer, in the order in
    /// which the layers were added, then for one for the indices, if there are
    /// any. Call `build` with a new `BuildState` and `BuildEvent::Begin`; for
    /// each `BuildStep::Stage` that comes back, allocate and fill the buffer
    /// and call `build` again with the state of that step and the outcome. The
    /// first failure ends the build, with the error as it came in.
    pub fn build<'a, H, E>(&'a self, state: BuildState<H>, event: BuildEvent<H, E>) -> (step:
        BuildStep<'a, H, E>)
        requires
            state.fits(self),
            event is Staged ==> state@.len() < self@.request_count(),
        ensures
            self@.countable(),
            step@ == self@.step(state@, event),
            step matches BuildStep::Stage { state: next, .. } ==> next.fits(self),
    {
        proof {
            use_type_invariant(self);
        }
        let ghost staged = state@;
        let ghost before = state.vbufs@.map_values(|b: VertexBuffer<H>| b@);
        let layer_count = layers_len(&self.vertices);
        let mut vbufs = state.vbufs;
        match event {
            BuildEvent::Failed(error) => {
                return BuildStep::Failed(error);
            },
            BuildEvent::Begin => {},
            BuildEvent::Staged(buffer) => {
                let k = vbufs.len();
                if k < layer_count {
                    let layer = layers_get(&self.vertices, k);
                    assert(self@.layers[k as int] == (LayerModel {
                        bytes: layer.0@,
                        format: layer.1@,
                    }));
                    assert(self@.layers[k as int].countable());
                    let len = (layer.0.len() / (layer.1.stride as usize)) as u32;
                    vbufs.push(VertexBuffer::new(buffer, layer.1.clone(), len));
                    proof {
                        let now = BuildState { vbufs };
                        assert(now@ == staged.push(buffer));
                        let models = now.vbufs@.map_values(|b: VertexBuffer<H>| b@);
                        assert forall|j: int| 0 <= j < models.len() implies models[j]
                            == self@.vertex_buffers(now@)[j] by {
                            if j < k {
                                assert(models[j] == before[j]);
                                assert(before[j] == self@.vertex_buffers(staged)[j]);
                            }
                        }
                        assert(models == self@.vertex_buffers(now@));
                    }
                } else {
                    match &self.indices {
                        Some((bytes, index_type)) => {
                            let len = (bytes.len() / index_type.width()) as u32;
                            let ibuf = IndexBuffer::new(buffer, *index_type, len);
                            let mesh = Mesh::from_parts(vbufs, Some(ibuf), self.prim);
                            proof {
                                let all = staged.push(buffer);
                                assert(all.take(layer_count as int) == staged);
                                assert(mesh@ == self@.mesh(all));
                            }
                            return BuildStep::Done(mesh);
                        },
                        None => {
                            return unreached();
                        },
                    }
                }
            },
        }
        let ghost staged = (BuildState { vbufs })@;
        let k = vbufs.len();
        if k < layer_count {
            let layer = layers_get(&self.vertices, k);
            assert(self@.layers[k as int] == (LayerModel { bytes: layer.0@, format: layer.1@ }));
            let request = BufferRequest {
                size: layer.0.len() as u64,
                properties: Properties { device_local: true },
                usage: Usage { vertex: true, index: false, transfer_dst: true },
                access: Access { vertex_buffer_read: true, index_buffer_read: false },
                offset: 0,
                data: layer.0.as_slice(),
            };
            BuildStep::Stage { state: BuildState { vbufs }, request }
        } else {
            match &self.indices {
                Some((bytes, index_type)) => {
                    let request = BufferRequest {
                        size: bytes.len() as u64,
                        properties: Properties { device_local: true },
                        usage: Usage { vertex: false, index: true, transfer_dst: true },
                        access: Access { vertex_buffer_read: false, index_buffer_read: true },
                        offset: 0,
                        data: bytes.as_slice(),
                    };
                    BuildStep::Stage { state: BuildState { vbufs }, request }
                },
                None => {
                    let mesh = Mesh::from_parts(vbufs, None, self.prim);
                    proof {
                        assert(staged.take(layer_count as int) == staged);
                        assert(mesh@ == self@.mesh(staged));
                    }
                    BuildStep::Done(mesh)
                },
            }
        }
    }

    /// Sets the primitive type of the mesh.
    pub fn set_prim_type(&mut self, prim: Primitive) -> (builder: &mut Self)
        ensures
            builder@ == (BuilderModel { primitive: prim, ..old(self)@ }),
            *final(self) == *final(builder),
    {
        proof {
            use_type_invariant(&*self);
        }
        self.prim = prim;
        self
    }

    /// Sets the primitive type of the mesh.
    pub fn with_prim_type(self, prim: Primitive) -> (builder: Self)
        ensures
            builder@ == (BuilderModel { primitive: prim, ..self@ }),
    {
        let mut builder = self;
        builder.set_prim_type(prim);
        builder
    }
}

impl Clone for MeshBuilder {
    fn clone(&self) -> (copy: Self)
        ensures
            copy@ == self@,
    {
        proof {
            use_type_invariant(self);
        }
        let count = layers_len(&self.vertices);
        let mut layers = layers_new();
        let mut k: usize = 0;
        while k < count
            invariant
                count == layers_of(self.vertices).len(),
                count <= MAX_LAYERS,
                k <= count,
                layers_of(layers).len() == k,
                forall|j: int|
                    0 <= j < k ==> {
                        &&& (#[trigger] layers_of(layers)[j]).0@ == layers_of(self.vertices)[j].0@
                        &&& layers_of(layers)[j].1@ == layers_of(self.vertices)[j].1@
                    },
            decreases count - k,
        {
            let layer = layers_get(&self.vertices, k);
            layers_push(&mut layers, (layer.0.clone(), layer.1.clone()));
            k += 1;
        }
        let indices = match &self.indices {
            Some((bytes, index_type)) => Some((bytes.clone(), *index_type)),
            None => None,
        };
        proof {
            let model = |l: (Vec<u8>, VertexFormat)| LayerModel { bytes: l.0@, format: l.1@ };
            assert(layers_of(layers).map_values(model) =~= layers_of(self.vertices).map_values(
                model,
            ));
        }
        MeshBuilder { vertices: layers, indices, prim: self.prim }
    }
}

} // verus!
