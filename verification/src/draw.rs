//! The outcome of a binding, and the commands that draw it.

use crate::topology::IndexType;
use core::ops::Range;
use vstd::prelude::*;

verus! {

/// The part of an index buffer that indexed draws read.
#[derive(Debug)]
pub struct IndexBufferView<'a, H> {
    /// The buffer to bind.
    pub buffer: &'a H,
    /// Offset into the buffer at which the indices start, in bytes.
    pub offset: u64,
    /// The width of the indices.
    pub index_type: IndexType,
}

/// What a mesh hands back once its vertex buffers are bound. The vertex
/// buffers themselves stand in the binding set that the caller supplied.
#[derive(Debug)]
pub enum Bind<'a, H> {
    /// The mesh is drawn through its index buffer.
    Indexed {
        /// The index buffer to bind.
        index: IndexBufferView<'a, H>,
        /// How many indices to draw.
        count: u32,
    },
    /// The mesh is drawn vertex by vertex.
    Unindexed {
        /// How many vertices to draw.
        count: u32,
    },
}

/// The mathematical value of a `Bind`.
pub ghost enum BindModel<H> {
    Indexed { buffer: H, offset: u64, index_type: IndexType, count: u32 },
    Unindexed { count: u32 },
}

impl<'a, H> View for Bind<'a, H> {
    type V = BindModel<H>;

    open spec fn view(&self) -> BindModel<H> {
        match *self {
            Bind::Indexed { index, count } => BindModel::Indexed {
                buffer: *index.buffer,
                offset: index.offset,
                index_type: index.index_type,
                count,
            },
            Bind::Unindexed { count } => BindModel::Unindexed { count },
        }
    }
}

/// One command for the encoder that records a draw.
#[derive(Debug)]
pub enum Command<'a, H> {
    /// Bind these buffers, with their offsets, to the vertex slots from slot 0 on.
    BindVertexBuffers(Vec<(&'a H, u64)>),
    /// Bind the index buffer.
    BindIndexBuffer(IndexBufferView<'a, H>),
    /// Draw through the bound index buffer.
    DrawIndexed {
        /// The indices to draw.
        indices: Range<u32>,
        /// The value added to each index before the vertex is fetched.
        base_vertex: i32,
        /// The instances to draw.
        instances: Range<u32>,
    },
    /// Draw vertices in buffer order.
    Draw {
        /// The vertices to draw.
        vertices: Range<u32>,
        /// The instances to draw.
        instances: Range<u32>,
    },
}

impl<'a, H> Bind<'a, H> {
    /// The commands that `draw` yields for this binding and the binding set
    /// `vertex`: the vertex buffers are bound first; an indexed binding then
    /// binds its index buffer and draws all its indices, an unindexed one draws
    /// all its vertices. Always one instance, and no base vertex.
    pub open spec fn commands(self, vertex: Vec<(&'a H, u64)>) -> Seq<Command<'a, H>> {
        match self {
            Bind::Indexed { index, count } => seq![
                Command::BindVertexBuffers(vertex),
                Command::BindIndexBuffer(index),
                Command::DrawIndexed {
                    indices: Range { start: 0u32, end: count },
                    base_vertex: 0i32,
                    instances: Range { start: 0u32, end: 1u32 },
                },
            ],
            Bind::Unindexed { count } => seq![
                Command::BindVertexBuffers(vertex),
                Command::Draw {
                    vertices: Range { start: 0u32, end: count },
                    instances: Range { start: 0u32, end: 1u32 },
                },
            ],
        }
    }

    /// Lists, in the order in which the encoder is to record them, the
    /// commands that draw this binding with the binding set `vertex`.
    pub fn draw(self, vertex: Vec<(&'a H, u64)>) -> (commands: Vec<Command<'a, H>>)
        ensures
            commands@ == self.commands(vertex),
    {
        let mut commands: Vec<Command<'a, H>> = Vec::new();
        commands.push(Command::BindVertexBuffers(vertex));
        match self {
            Bind::Indexed { index, count } => {
                commands.push(Command::BindIndexBuffer(index));
                commands.push(
                    Command::DrawIndexed { indices: 0..count, base_vertex: 0, instances: 0..1 },
                );
            },
            Bind::Unindexed { count } => {
                commands.push(Command::Draw { vertices: 0..count, instances: 0..1 });
            },
        }
        commands
    }
}

} // verus!
