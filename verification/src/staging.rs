//! The staged vertex layers of a builder, held in a small vector that keeps
//! the first sixteen of them inline.

use crate::vertex::VertexFormat;
use smallvec::SmallVec;
use vstd::prelude::*;

verus! {

/// How many layers a `Layers` takes at most. A list that holds fewer grows
/// to a capacity of at most this many layers, whose size in bytes is far
/// from overflowing.
pub const MAX_LAYERS: usize = 65536;

/// Staged vertex layers, in the order in which they were added: for each its
/// raw bytes and its format. The layers lie in a `SmallVec`, of which nothing
/// is known here but what `layers_of` and the functions below say.
#[derive(Debug)]
#[verifier::external_body]
pub struct Layers {
    items: SmallVec<[(Vec<u8>, VertexFormat); 16]>,
}

/// The layers that a `Layers` holds, first added first.
pub uninterp spec fn layers_of(layers: Layers) -> Seq<(Vec<u8>, VertexFormat)>;

/// `SmallVec::new`: a list that holds nothing.
#[verifier::external_body]
pub(crate) fn layers_new() -> (layers: Layers)
    ensures
        layers_of(layers) == Seq::<(Vec<u8>, VertexFormat)>::empty(),
{
    Layers { items: SmallVec::new() }
}

/// `SmallVec::push`: `layer` goes behind the layers already held, which stay
/// as they are. The call panics where the next capacity, or its size in
/// bytes, overflows, which a list of fewer than `MAX_LAYERS` layers does not
/// reach. Where memory is exhausted the process is aborted, as on any
/// allocation.
#[verifier::external_body]
pub(crate) fn layers_push(layers: &mut Layers, layer: (Vec<u8>, VertexFormat))
    requires
        layers_of(*old(layers)).len() < MAX_LAYERS,
    ensures
        layers_of(*final(layers)) == layers_of(*old(layers)).push(layer),
{
    layers.items.push(layer)
}

/// `SmallVec::len`: how many layers the list holds.
#[verifier::external_body]
pub(crate) fn layers_len(layers: &Layers) -> (len: usize)
    ensures
        len == layers_of(*layers).len(),
{
    layers.items.len()
}

/// Indexing a `SmallVec`: the layer at position `i`, which has to exist.
#[verifier::external_body]
pub(crate) fn layers_get(layers: &Layers, i: usize) -> (layer: &(Vec<u8>, VertexFormat))
    requires
        i < layers_of(*layers).len(),
    ensures
        *layer == layers_of(*layers)[i as int],
{
    &layers.items[i]
}

} // verus!
