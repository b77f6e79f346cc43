//! Vertex layouts: attributes, formats, their validity and their order.

use vstd::prelude::*;

verus! {

/// One field of a vertex: what it means, how it is encoded, and where it
/// starts inside the vertex.
#[derive(Clone, Copy, Debug, PartialEq, Eq, Hash, Structural)]
pub struct Attribute {
    /// Which attribute kind this is (position, normal, colour, ...).
    pub semantic: u32,
    /// The element format code.
    pub format: u32,
    /// Offset from the start of the vertex, in bytes.
    pub offset: u32,
}

impl Attribute {
    /// Strict order of attributes: by semantic, then format, then offset.
    pub open spec fn before(self, other: Attribute) -> bool {
        self.semantic < other.semantic || (self.semantic == other.semantic && (self.format
            < other.format || (self.format == other.format && self.offset < other.offset)))
    }

    /// Whether `self` comes strictly before `other`.
    pub fn is_before(&self, other: &Attribute) -> (b: bool)
        ensures
            b == self.before(*other),
    {
        if self.semantic != other.semantic {
            self.semantic < other.semantic
        } else if self.format != other.format {
            self.format < other.format
        } else {
            self.offset < other.offset
        }
    }
}

/// The layout of one vertex: its size and its attributes.
///
/// A format is well formed when its attributes stand in strictly ascending
/// order of offset. Nothing here re-sorts a format; `is_well_formed` tests it.
#[derive(Debug, PartialEq, Eq, Hash)]
pub struct VertexFormat {
    /// The attributes, in ascending order of offset.
    pub attributes: Vec<Attribute>,
    /// Size of one vertex, in bytes.
    pub stride: u32,
}

/// The mathematical value of a `VertexFormat`.
pub ghost struct FormatModel {
    pub attributes: Seq<Attribute>,
    pub stride: u32,
}

impl View for VertexFormat {
    type V = FormatModel;

    open spec fn view(&self) -> FormatModel {
        FormatModel { attributes: self.attributes@, stride: self.stride }
    }
}

impl Clone for VertexFormat {
    fn clone(&self) -> (copy: Self)
        ensures
            copy@ == self@,
    {
        VertexFormat { attributes: self.attributes.clone(), stride: self.stride }
    }
}

/// Three-way lexicographic comparison of two attribute lists from position
/// `i` on: negative, zero or positive as `a` is less than, equal to or
/// greater than `b`.
pub open spec fn attributes_order(a: Seq<Attribute>, b: Seq<Attribute>, i: int) -> int
    decreases a.len() - i,
{
    if i < 0 {
        0
    } else if i >= a.len() && i >= b.len() {
        0
    } else if i >= a.len() {
        -1
    } else if i >= b.len() {
        1
    } else if a[i] == b[i] {
        attributes_order(a, b, i + 1)
    } else if a[i].before(b[i]) {
        -1
    } else {
        1
    }
}

impl FormatModel {
    /// Attributes stand in ascending order of offset.
    pub open spec fn sorted_by_offset(self) -> bool {
        forall|i: int, j: int|
            0 <= i <= j < self.attributes.len() ==> self.attributes[i].offset
                <= self.attributes[j].offset
    }

    /// Attributes stand in strictly ascending order of offset, so no two
    /// share an offset.
    pub open spec fn well_formed(self) -> bool {
        forall|i: int, j: int|
            0 <= i < j < self.attributes.len() ==> self.attributes[i].offset
                < self.attributes[j].offset
    }

    /// The order by which formats are sorted: attribute lists compared
    /// lexicographically, ties broken by stride. True when `self` is less
    /// than or equal to `other`.
    pub open spec fn precedes(self, other: FormatModel) -> bool {
        let o = attributes_order(self.attributes, other.attributes, 0);
        o < 0 || (o == 0 && self.stride <= other.stride)
    }
}

/// A list of formats is sorted when each precedes its successor.
pub open spec fn formats_sorted(formats: Seq<FormatModel>) -> bool {
    forall|i: int|
        0 <= i && i + 1 < formats.len() ==> (#[trigger] formats[i]).precedes(formats[i + 1])
}

/// Each format of the list is well formed.
pub open spec fn formats_well_formed(formats: Seq<FormatModel>) -> bool {
    forall|i: int| 0 <= i < formats.len() ==> (#[trigger] formats[i]).well_formed()
}

/// The mathematical values of a list of formats.
pub open spec fn models_of(formats: Seq<VertexFormat>) -> Seq<FormatModel> {
    formats.map_values(|f: VertexFormat| f@)
}

impl VertexFormat {
    /// Tests that the attributes stand in strictly ascending order of offset.
    pub fn is_well_formed(&self) -> (ok: bool)
        ensures
            ok == self@.well_formed(),
    {
        let n = self.attributes.len();
        if n == 0 {
            return true;
        }
        let mut k: usize = 1;
        while k < n
            invariant
                n == self.attributes@.len(),
                1 <= k <= n,
                forall|i: int, j: int|
                    0 <= i < j < k ==> self.attributes@[i].offset < self.attributes@[j].offset,
            decreases n - k,
        {
            if self.attributes[k - 1].offset >= self.attributes[k].offset {
                assert(!(self@.attributes[k - 1].offset < self@.attributes[k as int].offset));
                return false;
            }
            k += 1;
        }
        true
    }

    /// Tests that `self` is less than or equal to `other` in the order of
    /// formats.
    pub fn precedes(&self, other: &VertexFormat) -> (b: bool)
        ensures
            b == self@.precedes(other@),
    {
        let n = self.attributes.len();
        let m = other.attributes.len();
        let mut i: usize = 0;
        while i < n && i < m
            invariant
                n == self.attributes@.len(),
                m == other.attributes@.len(),
                i <= n,
                i <= m,
                attributes_order(self.attributes@, other.attributes@, 0) == attributes_order(
                    self.attributes@,
                    other.attributes@,
                    i as int,
                ),
            decreases n - i,
        {
            let a = self.attributes[i];
            let b = other.attributes[i];
            if a != b {
                return a.is_before(&b);
            }
            i += 1;
        }
        if i < m {
            true
        } else if i < n {
            false
        } else {
            self.stride <= other.stride
        }
    }
}

/// Tests that each format of the slice precedes its successor.
pub fn is_slice_sorted(formats: &[VertexFormat]) -> (ok: bool)
    ensures
        ok == formats_sorted(models_of(formats@)),
{
    let n = formats.len();
    if n == 0 {
        return true;
    }
    let ghost models = models_of(formats@);
    let mut k: usize = 1;
    while k < n
        invariant
            n == formats@.len(),
            1 <= k <= n,
            models == models_of(formats@),
            forall|i: int| 0 <= i && i + 1 < k ==> (#[trigger] models[i]).precedes(models[i + 1]),
        decreases n - k,
    {
        if !formats[k - 1].precedes(&formats[k]) {
            assert(!models[k - 1].precedes(models[k - 1 + 1]));
            return false;
        }
        k += 1;
    }
    true
}

/// Tests that each format of the slice is well formed.
pub fn are_well_formed(formats: &[VertexFormat]) -> (ok: bool)
    ensures
        ok == formats_well_formed(models_of(formats@)),
{
    let n = formats.len();
    let ghost models = models_of(formats@);
    let mut k: usize = 0;
    while k < n
        invariant
            n == formats@.len(),
            k <= n,
            models == models_of(formats@),
            forall|i: int| 0 <= i < k ==> (#[trigger] models[i]).well_formed(),
        decreases n - k,
    {
        if !formats[k].is_well_formed() {
            assert(!models[k as int].well_formed());
            return false;
        }
        k += 1;
    }
    true
}

} // verus!
