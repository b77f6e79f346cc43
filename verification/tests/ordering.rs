use gfx_mesh::{are_well_formed, is_slice_sorted, Attribute, VertexFormat};

fn attr(semantic: u32, format: u32, offset: u32) -> Attribute {
    Attribute { semantic, format, offset }
}

fn format(stride: u32, attributes: Vec<Attribute>) -> VertexFormat {
    VertexFormat { attributes, stride }
}

#[test]
fn attributes_are_ordered_by_semantic_then_format_then_offset() {
    assert!(attr(0, 9, 9).is_before(&attr(1, 0, 0)));
    assert!(!attr(1, 0, 0).is_before(&attr(0, 9, 9)));
    assert!(attr(1, 2, 9).is_before(&attr(1, 3, 0)));
    assert!(!attr(1, 3, 0).is_before(&attr(1, 2, 9)));
    assert!(attr(1, 2, 3).is_before(&attr(1, 2, 4)));
    assert!(!attr(1, 2, 4).is_before(&attr(1, 2, 3)));
    assert!(!attr(1, 2, 3).is_before(&attr(1, 2, 3)));
}

#[test]
fn well_formed_means_strictly_ascending_offsets() {
    assert!(format(12, vec![]).is_well_formed());
    assert!(format(12, vec![attr(0, 1, 4)]).is_well_formed());
    assert!(format(12, vec![attr(0, 1, 0), attr(1, 1, 4), attr(2, 1, 8)]).is_well_formed());
    // Equal offsets.
    assert!(!format(12, vec![attr(0, 1, 0), attr(1, 1, 0)]).is_well_formed());
    // Descending offsets.
    assert!(!format(12, vec![attr(0, 1, 4), attr(1, 1, 0)]).is_well_formed());
    // A fault behind a good start.
    assert!(!format(12, vec![attr(0, 1, 0), attr(1, 1, 4), attr(2, 1, 4)]).is_well_formed());
}

#[test]
fn formats_are_ordered_by_attributes_then_stride() {
    let a = format(12, vec![attr(0, 1, 0)]);
    let longer = format(12, vec![attr(0, 1, 0), attr(1, 1, 4)]);
    let later = format(12, vec![attr(0, 1, 4)]);
    let wider = format(16, vec![attr(0, 1, 0)]);
    let empty = format(99, vec![]);
    // Equal formats precede each other.
    assert!(a.precedes(&a));
    // A proper prefix comes first, whatever the strides.
    assert!(a.precedes(&longer));
    assert!(!longer.precedes(&a));
    assert!(empty.precedes(&a));
    assert!(!a.precedes(&empty));
    // The first attribute that differs decides.
    assert!(a.precedes(&later));
    assert!(!later.precedes(&a));
    assert!(longer.precedes(&later));
    assert!(!later.precedes(&longer));
    // With equal attributes the stride decides.
    assert!(a.precedes(&wider));
    assert!(!wider.precedes(&a));
}

#[test]
fn sorted_slices_are_told_from_unsorted_ones() {
    let a = format(12, vec![attr(0, 1, 0)]);
    let b = format(12, vec![attr(0, 1, 0), attr(1, 1, 4)]);
    let c = format(12, vec![attr(0, 1, 4)]);
    assert!(is_slice_sorted(&[]));
    assert!(is_slice_sorted(&[a.clone()]));
    assert!(is_slice_sorted(&[a.clone(), b.clone(), c.clone()]));
    assert!(is_slice_sorted(&[a.clone(), a.clone(), c.clone()]));
    assert!(!is_slice_sorted(&[b.clone(), a.clone(), c.clone()]));
    assert!(!is_slice_sorted(&[a.clone(), c.clone(), b.clone()]));
}

#[test]
fn clone_keeps_a_format() {
    let a = format(12, vec![attr(0, 1, 0), attr(1, 1, 4)]);
    let b = a.clone();
    assert_eq!(a, b);
    assert_eq!(b.stride, 12);
    assert_eq!(b.attributes, vec![attr(0, 1, 0), attr(1, 1, 4)]);
}

#[test]
fn well_formed_slices_are_told_from_others() {
    let good = format(12, vec![attr(0, 1, 0), attr(1, 1, 4)]);
    let bad = format(12, vec![attr(0, 1, 4), attr(1, 1, 4)]);
    assert!(are_well_formed(&[]));
    assert!(are_well_formed(&[good.clone()]));
    assert!(are_well_formed(&[good.clone(), good.clone()]));
    assert!(!are_well_formed(&[bad.clone()]));
    assert!(!are_well_formed(&[good.clone(), bad.clone()]));
    assert!(!are_well_formed(&[bad.clone(), good.clone()]));
}
