use gfx_mesh::{
    find_compatible_buffer, Attribute, Bind, BuildEvent, BuildState, BuildStep, Incompatible,
    IndexType, Indices, Mesh, MeshBuilder, VertexFormat,
};

fn attr(semantic: u32, format: u32, offset: u32) -> Attribute {
    Attribute { semantic, format, offset }
}

/// Positions only, twelve bytes a vertex.
fn f1() -> VertexFormat {
    VertexFormat { attributes: vec![attr(0, 106, 0)], stride: 12 }
}

/// Two packed fields in twelve bytes; holds all that `f1` holds.
fn f2() -> VertexFormat {
    VertexFormat { attributes: vec![attr(0, 106, 0), attr(5, 40, 8)], stride: 12 }
}

/// Holds nothing that `f1` holds.
fn f3() -> VertexFormat {
    VertexFormat { attributes: vec![attr(7, 109, 0)], stride: 12 }
}

/// Texture coordinates, eight bytes a vertex.
fn f4() -> VertexFormat {
    VertexFormat { attributes: vec![attr(8, 103, 0)], stride: 8 }
}

/// Builds a mesh of the builder's layers; the buffers get the handles 100,
/// 101, ... in the order in which the build asks for them.
fn build(builder: &MeshBuilder) -> Mesh<u32> {
    let mut next = 100;
    let mut step = builder.build(BuildState::new(), BuildEvent::<u32, String>::Begin);
    loop {
        match step {
            BuildStep::Stage { state, .. } => {
                step = builder.build(state, BuildEvent::Staged(next));
                next += 1;
            }
            BuildStep::Done(mesh) => return mesh,
            BuildStep::Failed(error) => panic!("the build failed: {}", error),
        }
    }
}

/// A mesh with one buffer of a hundred vertices for each format.
fn mesh_of(formats: Vec<VertexFormat>) -> Mesh<u32> {
    let mut builder = MeshBuilder::new();
    for format in formats {
        let bytes = vec![0u8; 100 * format.stride as usize];
        builder.add_vertices(bytes, format);
    }
    build(&builder)
}

fn handles(vertex: &[(&u32, u64)]) -> Vec<(u32, u64)> {
    vertex.iter().map(|slot| (*slot.0, slot.1)).collect()
}

#[test]
fn first_compatible_buffer_is_found() {
    let mesh = mesh_of(vec![f1(), f2()]);
    let vbufs = mesh.vertex_buffers();
    assert_eq!(find_compatible_buffer(vbufs, &f1()), Some(0));
    assert_eq!(find_compatible_buffer(vbufs, &f2()), Some(1));
    assert_eq!(find_compatible_buffer(vbufs, &f3()), None);
    assert_eq!(find_compatible_buffer(vbufs, &f4()), None);
}

#[test]
fn search_in_a_window_gives_the_position_in_the_window() {
    let mesh = mesh_of(vec![f1(), f2()]);
    let vbufs = mesh.vertex_buffers();
    // `f2` holds what `f1` asks for, so it serves where `f1`'s own buffer is
    // out of the window.
    assert_eq!(find_compatible_buffer(&vbufs[1..], &f1()), Some(0));
    assert_eq!(find_compatible_buffer(&vbufs[1..], &f2()), Some(0));
    assert_eq!(find_compatible_buffer(&vbufs[2..], &f1()), None);

    let mesh = mesh_of(vec![f1(), f3()]);
    let vbufs = mesh.vertex_buffers();
    assert_eq!(find_compatible_buffer(&vbufs[1..], &f1()), None);
    assert_eq!(find_compatible_buffer(&vbufs[1..], &f3()), Some(0));
}

#[test]
fn search_in_no_buffers_finds_nothing() {
    let mesh = mesh_of(vec![]);
    assert_eq!(find_compatible_buffer(mesh.vertex_buffers(), &f1()), None);
}

#[test]
fn binding_without_indices_counts_vertices() {
    let mesh = mesh_of(vec![f1(), f2()]);
    assert!(mesh.is_well_formed());
    let formats = [f1(), f2()];
    let mut vertex = Vec::new();
    match mesh.bind(&formats, &mut vertex) {
        Ok(Bind::Unindexed { count }) => assert_eq!(count, 100),
        other => panic!("expected an unindexed binding, got {:?}", other),
    }
    assert_eq!(handles(&vertex), vec![(100, 0), (101, 0)]);
}

#[test]
fn binding_with_indices_counts_indices() {
    let builder = MeshBuilder::new()
        .with_vertices(vec![0u8; 1200], f1())
        .with_vertices(vec![0u8; 1200], f2())
        .with_indices(Indices::U16((0..300).collect()));
    let mesh = build(&builder);
    let formats = [f1(), f2()];
    let mut vertex = Vec::new();
    match mesh.bind(&formats, &mut vertex) {
        Ok(Bind::Indexed { index, count }) => {
            assert_eq!(count, 300);
            assert_eq!(*index.buffer, 102);
            assert_eq!(index.offset, 0);
            assert_eq!(index.index_type, IndexType::U16);
        }
        other => panic!("expected an indexed binding, got {:?}", other),
    }
    assert_eq!(handles(&vertex), vec![(100, 0), (101, 0)]);
}

#[test]
fn binding_a_format_that_no_buffer_serves_fails() {
    let mesh = mesh_of(vec![f1(), f2()]);
    let mut vertex = Vec::new();
    assert!(matches!(mesh.bind(&[f3()], &mut vertex), Err(Incompatible)));
    assert!(vertex.is_empty());
    let mut vertex = Vec::new();
    assert!(matches!(mesh.bind(&[f4()], &mut vertex), Err(Incompatible)));
    assert!(vertex.is_empty());
}

#[test]
fn failed_binding_keeps_the_slots_bound_before() {
    let mesh = mesh_of(vec![f1(), f2()]);
    let formats = [f1(), f3()];
    let mut vertex = Vec::new();
    assert!(matches!(mesh.bind(&formats, &mut vertex), Err(Incompatible)));
    assert_eq!(handles(&vertex), vec![(100, 0)]);
}

#[test]
fn binding_nothing_draws_nothing() {
    let mesh = mesh_of(vec![f1(), f2()]);
    let mut vertex = Vec::new();
    match mesh.bind(&[], &mut vertex) {
        Ok(Bind::Unindexed { count }) => assert_eq!(count, 0),
        other => panic!("expected an unindexed binding, got {:?}", other),
    }
    assert!(vertex.is_empty());
}

#[test]
fn binding_nothing_on_an_indexed_mesh_still_binds_the_indices() {
    let builder = MeshBuilder::new().with_indices(Indices::U32(vec![0, 1, 2]));
    let mesh = build(&builder);
    let mut vertex = Vec::new();
    match mesh.bind(&[], &mut vertex) {
        Ok(Bind::Indexed { index, count }) => {
            assert_eq!(count, 3);
            assert_eq!(*index.buffer, 100);
            assert_eq!(index.index_type, IndexType::U32);
        }
        other => panic!("expected an indexed binding, got {:?}", other),
    }
    assert!(vertex.is_empty());
}

#[test]
fn a_buffer_serves_one_format_only() {
    // Both requests are served by the one buffer, but not in one binding.
    let mesh = mesh_of(vec![f2()]);
    let formats = [f1(), f2()];
    let mut vertex = Vec::new();
    assert!(matches!(mesh.bind(&formats, &mut vertex), Err(Incompatible)));
    assert_eq!(handles(&vertex), vec![(100, 0)]);

    let formats = [f1(), f1()];
    let mesh = mesh_of(vec![f1()]);
    let mut vertex = Vec::new();
    assert!(matches!(mesh.bind(&formats, &mut vertex), Err(Incompatible)));
    assert_eq!(handles(&vertex), vec![(100, 0)]);
}

#[test]
fn buffers_are_taken_in_storage_order() {
    // The first request takes the first buffer that serves it, and the
    // search for the second starts behind that buffer.
    let mesh = mesh_of(vec![f1(), f1(), f2(), f3()]);
    assert!(mesh.is_well_formed());
    let formats = [f1(), f1(), f3()];
    let mut vertex = Vec::new();
    match mesh.bind(&formats, &mut vertex) {
        Ok(Bind::Unindexed { count }) => assert_eq!(count, 100),
        other => panic!("expected an unindexed binding, got {:?}", other),
    }
    assert_eq!(handles(&vertex), vec![(100, 0), (101, 0), (103, 0)]);

    // A buffer that was passed over is not gone back to.
    let formats = [f3(), f3()];
    let mut vertex = Vec::new();
    assert!(matches!(mesh.bind(&formats, &mut vertex), Err(Incompatible)));
    assert_eq!(handles(&vertex), vec![(103, 0)]);
}

#[test]
fn a_wider_buffer_serves_a_narrower_request() {
    let mesh = mesh_of(vec![f2(), f3()]);
    let formats = [f1(), f3()];
    let mut vertex = Vec::new();
    match mesh.bind(&formats, &mut vertex) {
        Ok(Bind::Unindexed { count }) => assert_eq!(count, 100),
        other => panic!("expected an unindexed binding, got {:?}", other),
    }
    assert_eq!(handles(&vertex), vec![(100, 0), (101, 0)]);
}

#[test]
fn mesh_tells_whether_its_buffers_are_sorted() {
    assert!(mesh_of(vec![]).is_well_formed());
    assert!(mesh_of(vec![f1()]).is_well_formed());
    assert!(mesh_of(vec![f1(), f2(), f3()]).is_well_formed());
    assert!(!mesh_of(vec![f2(), f1()]).is_well_formed());
    assert!(!mesh_of(vec![f1(), f3(), f2()]).is_well_formed());
    let shared_offset = VertexFormat { attributes: vec![attr(0, 1, 0), attr(1, 1, 0)], stride: 12 };
    assert!(!mesh_of(vec![shared_offset]).is_well_formed());
}

#[test]
fn dispose_hands_back_the_index_buffer_first() {
    let builder = MeshBuilder::new()
        .with_vertices(vec![0u8; 1200], f1())
        .with_vertices(vec![0u8; 1200], f2())
        .with_indices(Indices::U16(vec![0, 1, 2]));
    assert_eq!(build(&builder).dispose(), vec![102, 100, 101]);
    assert_eq!(mesh_of(vec![f1(), f2(), f3()]).dispose(), vec![100, 101, 102]);
    assert_eq!(mesh_of(vec![]).dispose(), Vec::<u32>::new());
    let only_indices = MeshBuilder::new().with_indices(Indices::U16(vec![0]));
    assert_eq!(build(&only_indices).dispose(), vec![100]);
}

#[test]
fn bound_buffers_must_agree_in_their_number_of_vertices() {
    let builder = MeshBuilder::new()
        .with_vertices(vec![0u8; 1200], f1())
        .with_vertices(vec![0u8; 600], f3());
    let mesh = build(&builder);
    assert!(mesh.is_well_formed());
    // A hundred vertices in one buffer, fifty in the other.
    assert!(!mesh.counts_agree(&[f1(), f3()]));
    assert!(!mesh.accepts(&[f1(), f3()]));
    // Each alone is fine, and so is a request that ends before the second.
    assert!(mesh.counts_agree(&[f1()]));
    assert!(mesh.counts_agree(&[f3()]));
    assert!(mesh.counts_agree(&[]));
    assert!(mesh.counts_agree(&[f1(), f4(), f3()]));
    assert!(mesh.accepts(&[f1()]));
    assert!(mesh.accepts(&[f3()]));

    let mut vertex = Vec::new();
    match mesh.bind(&[f3()], &mut vertex) {
        Ok(Bind::Unindexed { count }) => assert_eq!(count, 50),
        other => panic!("expected an unindexed binding, got {:?}", other),
    }
    assert_eq!(handles(&vertex), vec![(101, 0)]);
}

#[test]
fn binding_asks_for_sorted_and_well_formed_formats() {
    let mesh = mesh_of(vec![f1(), f2()]);
    assert!(mesh.accepts(&[]));
    assert!(mesh.accepts(&[f1(), f2()]));
    assert!(mesh.accepts(&[f1(), f1()]));
    assert!(mesh.accepts(&[f2(), f3()]));
    // Requested formats out of order.
    assert!(!mesh.accepts(&[f2(), f1()]));
    // A requested format whose attributes share an offset.
    let shared_offset = VertexFormat { attributes: vec![attr(0, 1, 0), attr(1, 1, 0)], stride: 12 };
    assert!(!mesh.accepts(&[shared_offset]));
    // A mesh whose buffers are out of order.
    assert!(!mesh_of(vec![f2(), f1()]).accepts(&[f1()]));
}
