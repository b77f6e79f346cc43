use gfx_mesh::{is_compatible, Attribute, VertexFormat};

const POSITION: u32 = 0;
const NORMAL: u32 = 1;
const COLOR: u32 = 2;
const TEX_COORD: u32 = 3;

const RGB32_FLOAT: u32 = 106;
const RGBA32_FLOAT: u32 = 109;
const RG32_FLOAT: u32 = 103;

fn attr(semantic: u32, format: u32, offset: u32) -> Attribute {
    Attribute { semantic, format, offset }
}

fn format(stride: u32, attributes: Vec<Attribute>) -> VertexFormat {
    VertexFormat { attributes, stride }
}

fn pos_norm_tex() -> VertexFormat {
    format(
        32,
        vec![
            attr(POSITION, RGB32_FLOAT, 0),
            attr(NORMAL, RGB32_FLOAT, 12),
            attr(TEX_COORD, RG32_FLOAT, 24),
        ],
    )
}

#[test]
fn format_is_compatible_with_itself() {
    let a = pos_norm_tex();
    assert!(is_compatible(&a, &a));
    let single = format(12, vec![attr(POSITION, RGB32_FLOAT, 0)]);
    assert!(is_compatible(&single, &single));
}

#[test]
fn empty_format_is_compatible_with_itself() {
    let a = format(0, vec![]);
    assert!(is_compatible(&a, &a));
}

#[test]
fn different_stride_is_incompatible() {
    let have = pos_norm_tex();
    let mut want = pos_norm_tex();
    want.stride = 36;
    assert!(!is_compatible(&have, &want));
    assert!(!is_compatible(&want, &have));
    // Not even a format without attributes is served across strides.
    assert!(!is_compatible(&have, &format(28, vec![])));
}

#[test]
fn subset_of_attributes_is_compatible() {
    let have = pos_norm_tex();
    let first = format(32, vec![attr(POSITION, RGB32_FLOAT, 0)]);
    let middle = format(32, vec![attr(NORMAL, RGB32_FLOAT, 12)]);
    let last = format(32, vec![attr(TEX_COORD, RG32_FLOAT, 24)]);
    let ends = format(32, vec![attr(POSITION, RGB32_FLOAT, 0), attr(TEX_COORD, RG32_FLOAT, 24)]);
    let none = format(32, vec![]);
    assert!(is_compatible(&have, &first));
    assert!(is_compatible(&have, &middle));
    assert!(is_compatible(&have, &last));
    assert!(is_compatible(&have, &ends));
    assert!(is_compatible(&have, &none));
}

#[test]
fn superset_is_not_served_by_subset() {
    let have = format(32, vec![attr(POSITION, RGB32_FLOAT, 0)]);
    assert!(!is_compatible(&have, &pos_norm_tex()));
    assert!(!is_compatible(&format(32, vec![]), &have));
}

#[test]
fn attribute_must_match_in_semantic_format_and_offset() {
    let have = pos_norm_tex();
    let other_semantic = format(32, vec![attr(COLOR, RGB32_FLOAT, 12)]);
    let other_format = format(32, vec![attr(NORMAL, RGBA32_FLOAT, 12)]);
    let other_offset = format(32, vec![attr(NORMAL, RGB32_FLOAT, 16)]);
    assert!(!is_compatible(&have, &other_semantic));
    assert!(!is_compatible(&have, &other_format));
    assert!(!is_compatible(&have, &other_offset));
}

#[test]
fn wanted_attributes_are_looked_for_in_their_order() {
    let have = pos_norm_tex();
    // The same attributes as a compatible format, listed backwards: the
    // search for the second starts where the first was found.
    let backwards = format(32, vec![attr(NORMAL, RGB32_FLOAT, 12), attr(POSITION, RGB32_FLOAT, 0)]);
    assert!(!is_compatible(&have, &backwards));
}

#[test]
fn search_goes_on_at_the_position_found() {
    // The window for the next attribute starts at the match, not behind it,
    // so a wanted attribute that is listed twice is found twice.
    let have = format(12, vec![attr(POSITION, RGB32_FLOAT, 0)]);
    let twice = format(12, vec![attr(POSITION, RGB32_FLOAT, 0), attr(POSITION, RGB32_FLOAT, 0)]);
    assert!(is_compatible(&have, &twice));
}

#[test]
fn shared_offsets_defeat_the_forward_scan() {
    // Two attributes at one offset make a format that is not well formed;
    // of such formats one can hold all attributes of the other and still
    // not serve it.
    let a = attr(POSITION, RGB32_FLOAT, 0);
    let b = attr(COLOR, RGB32_FLOAT, 0);
    let have = format(12, vec![a, b]);
    let want = format(12, vec![b, a]);
    assert!(!have.is_well_formed());
    assert!(!is_compatible(&have, &want));
}
