use pge::render::varray::{
    Attribute, VbElements, VbLayout, FALSE, FLOAT, UNSIGNED_BYTE, UNSIGNED_INT,
};

#[test]
fn component_codes_are_the_drivers() {
    assert_eq!(FLOAT, gl::FLOAT);
    assert_eq!(UNSIGNED_INT, gl::UNSIGNED_INT);
    assert_eq!(UNSIGNED_BYTE, gl::UNSIGNED_BYTE);
    assert_eq!(FALSE, gl::FALSE);
}

#[test]
fn component_sizes() {
    assert_eq!(VbElements::get_type_size(FLOAT), 4);
    assert_eq!(VbElements::get_type_size(UNSIGNED_INT), 4);
    assert_eq!(VbElements::get_type_size(UNSIGNED_BYTE), 1);
    assert_eq!(VbElements::get_type_size(0), 0);
    assert_eq!(VbElements::get_type_size(gl::DOUBLE), 0);
    assert_eq!(VbElements::get_type_size(u32::MAX), 0);
}

#[test]
fn element_keeps_its_parts() {
    let e = VbElements::new(FLOAT, 3, 1);
    assert_eq!(e.etype(), FLOAT);
    assert_eq!(e.count(), 3);
    assert_eq!(e.normalized(), 1);
}

#[test]
fn empty_layout() {
    let layout = VbLayout::new();
    assert_eq!(layout.stride(), 0);
    assert!(layout.elements().is_empty());
    assert!(layout.attributes().is_empty());
}

#[test]
fn stride_adds_up() {
    let mut layout = VbLayout::new();
    layout.push_f32(3);
    assert_eq!(layout.stride(), 12);
    layout.push_u8(4);
    assert_eq!(layout.stride(), 16);
    layout.push_u32(2);
    assert_eq!(layout.stride(), 24);
    layout.push_f32(0);
    assert_eq!(layout.stride(), 24);
    let es = layout.elements();
    assert_eq!(es.len(), 4);
    assert_eq!(es[0], VbElements::new(FLOAT, 3, FALSE));
    assert_eq!(es[1], VbElements::new(UNSIGNED_BYTE, 4, FALSE));
    assert_eq!(es[2], VbElements::new(UNSIGNED_INT, 2, FALSE));
    assert_eq!(es[3], VbElements::new(FLOAT, 0, FALSE));
}

#[test]
fn attributes_start_where_the_last_one_ends() {
    let mut layout = VbLayout::new();
    layout.push_f32(3);
    layout.push_u8(4);
    layout.push_u32(2);
    layout.push_f32(2);
    let attr = |index, count, etype, offset| Attribute {
        index,
        count,
        etype,
        normalized: FALSE,
        stride: 32,
        offset,
    };
    assert_eq!(
        layout.attributes(),
        vec![
            attr(0, 3, FLOAT, 0),
            attr(1, 4, UNSIGNED_BYTE, 12),
            attr(2, 2, UNSIGNED_INT, 16),
            attr(3, 2, FLOAT, 24),
        ]
    );
    for a in layout.attributes() {
        let size = a.count as u32 * VbElements::get_type_size(a.etype);
        assert!(a.offset + size <= layout.stride() as u32);
    }
}

#[test]
fn room_runs_out_at_the_limit_of_the_stride() {
    let mut layout = VbLayout::new();
    assert!(layout.has_room(3, 4));
    assert!(!layout.has_room(-1, 4));
    assert!(layout.has_room(i32::MAX / 4, 4));
    assert!(!layout.has_room(i32::MAX / 4 + 1, 4));
    assert!(layout.has_room(i32::MAX, 1));
    layout.push_f32(i32::MAX / 4);
    assert_eq!(layout.stride(), i32::MAX - 3);
    assert!(layout.has_room(3, 1));
    assert!(!layout.has_room(4, 1));
    assert!(!layout.has_room(1, 4));
    assert!(layout.has_room(0, 4));
    layout.push_u8(3);
    assert_eq!(layout.stride(), i32::MAX);
    assert!(!layout.has_room(1, 1));
}
