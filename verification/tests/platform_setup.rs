use point_glass_opengl::gl_loader::{needs_library_lookup, symbol_lookup_order, SymbolSource};
use point_glass_opengl::vertex_layout::{
    color_vertex_layout, point_vertex_layout, VertexAttribute, FLOATS_PER_COLOR_VERTEX,
    FLOATS_PER_POINT,
};
use point_glass_opengl::wgl::{choose_context, context_attributes, pixel_format_descriptor};

#[test]
fn linux_lookup_order() {
    assert_eq!(
        symbol_lookup_order(true, true),
        vec![SymbolSource::LibGl, SymbolSource::LibEgl, SymbolSource::Process]
    );
    assert_eq!(symbol_lookup_order(false, true), vec![SymbolSource::LibEgl, SymbolSource::Process]);
    assert_eq!(symbol_lookup_order(true, false), vec![SymbolSource::LibGl, SymbolSource::Process]);
    assert_eq!(symbol_lookup_order(false, false), vec![SymbolSource::Process]);
}

#[test]
fn windows_fallback_for_unserved_addresses() {
    for a in [0usize, 1, 2, 3, usize::MAX] {
        assert!(needs_library_lookup(a, 7));
        assert!(!needs_library_lookup(a, 0));
    }
    assert!(!needs_library_lookup(4, 7));
    assert!(!needs_library_lookup(0x7ff0_1234, 7));
}

#[test]
fn pixel_format_descriptor_bytes() {
    let pfd = pixel_format_descriptor();
    assert_eq!(pfd.len(), 40);
    let mut expected = [0u8; 40];
    expected[0] = 40;
    expected[2] = 1;
    expected[4] = 0x25;
    expected[9] = 32;
    expected[23] = 24;
    assert_eq!(pfd, expected.to_vec());
}

#[test]
fn core_profile_attributes() {
    assert_eq!(context_attributes(), vec![0x2091, 3, 0x2092, 3, 0x9126, 2, 0]);
}

#[test]
fn core_context_preferred() {
    assert_eq!(choose_context(11, 22), 22);
    assert_eq!(choose_context(11, 0), 11);
}

#[test]
fn vertex_layouts() {
    let p = point_vertex_layout();
    assert_eq!(p.stride_bytes, 16);
    assert_eq!(p.position, VertexAttribute { location: 0, components: 3, offset_bytes: 0 });
    assert_eq!(p.attribute, VertexAttribute { location: 1, components: 1, offset_bytes: 12 });
    let c = color_vertex_layout();
    assert_eq!(c.stride_bytes, 32);
    assert_eq!(c.attribute, VertexAttribute { location: 1, components: 4, offset_bytes: 12 });
    assert_eq!(c.size, Some(VertexAttribute { location: 2, components: 1, offset_bytes: 28 }));
    assert_eq!(p.size, None);
    assert_eq!(p.stride_bytes as usize / 4, FLOATS_PER_POINT);
    assert_eq!(c.stride_bytes as usize / 4, FLOATS_PER_COLOR_VERTEX);
}
