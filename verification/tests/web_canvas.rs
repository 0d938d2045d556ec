use vibe_gba::web::write_rgba;

#[test]
fn converts_internal_framebuffer_to_canvas_rgba() {
    let framebuffer = [0x0012_3456, 0x00ab_cdef];
    let mut out = [0; 8];

    write_rgba(&framebuffer, &mut out);

    assert_eq!(out, [0x12, 0x34, 0x56, 0xff, 0xab, 0xcd, 0xef, 0xff]);
}
