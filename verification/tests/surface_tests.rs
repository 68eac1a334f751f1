use desktop_beauty::primitives::{
    change_solid_brush, close_draw_frame, close_draw_lines, create_solid_pen, draw_circle,
    draw_fullscreen_rect, draw_line, open_draw_frame, revert_brush, DrawCmd, PenStyle, Rect,
    Surface, DEFAULT_BRUSH, DEFAULT_PEN_COLOR, DEFAULT_PEN_WIDTH,
};
use desktop_beauty::text::wide_null;

#[test]
fn open_frame_starts_clean_with_default_styles() {
    let surface = Surface::new(800, 600);
    let data = open_draw_frame(&surface, 800, 600);
    assert_eq!(data.width, 800);
    assert_eq!(data.height, 600);
    assert!(data.cmds.is_empty());
    assert_eq!(data.pen, PenStyle { color: DEFAULT_PEN_COLOR, width: DEFAULT_PEN_WIDTH });
    assert_eq!(data.brush, DEFAULT_BRUSH);
}

#[test]
fn frame_commit_is_atomic() {
    let mut surface = Surface::new(800, 600);
    let mut data = open_draw_frame(&surface, 800, 600);
    let pen = create_solid_pen(&mut data, 0xFF0000);
    draw_line(&mut data, (0, 0), (10, 10));
    draw_line(&mut data, (10, 10), (20, 5));
    close_draw_lines(&mut data, pen);
    // Nothing drawn inside the session is visible before the close.
    assert!(surface.frame.is_empty());
    close_draw_frame(&mut surface, 800, 600, data);
    // The close commits the whole off-screen frame in one step.
    assert_eq!(surface.frame.len(), 2);
    assert_eq!(
        surface.frame[0],
        DrawCmd::Line { x1: 0, y1: 0, x2: 10, y2: 10, pen: PenStyle { color: 0xFF0000, width: 2 } }
    );
}

#[test]
fn closing_again_replaces_the_previous_frame() {
    let mut surface = Surface::new(100, 100);
    let mut first = open_draw_frame(&surface, 100, 100);
    draw_line(&mut first, (1, 1), (2, 2));
    close_draw_frame(&mut surface, 100, 100, first);
    assert_eq!(surface.frame.len(), 1);
    let second = open_draw_frame(&surface, 100, 100);
    close_draw_frame(&mut surface, 100, 100, second);
    // An empty session commits an empty frame: pixel-for-pixel replacement.
    assert!(surface.frame.is_empty());
}

#[test]
fn pen_binding_restores_what_it_replaced() {
    let surface = Surface::new(64, 64);
    let mut data = open_draw_frame(&surface, 64, 64);
    let before = data.pen;
    let pen = create_solid_pen(&mut data, 0x00FF00);
    assert_eq!(data.pen, PenStyle { color: 0x00FF00, width: 2 });
    assert_eq!(pen.old_pen, before);
    close_draw_lines(&mut data, pen);
    assert_eq!(data.pen, before);
}

#[test]
fn brush_binding_restores_what_it_replaced() {
    let surface = Surface::new(64, 64);
    let mut data = open_draw_frame(&surface, 64, 64);
    let (brush, old_brush) = change_solid_brush(&mut data, 0x123456);
    assert_eq!(brush, 0x123456);
    assert_eq!(old_brush, DEFAULT_BRUSH);
    assert_eq!(data.brush, 0x123456);
    revert_brush(&mut data, brush, old_brush);
    assert_eq!(data.brush, DEFAULT_BRUSH);
}

#[test]
fn circle_records_its_bounding_rectangle() {
    let surface = Surface::new(64, 64);
    let mut data = open_draw_frame(&surface, 64, 64);
    let (brush, old_brush) = change_solid_brush(&mut data, 0xABCDEF);
    draw_circle(&mut data, 10, 20, 5);
    revert_brush(&mut data, brush, old_brush);
    assert_eq!(
        data.cmds,
        vec![DrawCmd::Ellipse { left: 5, top: 15, right: 15, bottom: 25, brush: 0xABCDEF }]
    );
}

#[test]
fn fullscreen_rect_uses_a_one_off_colour() {
    let surface = Surface::new(64, 64);
    let mut data = open_draw_frame(&surface, 64, 64);
    let rect = Rect { left: 0, top: 0, right: 64, bottom: 64 };
    draw_fullscreen_rect(&mut data, &rect, 0x101010);
    // The bound brush is untouched by the one-off fill.
    assert_eq!(data.brush, DEFAULT_BRUSH);
    assert_eq!(
        data.cmds,
        vec![DrawCmd::FillRect { left: 0, top: 0, right: 64, bottom: 64, color: 0x101010 }]
    );
}

#[test]
fn wide_null_terminates_ascii() {
    assert_eq!(wide_null("ab"), vec![0x61, 0x62, 0]);
}

#[test]
fn wide_null_of_empty_string_is_just_the_terminator() {
    assert_eq!(wide_null(""), vec![0]);
}

#[test]
fn wide_null_encodes_supplementary_chars_as_surrogate_pairs() {
    // U+10348 encodes as the pair D800 DF48.
    assert_eq!(wide_null("\u{10348}"), vec![0xD800, 0xDF48, 0]);
    // A basic-plane non-ASCII char is one unit.
    assert_eq!(wide_null("\u{4E2D}"), vec![0x4E2D, 0]);
}
