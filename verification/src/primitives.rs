//! The frame compositor and its drawing primitives, over an explicit
//! drawing-surface model.
//!
//! A [`Surface`] is the visible target: it holds the last complete frame
//! that was committed to it. Drawing never touches a `Surface` directly;
//! it goes through a [`DrawFrameData`] session, the off-screen composition
//! context. Closing the session commits the whole off-screen frame onto the
//! target in one step, so no partially drawn frame is ever visible, and
//! consuming the session by value releases it exactly once. Style bindings
//! follow the same scoped discipline: selecting a pen or brush hands back
//! the binding it replaced, and the close operation restores it.

use vstd::prelude::*;

verus! {

/// A solid line style: colour and stroke width.
#[derive(Clone, Copy, Debug, PartialEq, Eq, Structural)]
pub struct PenStyle {
    /// Packed colour of the stroke.
    pub color: u32,
    /// Stroke width in pixels.
    pub width: i32,
}

/// One primitive drawing operation recorded into an off-screen frame.
#[derive(Clone, Copy, Debug, PartialEq, Eq, Structural)]
pub enum DrawCmd {
    /// A straight segment from one point to another, in the pen style that
    /// was bound when it was issued.
    Line { x1: i32, y1: i32, x2: i32, y2: i32, pen: PenStyle },
    /// A filled ellipse inscribed in the given rectangle, in the brush
    /// colour that was bound when it was issued.
    Ellipse { left: i32, top: i32, right: i32, bottom: i32, brush: u32 },
    /// A rectangle filled with a one-off solid colour.
    FillRect { left: i32, top: i32, right: i32, bottom: i32, color: u32 },
}

/// A rectangular region of a surface.
#[derive(Clone, Copy, Debug, PartialEq, Eq, Structural)]
pub struct Rect {
    /// Left edge.
    pub left: i32,
    /// Top edge.
    pub top: i32,
    /// Right edge.
    pub right: i32,
    /// Bottom edge.
    pub bottom: i32,
}

/// The visible drawing surface: its size and the last frame committed to it.
#[derive(Clone, Debug, PartialEq, Eq)]
pub struct Surface {
    /// Width in pixels.
    pub width: i32,
    /// Height in pixels.
    pub height: i32,
    /// The primitives of the last complete frame committed to this surface.
    pub frame: Vec<DrawCmd>,
}

impl Surface {
    /// A fresh surface with an empty frame.
    pub fn new(width: i32, height: i32) -> (s: Surface)
        ensures
            s.width == width,
            s.height == height,
            s.frame@ == Seq::<DrawCmd>::empty(),
    {
        Surface { width, height, frame: Vec::new() }
    }
}

/// The colour of the pen a fresh off-screen surface starts with.
pub const DEFAULT_PEN_COLOR: u32 = 0;

/// The stroke width of the pen a fresh off-screen surface starts with.
pub const DEFAULT_PEN_WIDTH: i32 = 1;

/// The brush colour a fresh off-screen surface starts with.
pub const DEFAULT_BRUSH: u32 = 0xFFFFFF;

/// An open frame-composition session: the off-screen surface all drawing
/// lands on until the session is closed onto its target.
#[derive(Clone, Debug, PartialEq, Eq)]
pub struct DrawFrameData {
    /// Width of the off-screen surface in pixels.
    pub width: i32,
    /// Height of the off-screen surface in pixels.
    pub height: i32,
    /// The primitives drawn so far in this session, in order.
    pub cmds: Vec<DrawCmd>,
    /// The currently bound pen style.
    pub pen: PenStyle,
    /// The currently bound brush colour.
    pub brush: u32,
}

/// A scoped pen binding: the pen that was selected and the pen it replaced,
/// which the matching close restores.
#[derive(Clone, Copy, Debug, PartialEq, Eq, Structural)]
pub struct SolidPenData {
    /// The pen this binding selected.
    pub pen: PenStyle,
    /// The pen that was bound before, to be restored on close.
    pub old_pen: PenStyle,
}

/// Opens a clean off-screen composition session of the given size,
/// compatible with the target surface. Nothing has been drawn on it yet and
/// its styles are the defaults.
pub fn open_draw_frame(surface: &Surface, width: i32, height: i32) -> (data: DrawFrameData)
    ensures
        data.width == width,
        data.height == height,
        data.cmds@ == Seq::<DrawCmd>::empty(),
        data.pen == (PenStyle { color: DEFAULT_PEN_COLOR, width: DEFAULT_PEN_WIDTH }),
        data.brush == DEFAULT_BRUSH,
{
    let _ = surface;
    DrawFrameData {
        width,
        height,
        cmds: Vec::new(),
        pen: PenStyle { color: DEFAULT_PEN_COLOR, width: DEFAULT_PEN_WIDTH },
        brush: DEFAULT_BRUSH,
    }
}

/// Commits the session: the whole off-screen frame replaces the target's
/// visible frame in one step, and the session is consumed, releasing the
/// off-screen surface. This is the sole point at which drawing becomes
/// visible.
pub fn close_draw_frame(surface: &mut Surface, width: i32, height: i32, draw_frame_data: DrawFrameData)
    ensures
        final(surface).width == old(surface).width,
        final(surface).height == old(surface).height,
        final(surface).frame@ == draw_frame_data.cmds@,
{
    let _ = width;
    let _ = height;
    surface.frame = draw_frame_data.cmds;
}

/// Binds a solid pen of the given colour and stroke width 2 for subsequent
/// line drawing, handing back the binding it replaced.
pub fn create_solid_pen(data: &mut DrawFrameData, color: u32) -> (pen_data: SolidPenData)
    ensures
        final(data).pen == (PenStyle { color, width: 2 }),
        pen_data.pen == (PenStyle { color, width: 2 }),
        pen_data.old_pen == old(data).pen,
        final(data).cmds@ == old(data).cmds@,
        final(data).brush == old(data).brush,
        final(data).width == old(data).width,
        final(data).height == old(data).height,
{
    let old_pen: PenStyle = data.pen;
    let pen = PenStyle { color, width: 2 };
    data.pen = pen;
    SolidPenData { pen, old_pen }
}

/// Unbinds the pen selected by [`create_solid_pen`], restoring the pen it
/// replaced and destroying the created style; the binding is consumed, so
/// it is released exactly once.
pub fn close_draw_lines(data: &mut DrawFrameData, pen_data: SolidPenData)
    ensures
        final(data).pen == pen_data.old_pen,
        final(data).cmds@ == old(data).cmds@,
        final(data).brush == old(data).brush,
        final(data).width == old(data).width,
        final(data).height == old(data).height,
{
    data.pen = pen_data.old_pen;
}

/// Draws a straight segment in the currently bound pen style.
pub fn draw_line(data: &mut DrawFrameData, from: (i32, i32), to: (i32, i32))
    ensures
        final(data).cmds@ == old(data).cmds@.push(DrawCmd::Line {
            x1: from.0, y1: from.1, x2: to.0, y2: to.1, pen: old(data).pen,
        }),
        final(data).pen == old(data).pen,
        final(data).brush == old(data).brush,
        final(data).width == old(data).width,
        final(data).height == old(data).height,
{
    let cmd = DrawCmd::Line { x1: from.0, y1: from.1, x2: to.0, y2: to.1, pen: data.pen };
    data.cmds.push(cmd);
}

/// Binds a solid brush of the given colour for subsequent filled drawing,
/// returning the new brush and the brush it replaced.
pub fn change_solid_brush(data: &mut DrawFrameData, color: u32) -> (brushes: (u32, u32))
    ensures
        final(data).brush == color,
        brushes.0 == color,
        brushes.1 == old(data).brush,
        final(data).cmds@ == old(data).cmds@,
        final(data).pen == old(data).pen,
        final(data).width == old(data).width,
        final(data).height == old(data).height,
{
    let old_brush: u32 = data.brush;
    data.brush = color;
    (color, old_brush)
}

/// Restores the brush binding that [`change_solid_brush`] replaced and
/// destroys the brush it created.
pub fn revert_brush(data: &mut DrawFrameData, brush: u32, old_brush: u32)
    ensures
        final(data).brush == old_brush,
        final(data).cmds@ == old(data).cmds@,
        final(data).pen == old(data).pen,
        final(data).width == old(data).width,
        final(data).height == old(data).height,
{
    let _ = brush;
    data.brush = old_brush;
}

/// Draws a filled circle around a centre point in the currently bound
/// brush: the ellipse inscribed in the square of the given radius.
pub fn draw_circle(data: &mut DrawFrameData, x: i32, y: i32, radius: i32)
    requires
        i32::MIN <= x - radius <= i32::MAX,
        i32::MIN <= x + radius <= i32::MAX,
        i32::MIN <= y - radius <= i32::MAX,
        i32::MIN <= y + radius <= i32::MAX,
    ensures
        final(data).cmds@ == old(data).cmds@.push(DrawCmd::Ellipse {
            left: (x - radius) as i32,
            top: (y - radius) as i32,
            right: (x + radius) as i32,
            bottom: (y + radius) as i32,
            brush: old(data).brush,
        }),
        final(data).pen == old(data).pen,
        final(data).brush == old(data).brush,
        final(data).width == old(data).width,
        final(data).height == old(data).height,
{
    let left: i32 = x - radius;
    let top: i32 = y - radius;
    let right: i32 = x + radius;
    let bottom: i32 = y + radius;
    let rect = Rect { left, top, right, bottom };
    let cmd = DrawCmd::Ellipse {
        left: rect.left,
        top: rect.top,
        right: rect.right,
        bottom: rect.bottom,
        brush: data.brush,
    };
    data.cmds.push(cmd);
}

/// Fills the given region with a one-off solid colour, leaving the bound
/// brush untouched: the fill brush is created for this call and destroyed
/// with it.
pub fn draw_fullscreen_rect(data: &mut DrawFrameData, rect: &Rect, color: u32)
    ensures
        final(data).cmds@ == old(data).cmds@.push(DrawCmd::FillRect {
            left: rect.left, top: rect.top, right: rect.right, bottom: rect.bottom, color,
        }),
        final(data).pen == old(data).pen,
        final(data).brush == old(data).brush,
        final(data).width == old(data).width,
        final(data).height == old(data).height,
{
    let cmd = DrawCmd::FillRect {
        left: rect.left,
        top: rect.top,
        right: rect.right,
        bottom: rect.bottom,
        color,
    };
    data.cmds.push(cmd);
}

} // verus!
