//! The drawing session: the two pixel surfaces, the active tool, and the four
//! event handlers that drive them.
//!
//! Each handler mutates the session and returns the list of drawing
//! primitives the host renderer must replay, in order, on its two drawable
//! surfaces.  Pixel-addressed work (the flood fill, crop capture and
//! stamping, overlay clears) is applied to the session's own surfaces as
//! well, so its outcome is part of each handler's contract.

use crate::buffer::RasterBuffer;
use crate::buffer::Snapshot;
use crate::color::from_str_matches;
use crate::color::Color;
use crate::text::dec_str;
use crate::text::TextData;
use vstd::prelude::*;

verus! {

/// The lesser of two coordinates.
pub open spec fn lesser(a: int, b: int) -> int {
    if a < b {
        a
    } else {
        b
    }
}

/// The absolute difference of two coordinates.
pub open spec fn abs_diff(a: int, b: int) -> int {
    if a >= b {
        a - b
    } else {
        b - a
    }
}

/// The squared Euclidean distance between two points.
pub open spec fn dist_sq(x1: int, y1: int, x2: int, y2: int) -> int {
    (x2 - x1) * (x2 - x1) + (y2 - y1) * (y2 - y1)
}

/// `top` shows `snap` stamped at `(x, y)` over a fully transparent surface.
pub open spec fn stamped_on_blank(top: RasterBuffer, snap: Snapshot, x: int, y: int) -> bool {
    forall|px: int, py: int|
        0 <= px < top.width && 0 <= py < top.height ==> top.pixel_at(px, py) == (if x <= px < x
            + snap.width && y <= py < y + snap.height {
            snap.pixel_at(px - x, py - y)
        } else {
            (0u8, 0u8, 0u8, 0u8)
        })
}

/// `now` is `before` with `snap` stamped at `(x, y)`, clipped to the surface.
pub open spec fn stamped_over(
    before: RasterBuffer,
    now: RasterBuffer,
    snap: Snapshot,
    x: int,
    y: int,
) -> bool {
    forall|px: int, py: int|
        0 <= px < before.width && 0 <= py < before.height ==> now.pixel_at(px, py) == (if x <= px
            < x + snap.width && y <= py < y + snap.height {
            snap.pixel_at(px - x, py - y)
        } else {
            before.pixel_at(px, py)
        })
}

/// The corner coordinate of a dragged rectangle: the lesser of the drag's
/// start and end coordinate.
pub fn define_postition(line_start: i32, offset: i32) -> (r: i32)
    ensures
        r == lesser(line_start as int, offset as int),
{
    if line_start < offset {
        line_start
    } else {
        offset
    }
}

/// The extent of a dragged rectangle: the absolute difference of the drag's
/// start and end coordinate.
pub fn define_distance(line_start: i32, offset: i32) -> (r: u32)
    ensures
        r == abs_diff(line_start as int, offset as int),
{
    let a: i64 = line_start as i64;
    let b: i64 = offset as i64;
    if a >= b {
        (a - b) as u32
    } else {
        (b - a) as u32
    }
}

/// The squared distance between two points; the host renderer takes the
/// square root when it draws the circle whose radius this is.
pub fn two_point_distance_sq(x1: i32, y1: i32, x2: i32, y2: i32) -> (d: u128)
    ensures
        d == dist_sq(x1 as int, y1 as int, x2 as int, y2 as int),
{
    let dx: i128 = (x2 as i128) - (x1 as i128);
    let dy: i128 = (y2 as i128) - (y1 as i128);
    proof {
        assert(0 <= dx * dx < 0x20000000000000000) by (nonlinear_arith)
            requires
                -0x100000000 <= dx <= 0x100000000,
        ;
        assert(0 <= dy * dy < 0x20000000000000000) by (nonlinear_arith)
            requires
                -0x100000000 <= dy <= 0x100000000,
        ;
    }
    ((dx * dx) + (dy * dy)) as u128
}

/// Whether two strings spell the same characters.
fn str_eq(a: &str, b: &str) -> (r: bool)
    ensures
        r == (a@ == b@),
{
    let s1: String = a.to_owned();
    let s2: String = b.to_owned();
    s1 == s2
}

/// Crop round trip: a snapshot captured from a rectangle of one surface and
/// stamped, unmodified and fully inside, onto a surface shows the captured
/// pixels at the landing rectangle.
pub proof fn lemma_crop_round_trip(
    src: RasterBuffer,
    snap: Snapshot,
    before: RasterBuffer,
    after: RasterBuffer,
    x: int,
    y: int,
    x2: int,
    y2: int,
)
    requires
        forall|j: int, i: int|
            0 <= j < snap.width && 0 <= i < snap.height ==> #[trigger] snap.pixel_at(j, i)
                == src.pixel_at(x + j, y + i),
        stamped_over(before, after, snap, x2, y2),
        0 <= x2,
        0 <= y2,
        x2 + snap.width <= before.width,
        y2 + snap.height <= before.height,
    ensures
        forall|px: int, py: int|
            x2 <= px < x2 + snap.width && y2 <= py < y2 + snap.height ==> #[trigger] after.pixel_at(
                px,
                py,
            ) == src.pixel_at(x + (px - x2), y + (py - y2)),
{
    assert forall|px: int, py: int|
        x2 <= px < x2 + snap.width && y2 <= py < y2 + snap.height implies #[trigger] after.pixel_at(
        px,
        py,
    ) == src.pixel_at(x + (px - x2), y + (py - y2)) by {
        assert(after.pixel_at(px, py) == snap.pixel_at(px - x2, py - y2));
    }
}

/// What a pointer release does when the crop tool is selecting: the dragged
/// rectangle is normalised from the anchor and the release point; if it is
/// non-empty and lies inside the artwork, its pixels are captured, stamped
/// onto the overlay, and cut out of the artwork with the fill color, and the
/// tool moves to its placement half holding the capture; otherwise nothing
/// changes but the dash reset.
pub open spec fn crop_release_post(
    pre: Canvas,
    post: Canvas,
    x: int,
    y: int,
    r: Seq<DrawCmd>,
) -> bool {
    let rx = lesser(pre.line_start_x as int, x);
    let ry = lesser(pre.line_start_y as int, y);
    let rw = abs_diff(pre.line_start_x as int, x);
    let rh = abs_diff(pre.line_start_y as int, y);
    let fits = rw > 0 && rh > 0 && 0 <= rx && 0 <= ry && rx + rw <= pre.width && ry + rh
        <= pre.height;
    &&& (fits ==> {
        &&& post.mode matches CurrentMode::CropPlace(s)
        &&& (post.mode matches CurrentMode::CropPlace(s) ==> {
            &&& s.width == rw
            &&& s.height == rh
            &&& (forall|j: int, i: int|
                0 <= j < rw && 0 <= i < rh ==> s.pixel_at(j, i) == pre.underlying_layer.pixel_at(
                    rx + j,
                    ry + i,
                ))
            &&& stamped_over(pre.top_layer, post.top_layer, s, rx, ry)
            &&& (r[1] matches DrawCmd::PutImage(l, cx, cy, img) && l == Layer::Top && cx == rx
                && cy == ry && img.width == s.width && img.height == s.height && img.data@
                == s.data@)
        })
        &&& (forall|px: int, py: int|
            0 <= px < pre.width && 0 <= py < pre.height ==> post.underlying_layer.pixel_at(px, py)
                == (if rx <= px < rx + rw && ry <= py < ry + rh {
                pre.fill_color.rgba()
            } else {
                pre.underlying_layer.pixel_at(px, py)
            }))
        &&& r.len() == 4
        &&& (r[0] matches DrawCmd::SetLineDash(l, d) && l == Layer::Top && d@.len() == 0)
        &&& (r[2] matches DrawCmd::FillRect(l, fx, fy, fw, fh) && l == Layer::Base && fx == rx
            && fy == ry && fw == rw && fh == rh)
        &&& r[3] == DrawCmd::Stroke(Layer::Top)
    })
    &&& (!fits ==> {
        &&& post.mode is Crop
        &&& post.underlying_layer == pre.underlying_layer
        &&& post.top_layer == pre.top_layer
        &&& r.len() == 2
        &&& (r[0] matches DrawCmd::SetLineDash(l, d) && l == Layer::Top && d@.len() == 0)
        &&& r[1] == DrawCmd::Stroke(Layer::Top)
    })
}

/// The two drawable surfaces of the host renderer.
#[derive(Clone, Copy, Debug, PartialEq, Eq, Structural)]
pub enum Layer {
    /// The persistent surface holding the committed artwork.
    Base,
    /// The transient overlay surface holding live previews.
    Top,
}

/// One drawing primitive for the host renderer, addressed to one surface.
#[derive(Debug, PartialEq, Eq)]
pub enum DrawCmd {
    BeginPath(Layer),
    MoveTo(Layer, i32, i32),
    LineTo(Layer, i32, i32),
    Stroke(Layer),
    /// Clear the whole surface.
    ClearAll(Layer),
    /// Add a rectangle outline to the current path.
    Rect(Layer, i32, i32, u32, u32),
    /// A full circle around the given center; the last field is the square
    /// of its radius.
    Arc(Layer, i32, i32, u128),
    FillRect(Layer, i32, i32, u32, u32),
    FillText(Layer, String, i32, i32),
    PutImage(Layer, i32, i32, Snapshot),
    SetLineDash(Layer, Vec<u32>),
    SetLineWidth(Layer, u32),
    SetStrokeStyle(Layer, String),
    SetFillColor(Layer, Color),
    SetFont(Layer, String),
    /// Copy stroke width and stroke style from the base surface's context
    /// onto the top one's.
    SyncTopStyle,
}

/// The active tool, with any in-progress tool data.
pub enum CurrentMode {
    Default,
    StraightLine,
    Circle,
    Fill,
    Crop,
    CropPlace(Snapshot),
    Text(TextData),
}

/// A drawing session: the committed artwork, the preview overlay, the active
/// tool, and the shared scratch state of the pointer handlers.
pub struct Canvas {
    pub width: u32,
    pub height: u32,
    /// The persistent pixel surface.
    pub underlying_layer: RasterBuffer,
    /// The preview overlay surface.
    pub top_layer: RasterBuffer,
    pub mode: CurrentMode,
    pub current_color: Color,
    /// Whether a pointer drag is in progress.
    pub pressed: bool,
    /// The anchor recorded at drag start, shared by the line, circle and
    /// crop tools.
    pub line_start_x: i32,
    pub line_start_y: i32,
    /// The fill style of the base surface's context.
    pub fill_color: Color,
}

impl Canvas {
    /// Both surfaces cover the session's dimensions, and a captured crop
    /// snapshot is itself well formed.
    pub open spec fn wf(self) -> bool {
        &&& self.underlying_layer.wf()
        &&& self.top_layer.wf()
        &&& self.underlying_layer.width == self.width
        &&& self.underlying_layer.height == self.height
        &&& self.top_layer.width == self.width
        &&& self.top_layer.height == self.height
        &&& (self.mode matches CurrentMode::CropPlace(s) ==> s.wf())
    }

    /// A fresh session: the artwork fully opaque white, the overlay fully
    /// transparent, the freehand tool active, black stroke color, and no
    /// drag in progress.
    pub fn new_canvas(height: u32, width: u32) -> (c: Canvas)
        requires
            width * height * 4 <= usize::MAX,
        ensures
            c.wf(),
            c.width == width,
            c.height == height,
            forall|p: int|
                0 <= p < width * height ==> crate::buffer::pix(c.underlying_layer.data@, p) == (
                255u8,
                255u8,
                255u8,
                255u8,
                ),
            forall|p: int|
                0 <= p < width * height ==> crate::buffer::pix(c.top_layer.data@, p) == (
                0u8,
                0u8,
                0u8,
                0u8,
                ),
            c.mode is Default,
            c.current_color == Color::Black,
            !c.pressed,
            c.line_start_x == 0,
            c.line_start_y == 0,
            c.fill_color == Color::White,
    {
        Canvas {
            width,
            height,
            underlying_layer: RasterBuffer::new_filled(width, height, (255, 255, 255, 255)),
            top_layer: RasterBuffer::new_filled(width, height, (0, 0, 0, 0)),
            mode: CurrentMode::Default,
            current_color: Color::Black,
            pressed: false,
            line_start_x: 0,
            line_start_y: 0,
            fill_color: Color::White,
        }
    }

    /// Activate the straight-line tool, abandoning any drag in progress.
    pub fn set_straight_line(&mut self)
        ensures
            *final(self) == (Canvas {
                mode: CurrentMode::StraightLine,
                pressed: false,
                line_start_x: 0,
                line_start_y: 0,
                ..*old(self)
            }),
    {
        self.mode = CurrentMode::StraightLine;
        self.pressed = false;
        self.line_start_x = 0;
        self.line_start_y = 0;
    }

    /// Activate the circle tool, abandoning any drag in progress.
    pub fn set_circle(&mut self)
        ensures
            *final(self) == (Canvas {
                mode: CurrentMode::Circle,
                pressed: false,
                line_start_x: 0,
                line_start_y: 0,
                ..*old(self)
            }),
    {
        self.mode = CurrentMode::Circle;
        self.pressed = false;
        self.line_start_x = 0;
        self.line_start_y = 0;
    }

    /// Activate the freehand stroke tool, abandoning any drag in progress.
    pub fn set_default_stroke(&mut self)
        ensures
            *final(self) == (Canvas {
                mode: CurrentMode::Default,
                pressed: false,
                line_start_x: 0,
                line_start_y: 0,
                ..*old(self)
            }),
    {
        self.mode = CurrentMode::Default;
        self.pressed = false;
        self.line_start_x = 0;
        self.line_start_y = 0;
    }

    /// Activate the bucket-fill tool, abandoning any drag in progress.
    pub fn set_fill(&mut self)
        ensures
            *final(self) == (Canvas {
                mode: CurrentMode::Fill,
                pressed: false,
                line_start_x: 0,
                line_start_y: 0,
                ..*old(self)
            }),
    {
        self.mode = CurrentMode::Fill;
        self.pressed = false;
        self.line_start_x = 0;
        self.line_start_y = 0;
    }

    /// Activate the crop tool, abandoning any drag in progress and any
    /// captured snapshot.
    pub fn set_crop(&mut self)
        ensures
            *final(self) == (Canvas {
                mode: CurrentMode::Crop,
                pressed: false,
                line_start_x: 0,
                line_start_y: 0,
                ..*old(self)
            }),
    {
        self.mode = CurrentMode::Crop;
        self.pressed = false;
        self.line_start_x = 0;
        self.line_start_y = 0;
    }

    /// Activate the text tool with an empty run in a 48 pixel serif font,
    /// abandoning any drag in progress.  The returned commands set that font
    /// on both surfaces.
    pub fn set_text(&mut self) -> (r: Vec<DrawCmd>)
        ensures
            final(self).width == old(self).width,
            final(self).height == old(self).height,
            final(self).underlying_layer == old(self).underlying_layer,
            final(self).top_layer == old(self).top_layer,
            final(self).current_color == old(self).current_color,
            final(self).fill_color == old(self).fill_color,
            !final(self).pressed,
            final(self).line_start_x == 0,
            final(self).line_start_y == 0,
            final(self).mode matches CurrentMode::Text(t) && t.content@.len() == 0 && t.position == (
            0i32,
            0i32,
            ) && t.font_size == 48 && t.font_type@ == "serif"@,
            r@.len() == 2,
            r@[0] matches DrawCmd::SetFont(l, f) && l == Layer::Top && f@ == dec_str(48) + "px "@
                + "serif"@,
            r@[1] matches DrawCmd::SetFont(l, f) && l == Layer::Base && f@ == dec_str(48) + "px "@
                + "serif"@,
    {
        let text_data = TextData {
            content: String::new(),
            position: (0, 0),
            font_size: 48,
            font_type: "serif".to_owned(),
        };
        let mut r: Vec<DrawCmd> = Vec::new();
        r.push(DrawCmd::SetFont(Layer::Top, text_data.format_font()));
        r.push(DrawCmd::SetFont(Layer::Base, text_data.format_font()));
        self.mode = CurrentMode::Text(text_data);
        self.pressed = false;
        self.line_start_x = 0;
        self.line_start_y = 0;
        r
    }

    /// Record the user's stroke color: the session keeps the parsed color,
    /// and the returned commands hand the raw style string to both surfaces.
    pub fn set_stroke_color(&mut self, color: String) -> (r: Vec<DrawCmd>)
        ensures
            final(self).width == old(self).width,
            final(self).height == old(self).height,
            final(self).underlying_layer == old(self).underlying_layer,
            final(self).top_layer == old(self).top_layer,
            final(self).mode == old(self).mode,
            final(self).pressed == old(self).pressed,
            final(self).line_start_x == old(self).line_start_x,
            final(self).line_start_y == old(self).line_start_y,
            final(self).fill_color == old(self).fill_color,
            from_str_matches(color@, final(self).current_color),
            r@.len() == 2,
            r@[0] matches DrawCmd::SetStrokeStyle(l, s) && l == Layer::Base && s@ == color@,
            r@[1] matches DrawCmd::SetStrokeStyle(l, s) && l == Layer::Top && s@ == color@,
    {
        let mut r: Vec<DrawCmd> = Vec::new();
        r.push(DrawCmd::SetStrokeStyle(Layer::Base, color.clone()));
        r.push(DrawCmd::SetStrokeStyle(Layer::Top, color.clone()));
        self.current_color = Color::from_str(color);
        r
    }

    /// Handle a pointer press at `(x, y)`, dispatching on the active tool:
    /// the stroke tools begin a path and record the drag, the fill tool
    /// floods the artwork at the point, and the placement half of the crop
    /// tool stamps its snapshot onto the overlay.
    pub fn on_press(&mut self, x: i32, y: i32) -> (r: Vec<DrawCmd>)
        requires
            old(self).wf(),
        ensures
            final(self).wf(),
            final(self).width == old(self).width,
            final(self).height == old(self).height,
            final(self).mode == old(self).mode,
            final(self).current_color == old(self).current_color,
            final(self).fill_color == old(self).fill_color,
            old(self).mode is Default ==> {
                &&& final(self).underlying_layer == old(self).underlying_layer
                &&& final(self).top_layer == old(self).top_layer
                &&& final(self).pressed
                &&& final(self).line_start_x == old(self).line_start_x
                &&& final(self).line_start_y == old(self).line_start_y
                &&& r@ =~= seq![
                    DrawCmd::BeginPath(Layer::Base),
                    DrawCmd::MoveTo(Layer::Base, x, y),
                ]
            },
            old(self).mode is StraightLine ==> {
                &&& final(self).underlying_layer == old(self).underlying_layer
                &&& final(self).top_layer == old(self).top_layer
                &&& final(self).pressed
                &&& final(self).line_start_x == x
                &&& final(self).line_start_y == y
                &&& r@ =~= seq![
                    DrawCmd::BeginPath(Layer::Top),
                    DrawCmd::MoveTo(Layer::Top, x, y),
                ]
            },
            old(self).mode is Circle ==> {
                &&& final(self).underlying_layer == old(self).underlying_layer
                &&& final(self).top_layer == old(self).top_layer
                &&& final(self).pressed
                &&& final(self).line_start_x == x
                &&& final(self).line_start_y == y
                &&& r@ =~= seq![DrawCmd::BeginPath(Layer::Top)]
            },
            old(self).mode is Fill ==> {
                &&& final(self).top_layer == old(self).top_layer
                &&& final(self).pressed == old(self).pressed
                &&& final(self).line_start_x == old(self).line_start_x
                &&& final(self).line_start_y == old(self).line_start_y
                &&& (0 <= x < old(self).width && 0 <= y < old(self).height ==> {
                    &&& crate::fill::flood_filled(
                        old(self).underlying_layer.data@,
                        old(self).width as int,
                        old(self).width * old(self).height,
                        y * old(self).width + x,
                        old(self).current_color.rgba(),
                        final(self).underlying_layer.data@,
                    )
                    &&& r@.len() == 1
                    &&& (r@[0] matches DrawCmd::PutImage(l, cx, cy, img) && l == Layer::Base && cx
                        == 0 && cy == 0 && img.width == old(self).width
                        && img.height == old(self).height
                        && img.data@ == final(self).underlying_layer.data@)
                })
                &&& (!(0 <= x < old(self).width && 0 <= y < old(self).height)
                    ==> final(self).underlying_layer == old(self).underlying_layer
                    && r@.len() == 0)
            },
            old(self).mode is Crop ==> {
                &&& final(self).underlying_layer == old(self).underlying_layer
                &&& final(self).top_layer == old(self).top_layer
                &&& final(self).pressed
                &&& final(self).line_start_x == x
                &&& final(self).line_start_y == y
                &&& r@.len() == 4
                &&& r@[0] == DrawCmd::SetLineWidth(Layer::Top, 1u32)
                &&& (r@[1] matches DrawCmd::SetStrokeStyle(l, s) && l == Layer::Top && s@
                    == "black"@)
                &&& (r@[2] matches DrawCmd::SetLineDash(l, d) && l == Layer::Top && d@ =~= seq![
                    6u32,
                ])
                &&& r@[3] == DrawCmd::BeginPath(Layer::Top)
            },
            old(self).mode matches CurrentMode::CropPlace(snap) ==> {
                &&& final(self).underlying_layer == old(self).underlying_layer
                &&& final(self).pressed
                &&& final(self).line_start_x == old(self).line_start_x
                &&& final(self).line_start_y == old(self).line_start_y
                &&& stamped_over(
                    old(self).top_layer,
                    final(self).top_layer,
                    snap,
                    x as int,
                    y as int,
                )
                &&& r@.len() == 2
                &&& r@[0] == DrawCmd::BeginPath(Layer::Top)
                &&& (r@[1] matches DrawCmd::PutImage(l, cx, cy, img) && l == Layer::Top && cx == x
                    && cy == y && img.width == snap.width && img.height == snap.height && img.data@
                    == snap.data@)
            },
            old(self).mode is Text ==> *final(self) == *old(self) && r@.len() == 0,
    {
        let mut r: Vec<DrawCmd> = Vec::new();
        match &self.mode {
            CurrentMode::Default => {
                r.push(DrawCmd::BeginPath(Layer::Base));
                r.push(DrawCmd::MoveTo(Layer::Base, x, y));
                self.pressed = true;
            },
            CurrentMode::StraightLine => {
                r.push(DrawCmd::BeginPath(Layer::Top));
                self.line_start_x = x;
                self.line_start_y = y;
                r.push(DrawCmd::MoveTo(Layer::Top, x, y));
                self.pressed = true;
            },
            CurrentMode::Circle => {
                r.push(DrawCmd::BeginPath(Layer::Top));
                self.line_start_x = x;
                self.line_start_y = y;
                self.pressed = true;
            },
            CurrentMode::Fill => {
                if x >= 0 && y >= 0 && (x as u32) < self.width && (y as u32) < self.height {
                    let _ = crate::fill::fill(
                        &mut self.underlying_layer,
                        x as usize,
                        y as usize,
                        &self.current_color,
                    );
                    r.push(DrawCmd::PutImage(Layer::Base, 0, 0, self.underlying_layer.snapshot()));
                }
            },
            CurrentMode::Crop => {
                r.push(DrawCmd::SetLineWidth(Layer::Top, 1));
                r.push(DrawCmd::SetStrokeStyle(Layer::Top, "black".to_owned()));
                let mut dash: Vec<u32> = Vec::new();
                dash.push(6);
                r.push(DrawCmd::SetLineDash(Layer::Top, dash));
                self.line_start_x = x;
                self.line_start_y = y;
                r.push(DrawCmd::BeginPath(Layer::Top));
                self.pressed = true;
            },
            CurrentMode::CropPlace(snap) => {
                r.push(DrawCmd::BeginPath(Layer::Top));
                let dup = snap.duplicate();
                snap.put_onto(&mut self.top_layer, x, y);
                r.push(DrawCmd::PutImage(Layer::Top, x, y, dup));
                self.pressed = true;
            },
            CurrentMode::Text(_) => {},
        }
        r
    }

    /// Handle a pointer move to `(x, y)`.  Nothing reacts unless a drag is
    /// in progress; the drag tools then redraw their live preview, clearing
    /// the whole overlay first.
    pub fn on_move(&mut self, x: i32, y: i32) -> (r: Vec<DrawCmd>)
        requires
            old(self).wf(),
        ensures
            final(self).wf(),
            final(self).width == old(self).width,
            final(self).height == old(self).height,
            final(self).mode == old(self).mode,
            final(self).current_color == old(self).current_color,
            final(self).fill_color == old(self).fill_color,
            final(self).pressed == old(self).pressed,
            final(self).line_start_x == old(self).line_start_x,
            final(self).line_start_y == old(self).line_start_y,
            final(self).underlying_layer == old(self).underlying_layer,
            !old(self).pressed ==> *final(self) == *old(self) && r@.len() == 0,
            old(self).pressed && old(self).mode is Default ==> {
                &&& final(self).top_layer == old(self).top_layer
                &&& r@ =~= seq![
                    DrawCmd::LineTo(Layer::Base, x, y),
                    DrawCmd::Stroke(Layer::Base),
                    DrawCmd::BeginPath(Layer::Base),
                    DrawCmd::MoveTo(Layer::Base, x, y),
                ]
            },
            old(self).pressed && old(self).mode is StraightLine ==> {
                &&& final(self).top_layer.is_blank()
                &&& r@ =~= seq![
                    DrawCmd::ClearAll(Layer::Top),
                    DrawCmd::LineTo(Layer::Top, x, y),
                    DrawCmd::Stroke(Layer::Top),
                    DrawCmd::BeginPath(Layer::Top),
                    DrawCmd::MoveTo(
                        Layer::Top,
                        old(self).line_start_x,
                        old(self).line_start_y,
                    ),
                ]
            },
            old(self).pressed && old(self).mode is Circle ==> {
                &&& final(self).top_layer.is_blank()
                &&& r@.len() == 4
                &&& r@[0] == DrawCmd::ClearAll(Layer::Top)
                &&& (r@[1] matches DrawCmd::Arc(l, cx, cy, d) && l == Layer::Top && cx == x && cy
                    == y && d == dist_sq(
                    old(self).line_start_x as int,
                    old(self).line_start_y as int,
                    x as int,
                    y as int,
                ))
                &&& r@[2] == DrawCmd::Stroke(Layer::Top)
                &&& r@[3] == DrawCmd::BeginPath(Layer::Top)
            },
            old(self).pressed && old(self).mode is Crop ==> {
                &&& final(self).top_layer.is_blank()
                &&& r@.len() == 4
                &&& r@[0] == DrawCmd::ClearAll(Layer::Top)
                &&& (r@[1] matches DrawCmd::Rect(l, rx, ry, rw, rh) && l == Layer::Top && rx
                    == lesser(old(self).line_start_x as int, x as int) && ry == lesser(
                    old(self).line_start_y as int,
                    y as int,
                ) && rw == abs_diff(old(self).line_start_x as int, x as int) && rh == abs_diff(
                    old(self).line_start_y as int,
                    y as int,
                ))
                &&& r@[2] == DrawCmd::Stroke(Layer::Top)
                &&& r@[3] == DrawCmd::BeginPath(Layer::Top)
            },
            old(self).mode matches CurrentMode::CropPlace(snap) ==> (old(self).pressed ==> {
                &&& stamped_on_blank(final(self).top_layer, snap, x as int, y as int)
                &&& r@.len() == 4
                &&& r@[0] == DrawCmd::ClearAll(Layer::Top)
                &&& r@[1] == DrawCmd::Stroke(Layer::Top)
                &&& (r@[2] matches DrawCmd::PutImage(l, cx, cy, img) && l == Layer::Top && cx == x
                    && cy == y && img.width == snap.width && img.height == snap.height && img.data@
                    == snap.data@)
                &&& r@[3] == DrawCmd::BeginPath(Layer::Top)
            }),
            old(self).pressed && (old(self).mode is Fill || old(self).mode is Text)
                ==> *final(self) == *old(self) && r@.len() == 0,
    {
        let mut r: Vec<DrawCmd> = Vec::new();
        if !self.pressed {
            return r;
        }
        match &self.mode {
            CurrentMode::Default => {
                r.push(DrawCmd::LineTo(Layer::Base, x, y));
                r.push(DrawCmd::Stroke(Layer::Base));
                r.push(DrawCmd::BeginPath(Layer::Base));
                r.push(DrawCmd::MoveTo(Layer::Base, x, y));
            },
            CurrentMode::StraightLine => {
                r.push(DrawCmd::ClearAll(Layer::Top));
                self.top_layer.clear();
                r.push(DrawCmd::LineTo(Layer::Top, x, y));
                r.push(DrawCmd::Stroke(Layer::Top));
                r.push(DrawCmd::BeginPath(Layer::Top));
                r.push(DrawCmd::MoveTo(Layer::Top, self.line_start_x, self.line_start_y));
            },
            CurrentMode::Circle => {
                r.push(DrawCmd::ClearAll(Layer::Top));
                self.top_layer.clear();
                let d: u128 = two_point_distance_sq(self.line_start_x, self.line_start_y, x, y);
                r.push(DrawCmd::Arc(Layer::Top, x, y, d));
                r.push(DrawCmd::Stroke(Layer::Top));
                r.push(DrawCmd::BeginPath(Layer::Top));
            },
            CurrentMode::Crop => {
                r.push(DrawCmd::ClearAll(Layer::Top));
                self.top_layer.clear();
                let rx: i32 = define_postition(self.line_start_x, x);
                let ry: i32 = define_postition(self.line_start_y, y);
                let rw: u32 = define_distance(self.line_start_x, x);
                let rh: u32 = define_distance(self.line_start_y, y);
                r.push(DrawCmd::Rect(Layer::Top, rx, ry, rw, rh));
                r.push(DrawCmd::Stroke(Layer::Top));
                r.push(DrawCmd::BeginPath(Layer::Top));
            },
            CurrentMode::CropPlace(snap) => {
                r.push(DrawCmd::ClearAll(Layer::Top));
                self.top_layer.clear();
                r.push(DrawCmd::Stroke(Layer::Top));
                let ghost cleared = self.top_layer;
                let dup = snap.duplicate();
                snap.put_onto(&mut self.top_layer, x, y);
                r.push(DrawCmd::PutImage(Layer::Top, x, y, dup));
                r.push(DrawCmd::BeginPath(Layer::Top));
                proof {
                    assert forall|px: int, py: int|
                        0 <= px < self.top_layer.width && 0 <= py < self.top_layer.height && !(
                        x <= px < x + snap.width && y <= py < y + snap.height) implies
                        self.top_layer.pixel_at(px, py) == (0u8, 0u8, 0u8, 0u8) by {
                        crate::buffer::lemma_blank_pixels(cleared, px, py);
                    }
                }
            },
            CurrentMode::Fill => {},
            CurrentMode::Text(_) => {},
        }
        r
    }

    /// Handle a pointer release at `(x, y)`, ending any drag: the stroke
    /// tools commit their shape to the artwork, the crop tool captures the
    /// dragged rectangle and cuts it out of the artwork, its placement half
    /// commits the held snapshot, and the text tool moves its anchor.
    pub fn on_release(&mut self, x: i32, y: i32) -> (r: Vec<DrawCmd>)
        requires
            old(self).wf(),
        ensures
            final(self).wf(),
            final(self).width == old(self).width,
            final(self).height == old(self).height,
            final(self).current_color == old(self).current_color,
            final(self).fill_color == old(self).fill_color,
            final(self).line_start_x == old(self).line_start_x,
            final(self).line_start_y == old(self).line_start_y,
            !final(self).pressed,
            old(self).mode is Default ==> {
                &&& final(self).mode == old(self).mode
                &&& final(self).underlying_layer == old(self).underlying_layer
                &&& final(self).top_layer == old(self).top_layer
                &&& r@ =~= seq![DrawCmd::LineTo(Layer::Base, x, y), DrawCmd::Stroke(Layer::Base)]
            },
            old(self).mode is StraightLine ==> {
                &&& final(self).mode == old(self).mode
                &&& final(self).underlying_layer == old(self).underlying_layer
                &&& final(self).top_layer.is_blank()
                &&& r@ =~= seq![
                    DrawCmd::BeginPath(Layer::Base),
                    DrawCmd::MoveTo(
                        Layer::Base,
                        old(self).line_start_x,
                        old(self).line_start_y,
                    ),
                    DrawCmd::LineTo(Layer::Base, x, y),
                    DrawCmd::Stroke(Layer::Base),
                    DrawCmd::ClearAll(Layer::Top),
                ]
            },
            old(self).mode is Circle ==> {
                &&& final(self).mode == old(self).mode
                &&& final(self).underlying_layer == old(self).underlying_layer
                &&& final(self).top_layer.is_blank()
                &&& r@.len() == 4
                &&& r@[0] == DrawCmd::BeginPath(Layer::Base)
                &&& (r@[1] matches DrawCmd::Arc(l, cx, cy, d) && l == Layer::Base && cx == x && cy
                    == y && d == dist_sq(
                    old(self).line_start_x as int,
                    old(self).line_start_y as int,
                    x as int,
                    y as int,
                ))
                &&& r@[2] == DrawCmd::Stroke(Layer::Base)
                &&& r@[3] == DrawCmd::ClearAll(Layer::Top)
            },
            old(self).mode is Fill ==> {
                &&& final(self).mode == old(self).mode
                &&& final(self).underlying_layer == old(self).underlying_layer
                &&& final(self).top_layer == old(self).top_layer
                &&& r@.len() == 0
            },
            old(self).mode is Crop ==> crop_release_post(
                *old(self),
                *final(self),
                x as int,
                y as int,
                r@,
            ),
            old(self).mode matches CurrentMode::CropPlace(snap) ==> {
                &&& final(self).mode is Crop
                &&& stamped_over(
                    old(self).underlying_layer,
                    final(self).underlying_layer,
                    snap,
                    x as int,
                    y as int,
                )
                &&& final(self).top_layer.is_blank()
                &&& r@.len() == 4
                &&& r@[0] == DrawCmd::Stroke(Layer::Top)
                &&& (r@[1] matches DrawCmd::PutImage(l, cx, cy, img) && l == Layer::Base && cx == x
                    && cy == y && img.width == snap.width && img.height == snap.height && img.data@
                    == snap.data@)
                &&& r@[2] == DrawCmd::SyncTopStyle
                &&& r@[3] == DrawCmd::ClearAll(Layer::Top)
            },
            old(self).mode matches CurrentMode::Text(t) ==> {
                &&& final(self).underlying_layer == old(self).underlying_layer
                &&& final(self).top_layer == old(self).top_layer
                &&& (final(self).mode matches CurrentMode::Text(t2) && t2.content@ == t.content@
                    && t2.position == (x, y) && t2.font_size == t.font_size && t2.font_type@
                    == t.font_type@)
                &&& r@.len() == 0
            },
    {
        let mut r: Vec<DrawCmd> = Vec::new();
        self.pressed = false;
        match &self.mode {
            CurrentMode::Default => {
                r.push(DrawCmd::LineTo(Layer::Base, x, y));
                r.push(DrawCmd::Stroke(Layer::Base));
            },
            CurrentMode::StraightLine => {
                r.push(DrawCmd::BeginPath(Layer::Base));
                r.push(DrawCmd::MoveTo(Layer::Base, self.line_start_x, self.line_start_y));
                r.push(DrawCmd::LineTo(Layer::Base, x, y));
                r.push(DrawCmd::Stroke(Layer::Base));
                self.top_layer.clear();
                r.push(DrawCmd::ClearAll(Layer::Top));
            },
            CurrentMode::Circle => {
                r.push(DrawCmd::BeginPath(Layer::Base));
                let d: u128 = two_point_distance_sq(self.line_start_x, self.line_start_y, x, y);
                r.push(DrawCmd::Arc(Layer::Base, x, y, d));
                r.push(DrawCmd::Stroke(Layer::Base));
                self.top_layer.clear();
                r.push(DrawCmd::ClearAll(Layer::Top));
            },
            CurrentMode::Crop => {
                let empty_dash: Vec<u32> = Vec::new();
                r.push(DrawCmd::SetLineDash(Layer::Top, empty_dash));
                let rx: i32 = define_postition(self.line_start_x, x);
                let ry: i32 = define_postition(self.line_start_y, y);
                let rw: u32 = define_distance(self.line_start_x, x);
                let rh: u32 = define_distance(self.line_start_y, y);
                let image = crate::buffer::get_content_inside_rect(
                    &self.underlying_layer,
                    rx,
                    ry,
                    rw,
                    rh,
                );
                match image {
                    Ok(snap) => {
                        let dup = snap.duplicate();
                        snap.put_onto(&mut self.top_layer, rx, ry);
                        r.push(DrawCmd::PutImage(Layer::Top, rx, ry, dup));
                        self.underlying_layer.fill_rect(
                            rx as u32,
                            ry as u32,
                            rw,
                            rh,
                            self.fill_color.value(),
                        );
                        r.push(DrawCmd::FillRect(Layer::Base, rx, ry, rw, rh));
                        self.mode = CurrentMode::CropPlace(snap);
                    },
                    Err(_) => {},
                }
                r.push(DrawCmd::Stroke(Layer::Top));
            },
            CurrentMode::CropPlace(snap) => {
                r.push(DrawCmd::Stroke(Layer::Top));
                let dup = snap.duplicate();
                snap.put_onto(&mut self.underlying_layer, x, y);
                r.push(DrawCmd::PutImage(Layer::Base, x, y, dup));
                r.push(DrawCmd::SyncTopStyle);
                self.mode = CurrentMode::Crop;
                self.top_layer.clear();
                r.push(DrawCmd::ClearAll(Layer::Top));
            },
            CurrentMode::Text(t) => {
                let t2 = TextData {
                    content: t.content.clone(),
                    position: (x, y),
                    font_size: t.font_size,
                    font_type: t.font_type.clone(),
                };
                self.mode = CurrentMode::Text(t2);
            },
            CurrentMode::Fill => {},
        }
        r
    }

    /// Handle a key press.  Only the text tool reacts: Enter commits the
    /// accumulated run to the artwork and empties it, Backspace drops the
    /// last character, and a single letter, digit or space is appended; any
    /// other key changes nothing.  Each reaction redraws the pending run on
    /// a cleared overlay.
    pub fn on_key_down(&mut self, key: &str) -> (r: Vec<DrawCmd>)
        requires
            old(self).wf(),
        ensures
            final(self).wf(),
            final(self).width == old(self).width,
            final(self).height == old(self).height,
            final(self).current_color == old(self).current_color,
            final(self).pressed == old(self).pressed,
            final(self).line_start_x == old(self).line_start_x,
            final(self).line_start_y == old(self).line_start_y,
            final(self).underlying_layer == old(self).underlying_layer,
            !(old(self).mode is Text) ==> *final(self) == *old(self) && r@.len() == 0,
            old(self).mode matches CurrentMode::Text(t) ==> {
                &&& r@.len() >= 1
                &&& r@[0] == DrawCmd::SetFillColor(Layer::Top, old(self).current_color)
                &&& (key@ == "Enter"@ ==> {
                    &&& r@.len() == 5
                    &&& r@[1] == DrawCmd::ClearAll(Layer::Top)
                    &&& r@[2] == DrawCmd::SetFillColor(Layer::Base, old(self).current_color)
                    &&& (r@[3] matches DrawCmd::FillText(l, s, tx, ty) && l == Layer::Base && s@
                        == t.content@ && tx == t.position.0 && ty == t.position.1)
                    &&& r@[4] == DrawCmd::SetFillColor(Layer::Base, Color::White)
                    &&& final(self).top_layer.is_blank()
                    &&& (final(self).mode matches CurrentMode::Text(t2) && t2.content@.len() == 0
                        && t2.position == t.position && t2.font_size == t.font_size
                        && t2.font_type@ == t.font_type@)
                    &&& final(self).fill_color == Color::White
                })
                &&& (key@ == "Backspace"@ ==> {
                    &&& r@.len() == 3
                    &&& r@[1] == DrawCmd::ClearAll(Layer::Top)
                    &&& (r@[2] matches DrawCmd::FillText(l, s, tx, ty) && l == Layer::Top && s@
                        == (if t.content@.len() > 0 {
                        t.content@.drop_last()
                    } else {
                        t.content@
                    }) && tx == t.position.0 && ty == t.position.1)
                    &&& final(self).top_layer.is_blank()
                    &&& (final(self).mode matches CurrentMode::Text(t2) && t2.content@ == (if
                    t.content@.len() > 0 {
                        t.content@.drop_last()
                    } else {
                        t.content@
                    }) && t2.position == t.position && t2.font_size == t.font_size
                        && t2.font_type@ == t.font_type@)
                    &&& final(self).fill_color == old(self).fill_color
                })
                &&& (key@ != "Enter"@ && key@ != "Backspace"@ ==> {
                    &&& final(self).fill_color == old(self).fill_color
                    &&& (key@.len() == 1 && crate::text::is_text_char(key@[0]) ==> {
                        &&& r@.len() == 3
                        &&& r@[1] == DrawCmd::ClearAll(Layer::Top)
                        &&& (r@[2] matches DrawCmd::FillText(l, s, tx, ty) && l == Layer::Top
                            && s@ == t.content@ + key@ && tx == t.position.0 && ty
                            == t.position.1)
                        &&& final(self).top_layer.is_blank()
                        &&& (final(self).mode matches CurrentMode::Text(t2) && t2.content@
                            == t.content@ + key@ && t2.position == t.position && t2.font_size
                            == t.font_size && t2.font_type@ == t.font_type@)
                    })
                    &&& (!(key@.len() == 1 && crate::text::is_text_char(key@[0])) ==> {
                        &&& r@.len() == 1
                        &&& final(self).mode == old(self).mode
                        &&& final(self).top_layer == old(self).top_layer
                    })
                })
            },
    {
        let mut r: Vec<DrawCmd> = Vec::new();
        match &self.mode {
            CurrentMode::Text(t) => {
                r.push(DrawCmd::SetFillColor(Layer::Top, self.current_color));
                if str_eq(key, "Enter") {
                    proof {
                        reveal_strlit("Enter");
                        reveal_strlit("Backspace");
                        assert("Enter"@.len() == 5);
                        assert("Backspace"@.len() == 9);
                    }
                    r.push(DrawCmd::ClearAll(Layer::Top));
                    r.push(DrawCmd::SetFillColor(Layer::Base, self.current_color));
                    r.push(
                        DrawCmd::FillText(
                            Layer::Base,
                            t.content.clone(),
                            t.position.0,
                            t.position.1,
                        ),
                    );
                    r.push(DrawCmd::SetFillColor(Layer::Base, Color::White));
                    let t2 = t.append(String::new());
                    self.mode = CurrentMode::Text(t2);
                    self.top_layer.clear();
                    self.fill_color = Color::White;
                } else if str_eq(key, "Backspace") {
                    proof {
                        reveal_strlit("Enter");
                        reveal_strlit("Backspace");
                    }
                    r.push(DrawCmd::ClearAll(Layer::Top));
                    let n: usize = t.content.as_str().unicode_len();
                    let shorter: String = if n > 0 {
                        t.content.as_str().substring_char(0, n - 1).to_owned()
                    } else {
                        String::new()
                    };
                    r.push(
                        DrawCmd::FillText(Layer::Top, shorter.clone(), t.position.0, t.position.1),
                    );
                    let t2 = t.append(shorter);
                    self.mode = CurrentMode::Text(t2);
                    self.top_layer.clear();
                } else {
                    if crate::text::match_input(key) {
                        r.push(DrawCmd::ClearAll(Layer::Top));
                        let mut grown: String = t.content.clone();
                        grown.append(key);
                        r.push(
                            DrawCmd::FillText(
                                Layer::Top,
                                grown.clone(),
                                t.position.0,
                                t.position.1,
                            ),
                        );
                        let t2 = t.append(grown);
                        self.mode = CurrentMode::Text(t2);
                        self.top_layer.clear();
                    }
                }
            },
            _ => {},
        }
        r
    }
}

} // verus!
