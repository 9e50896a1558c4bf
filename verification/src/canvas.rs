//! The drawing surface: a transient view over one frame buffer's pixel
//! words, plus the drawing state (current path, paint, transform).  Every
//! write is bounds checked, so out-of-range coordinates can never touch
//! memory outside the buffer; rendering is aliased and writes the paint
//! colour directly.
//!
//! Scripts hand coordinates to the host as fractional numbers; the host
//! rounds them to whole pixels before they reach the canvas, and passes
//! scale factors in thousandths.

use vstd::prelude::*;

verus! {

/// Whether a shape is painted solid or as an outline.
#[derive(Clone, Copy, Debug, PartialEq, Eq, Structural)]
pub enum PaintStyle {
    Fill,
    Stroke,
}

/// The paint applied by drawing operations.
#[derive(Clone, Copy, Debug, PartialEq, Eq, Structural)]
pub struct Paint {
    /// Packed ARGB colour.
    pub color: u32,
    pub style: PaintStyle,
    /// Outline thickness in device pixels.
    pub stroke_width: u32,
    /// Kept as configured; rendering itself is aliased.
    pub anti_alias: bool,
}

/// One recorded path segment, in user coordinates.
#[derive(Clone, Copy, Debug, PartialEq, Eq, Structural)]
pub enum PathSeg {
    MoveTo { x: i32, y: i32 },
    LineTo { x: i32, y: i32 },
    QuadTo { cx: i32, cy: i32, x: i32, y: i32 },
    CubicTo { cx1: i32, cy1: i32, cx2: i32, cy2: i32, x: i32, y: i32 },
    Close,
}

/// Largest per-mille scale factor the transform keeps (a factor of one
/// million).
pub const SCALE_CAP: u64 = 1000000000;

/// Largest translation magnitude the transform keeps, in device pixels.
pub const TRANS_CAP: i64 = 4503599627370496;

/// Device coordinates are clamped into this symmetric range before
/// rasterization, so all pixel arithmetic stays well inside `i64`.
pub const DEVICE_CAP: i64 = 1073741824;

/// The canvas: pixel storage of one frame buffer plus drawing state.
pub struct Canvas {
    pub width: u32,
    pub height: u32,
    pub pixels: Vec<u32>,
    pub path: Vec<PathSeg>,
    pub paint: Paint,
    /// Device-pixel translation of the current transform.
    pub tx: i64,
    pub ty: i64,
    /// Per-mille scale factors of the current transform.
    pub sx_milli: u64,
    pub sy_milli: u64,
}

/// A coordinate scaled by a per-mille factor, rounding the magnitude
/// down.
pub open spec fn spec_scaled(v: int, s_milli: int) -> int {
    if v >= 0 {
        (v * s_milli) / 1000
    } else {
        -(((-v) * s_milli) / 1000)
    }
}

pub open spec fn spec_clamp(v: int, cap: int) -> int {
    if v < -cap {
        -cap
    } else if v > cap {
        cap
    } else {
        v
    }
}

/// The device coordinate a user coordinate lands on under a translation
/// and a per-mille scale.
pub open spec fn spec_device(v: int, t: int, s_milli: int) -> int {
    spec_clamp(t + spec_scaled(v, s_milli), DEVICE_CAP as int)
}

impl Canvas {
    /// One word of pixel storage per pixel, and a transform inside its
    /// caps.
    pub open spec fn wf(self) -> bool {
        &&& self.pixels@.len() == self.width * self.height
        &&& self.sx_milli <= SCALE_CAP
        &&& self.sy_milli <= SCALE_CAP
        &&& -TRANS_CAP <= self.tx <= TRANS_CAP
        &&& -TRANS_CAP <= self.ty <= TRANS_CAP
    }

    /// The device x coordinate a user x coordinate lands on.
    pub open spec fn spec_device_x(self, x: int) -> int {
        spec_device(x, self.tx as int, self.sx_milli as int)
    }

    /// The device y coordinate a user y coordinate lands on.
    pub open spec fn spec_device_y(self, y: int) -> int {
        spec_device(y, self.ty as int, self.sy_milli as int)
    }

    /// A horizontal extent scaled into device pixels.
    pub open spec fn spec_device_w(self, w: int) -> int {
        spec_clamp(spec_scaled(w, self.sx_milli as int), DEVICE_CAP as int)
    }

    /// A vertical extent scaled into device pixels.
    pub open spec fn spec_device_h(self, h: int) -> int {
        spec_clamp(spec_scaled(h, self.sy_milli as int), DEVICE_CAP as int)
    }

    /// Everything but the pixel storage: the drawing state drawing
    /// operations leave alone.
    pub open spec fn same_state(self, other: Canvas) -> bool {
        &&& self.width == other.width
        &&& self.height == other.height
        &&& self.path@ == other.path@
        &&& self.paint == other.paint
        &&& self.tx == other.tx
        &&& self.ty == other.ty
        &&& self.sx_milli == other.sx_milli
        &&& self.sy_milli == other.sy_milli
    }
}

/// Scales one coordinate by a per-mille factor.
fn scaled_coord(v: i32, s_milli: u64) -> (r: i64)
    requires
        s_milli <= SCALE_CAP,
    ensures
        r == spec_scaled(v as int, s_milli as int),
        -TRANS_CAP < r < TRANS_CAP,
{
    if v >= 0 {
        let m: u64 = v as u64;
        proof {
            assert(m * s_milli <= 0x80000000u64 * 1000000000u64) by (nonlinear_arith)
                requires
                    m <= 0x80000000u64,
                    s_milli <= 1000000000u64,
            ;
            assert((m * s_milli) as int / 1000 <= (m * s_milli) as int);
        }
        ((m * s_milli) / 1000) as i64
    } else {
        let m: u64 = (-(v as i64)) as u64;
        proof {
            assert(m * s_milli <= 0x80000000u64 * 1000000000u64) by (nonlinear_arith)
                requires
                    m <= 0x80000000u64,
                    s_milli <= 1000000000u64,
            ;
            assert((m * s_milli) as int / 1000 <= (m * s_milli) as int);
        }
        -(((m * s_milli) / 1000) as i64)
    }
}

/// Clamps a device coordinate into the rasterization range.
fn clamp_device(v: i64) -> (r: i64)
    ensures
        r == spec_clamp(v as int, DEVICE_CAP as int),
{
    if v < -DEVICE_CAP {
        -DEVICE_CAP
    } else if v > DEVICE_CAP {
        DEVICE_CAP
    } else {
        v
    }
}

impl Canvas {
    /// Wraps one frame's pixel words as a drawing surface.  The fresh
    /// canvas is cleared to opaque white, paints opaque black with
    /// hairline strokes, and carries the identity transform.
    pub fn new(width: u32, height: u32, pixels: Vec<u32>) -> (r: Canvas)
        requires
            pixels@.len() == width * height,
        ensures
            r.wf(),
            r.width == width,
            r.height == height,
            r.pixels@.len() == width * height,
            forall|i: int| 0 <= i < r.pixels@.len() ==> r.pixels@[i] == 0xFFFFFFFFu32,
            r.path@ == Seq::<PathSeg>::empty(),
            r.paint == (Paint {
                color: 0xFF000000u32,
                style: PaintStyle::Fill,
                stroke_width: 1u32,
                anti_alias: true,
            }),
            r.tx == 0 && r.ty == 0 && r.sx_milli == 1000 && r.sy_milli == 1000,
    {
        let mut c = Canvas {
            width,
            height,
            pixels,
            path: Vec::new(),
            paint: Paint {
                color: 0xFF000000u32,
                style: PaintStyle::Fill,
                stroke_width: 1u32,
                anti_alias: true,
            },
            tx: 0i64,
            ty: 0i64,
            sx_milli: 1000u64,
            sy_milli: 1000u64,
        };
        c.clear(0xFFFFFFFFu32);
        c
    }

    /// Gives the pixel storage back, for submission to the compositor.
    pub fn into_pixels(self) -> (r: Vec<u32>)
        ensures
            r@ == self.pixels@,
    {
        self.pixels
    }

    pub fn width(&self) -> (r: u32)
        ensures
            r == self.width,
    {
        self.width
    }

    pub fn height(&self) -> (r: u32)
        ensures
            r == self.height,
    {
        self.height
    }

    /// Reads one pixel word.
    pub fn pixel_at(&self, x: u32, y: u32) -> (r: u32)
        requires
            self.wf(),
            x < self.width,
            y < self.height,
        ensures
            r == self.pixels@[y * self.width + x],
    {
        let n: usize = self.pixels.len();
        proof {
            assert(y * self.width + x < self.width * self.height) by (nonlinear_arith)
                requires
                    x < self.width,
                    y < self.height,
            ;
        }
        let i: usize = (y as usize) * (self.width as usize) + (x as usize);
        self.pixels[i]
    }

    /// Fills the whole buffer with one colour, ignoring the transform.
    pub fn clear(&mut self, color: u32)
        requires
            old(self).wf(),
        ensures
            final(self).wf(),
            old(self).same_state(*final(self)),
            final(self).pixels@.len() == old(self).pixels@.len(),
            forall|i: int| 0 <= i < final(self).pixels@.len()
                ==> final(self).pixels@[i] == color,
    {
        let n: usize = self.pixels.len();
        let mut i: usize = 0;
        while i < n
            invariant
                0 <= i <= n,
                n == self.pixels@.len(),
                self.wf(),
                old(self).same_state(*self),
                self.pixels@.len() == old(self).pixels@.len(),
                forall|j: int| 0 <= j < i ==> self.pixels@[j] == color,
            decreases n - i,
        {
            self.pixels.set(i, color);
            i = i + 1;
        }
    }

    /// Sets the paint colour.
    pub fn set_paint_colour(&mut self, color: u32)
        ensures
            *final(self) == (Canvas {
                paint: (Paint { color, ..old(self).paint }),
                ..*old(self)
            }),
    {
        self.paint.color = color;
    }

    /// Sets the paint style.
    pub fn set_paint_style(&mut self, style: PaintStyle)
        ensures
            *final(self) == (Canvas {
                paint: (Paint { style, ..old(self).paint }),
                ..*old(self)
            }),
    {
        self.paint.style = style;
    }

    /// Sets the outline thickness in device pixels.
    pub fn set_line_width(&mut self, width: u32)
        ensures
            *final(self) == (Canvas {
                paint: (Paint { stroke_width: width, ..old(self).paint }),
                ..*old(self)
            }),
    {
        self.paint.stroke_width = width;
    }

    /// Moves the drawing origin by a user-space offset.
    pub fn translate(&mut self, dx: i32, dy: i32)
        requires
            old(self).wf(),
        ensures
            final(self).wf(),
            final(self).tx == spec_clamp(
                old(self).tx + spec_scaled(dx as int, old(self).sx_milli as int),
                TRANS_CAP as int,
            ),
            final(self).ty == spec_clamp(
                old(self).ty + spec_scaled(dy as int, old(self).sy_milli as int),
                TRANS_CAP as int,
            ),
            *final(self) == (Canvas { tx: final(self).tx, ty: final(self).ty, ..*old(self) }),
    {
        let sdx: i64 = scaled_coord(dx, self.sx_milli);
        let sdy: i64 = scaled_coord(dy, self.sy_milli);
        self.tx = clamp_trans(self.tx + sdx);
        self.ty = clamp_trans(self.ty + sdy);
    }

    /// Multiplies the transform's scale by per-mille factors; negative or
    /// oversized factors saturate into the kept range.
    pub fn scale(&mut self, sx_milli: i64, sy_milli: i64)
        requires
            old(self).wf(),
        ensures
            final(self).wf(),
            final(self).sx_milli == spec_compose_scale(old(self).sx_milli as int, sx_milli as int),
            final(self).sy_milli == spec_compose_scale(old(self).sy_milli as int, sy_milli as int),
            *final(self) == (Canvas {
                sx_milli: final(self).sx_milli,
                sy_milli: final(self).sy_milli,
                ..*old(self)
            }),
    {
        self.sx_milli = compose_scale(self.sx_milli, sx_milli);
        self.sy_milli = compose_scale(self.sy_milli, sy_milli);
    }
}

/// The scale factor after composing a new per-mille factor onto the
/// current one: negative factors collapse to zero, oversized results
/// saturate at the cap.
pub open spec fn spec_compose_scale(cur: int, f_milli: int) -> int {
    if f_milli <= 0 {
        0
    } else {
        let raw = (cur * f_milli) / 1000;
        if raw > SCALE_CAP as int {
            SCALE_CAP as int
        } else {
            raw
        }
    }
}

fn compose_scale(cur: u64, f_milli: i64) -> (r: u64)
    requires
        cur <= SCALE_CAP,
    ensures
        r == spec_compose_scale(cur as int, f_milli as int),
        r <= SCALE_CAP,
{
    if f_milli <= 0 {
        0
    } else {
        proof {
            assert((cur as int) * (f_milli as int) <= 1000000000int * 0x8000000000000000int)
                by (nonlinear_arith)
                requires
                    cur <= 1000000000int,
                    0 <= f_milli as int <= 0x8000000000000000int,
            ;
        }
        let prod: u128 = (cur as u128) * (f_milli as u128);
        let raw: u128 = prod / 1000;
        if raw > SCALE_CAP as u128 {
            SCALE_CAP
        } else {
            raw as u64
        }
    }
}

fn clamp_trans(v: i64) -> (r: i64)
    ensures
        r == spec_clamp(v as int, TRANS_CAP as int),
{
    if v < -TRANS_CAP {
        -TRANS_CAP
    } else if v > TRANS_CAP {
        TRANS_CAP
    } else {
        v
    }
}

/// A rasterizable region in device coordinates.  Rectangles carry origin
/// and extent; a band is the region between an outer and an inner
/// rectangle; an annulus is the region between two squared radii around a
/// centre.
#[derive(Clone, Copy, Debug, PartialEq, Eq, Structural)]
pub enum Shape {
    Rect { rx: i64, ry: i64, rw: i64, rh: i64 },
    Band {
        orx: i64,
        ory: i64,
        orw: i64,
        orh: i64,
        irx: i64,
        iry: i64,
        irw: i64,
        irh: i64,
    },
    Annulus { cx: i64, cy: i64, ri: i64, ro: i64 },
}

pub open spec fn spec_in_rect(px: int, py: int, rx: int, ry: int, rw: int, rh: int) -> bool {
    rx <= px < rx + rw && ry <= py < ry + rh
}

pub open spec fn spec_in_annulus(px: int, py: int, cx: int, cy: int, ri: int, ro: int) -> bool {
    let dx = px - cx;
    let dy = py - cy;
    ro > 0 && -ro <= dx <= ro && -ro <= dy <= ro && ri * ri <= dx * dx + dy * dy <= ro * ro
}

/// Whether a device pixel lies inside a shape.
pub open spec fn spec_shape_contains(s: Shape, px: int, py: int) -> bool {
    match s {
        Shape::Rect { rx, ry, rw, rh } => spec_in_rect(
            px,
            py,
            rx as int,
            ry as int,
            rw as int,
            rh as int,
        ),
        Shape::Band { orx, ory, orw, orh, irx, iry, irw, irh } => spec_in_rect(
            px,
            py,
            orx as int,
            ory as int,
            orw as int,
            orh as int,
        ) && !spec_in_rect(px, py, irx as int, iry as int, irw as int, irh as int),
        Shape::Annulus { cx, cy, ri, ro } => spec_in_annulus(
            px,
            py,
            cx as int,
            cy as int,
            ri as int,
            ro as int,
        ),
    }
}

/// Shape coordinates small enough that all containment arithmetic stays
/// inside `i64`.
pub open spec fn spec_shape_bounded(s: Shape) -> bool {
    match s {
        Shape::Rect { rx, ry, rw, rh } => {
            &&& -8 * DEVICE_CAP <= rx <= 8 * DEVICE_CAP
            &&& -8 * DEVICE_CAP <= ry <= 8 * DEVICE_CAP
            &&& -8 * DEVICE_CAP <= rw <= 8 * DEVICE_CAP
            &&& -8 * DEVICE_CAP <= rh <= 8 * DEVICE_CAP
        },
        Shape::Band { orx, ory, orw, orh, irx, iry, irw, irh } => {
            &&& -8 * DEVICE_CAP <= orx <= 8 * DEVICE_CAP
            &&& -8 * DEVICE_CAP <= ory <= 8 * DEVICE_CAP
            &&& -8 * DEVICE_CAP <= orw <= 8 * DEVICE_CAP
            &&& -8 * DEVICE_CAP <= orh <= 8 * DEVICE_CAP
            &&& -8 * DEVICE_CAP <= irx <= 8 * DEVICE_CAP
            &&& -8 * DEVICE_CAP <= iry <= 8 * DEVICE_CAP
            &&& -8 * DEVICE_CAP <= irw <= 8 * DEVICE_CAP
            &&& -8 * DEVICE_CAP <= irh <= 8 * DEVICE_CAP
        },
        Shape::Annulus { cx, cy, ri, ro } => {
            &&& -DEVICE_CAP <= cx <= DEVICE_CAP
            &&& -DEVICE_CAP <= cy <= DEVICE_CAP
            &&& 0 <= ri <= DEVICE_CAP
            &&& -2 * DEVICE_CAP <= ro <= DEVICE_CAP
        },
    }
}

fn in_rect(px: i64, py: i64, rx: i64, ry: i64, rw: i64, rh: i64) -> (r: bool)
    requires
        0 <= px < 0x100000000i64,
        0 <= py < 0x100000000i64,
        -8 * DEVICE_CAP <= rx <= 8 * DEVICE_CAP,
        -8 * DEVICE_CAP <= ry <= 8 * DEVICE_CAP,
        -8 * DEVICE_CAP <= rw <= 8 * DEVICE_CAP,
        -8 * DEVICE_CAP <= rh <= 8 * DEVICE_CAP,
    ensures
        r == spec_in_rect(px as int, py as int, rx as int, ry as int, rw as int, rh as int),
{
    rx <= px && px < rx + rw && ry <= py && py < ry + rh
}

fn shape_contains(s: &Shape, px: i64, py: i64) -> (r: bool)
    requires
        spec_shape_bounded(*s),
        0 <= px < 0x100000000i64,
        0 <= py < 0x100000000i64,
    ensures
        r == spec_shape_contains(*s, px as int, py as int),
{
    match *s {
        Shape::Rect { rx, ry, rw, rh } => in_rect(px, py, rx, ry, rw, rh),
        Shape::Band { orx, ory, orw, orh, irx, iry, irw, irh } => {
            in_rect(px, py, orx, ory, orw, orh) && !in_rect(px, py, irx, iry, irw, irh)
        },
        Shape::Annulus { cx, cy, ri, ro } => {
            if ro <= 0 {
                false
            } else {
                let dx: i64 = px - cx;
                let dy: i64 = py - cy;
                if -ro <= dx && dx <= ro && -ro <= dy && dy <= ro {
                    proof {
                        assert(0 <= dx * dx <= (DEVICE_CAP as int) * (DEVICE_CAP as int)
                            && 0 <= dy * dy <= (DEVICE_CAP as int) * (DEVICE_CAP as int)
                            && 0 <= ri * ri <= (DEVICE_CAP as int) * (DEVICE_CAP as int)
                            && 0 <= ro * ro <= (DEVICE_CAP as int) * (DEVICE_CAP as int))
                            by (nonlinear_arith)
                            requires
                                -DEVICE_CAP <= ro <= DEVICE_CAP,
                                -ro <= dx <= ro,
                                -ro <= dy <= ro,
                                0 <= ri <= DEVICE_CAP,
                        ;
                    }
                    ri * ri <= dx * dx + dy * dy && dx * dx + dy * dy <= ro * ro
                } else {
                    false
                }
            }
        },
    }
}

/// The pixels after painting a shape: every in-shape pixel takes the
/// colour, every other pixel keeps its value, and the buffer keeps its
/// size, whatever coordinates the shape has.
pub open spec fn spec_painted(p: Seq<u32>, w: int, s: Shape, color: u32) -> Seq<u32> {
    Seq::new(p.len(), |i: int| if w > 0 && spec_shape_contains(s, i % w, i / w) {
        color
    } else {
        p[i]
    })
}

impl Canvas {
    /// Paints one device-space shape with a colour: the single funnel
    /// every shape rasterization goes through, so a write can never land
    /// outside the buffer.
    fn paint_shape(&mut self, shape: Shape, color: u32)
        requires
            old(self).wf(),
            spec_shape_bounded(shape),
        ensures
            final(self).wf(),
            old(self).same_state(*final(self)),
            final(self).pixels@ == spec_painted(
                old(self).pixels@,
                old(self).width as int,
                shape,
                color,
            ),
    {
        let w: u32 = self.width;
        let n: usize = self.pixels.len();
        let ghost target = spec_painted(old(self).pixels@, old(self).width as int, shape, color);
        let mut i: usize = 0;
        let mut px: u64 = 0;
        let mut py: u64 = 0;
        while i < n
            invariant
                0 <= i <= n,
                w == self.width,
                n == self.pixels@.len(),
                spec_shape_bounded(shape),
                self.wf(),
                old(self).same_state(*self),
                self.pixels@.len() == old(self).pixels@.len(),
                target == spec_painted(old(self).pixels@, old(self).width as int, shape, color),
                i == py * w + px,
                0 <= px < (if w > 0 { w as int } else { 1int }),
                0 <= py <= 0xFFFFFFFFu64,
                forall|j: int| 0 <= j < i ==> self.pixels@[j] == target[j],
                forall|j: int| i <= j < n ==> self.pixels@[j] == old(self).pixels@[j],
            decreases n - i,
        {
            proof {
                assert(w > 0) by (nonlinear_arith)
                    requires
                        i < n,
                        n == w * self.height,
                        i == py * w + px,
                        px >= 0,
                        py >= 0,
                ;
                vstd::arithmetic::div_mod::lemma_fundamental_div_mod_converse(
                    i as int,
                    w as int,
                    py as int,
                    px as int,
                );
                assert(py < self.height) by (nonlinear_arith)
                    requires
                        i < n,
                        n == w * self.height,
                        i == py * w + px,
                        0 <= px < w,
                        py >= 0,
                ;
            }
            let hit: bool = shape_contains(&shape, px as i64, py as i64);
            if hit {
                self.pixels.set(i, color);
            }
            i = i + 1;
            if px + 1 == w as u64 {
                proof {
                    assert((py + 1) * w == py * w + w) by (nonlinear_arith);
                }
                px = 0;
                py = py + 1;
            } else {
                px = px + 1;
            }
        }
        proof {
            assert(self.pixels@ =~= target);
        }
    }
}

/// Half the stroke width, clamped into the device range: how far an
/// outline reaches outward from a shape's edge.
pub open spec fn spec_stroke_half(sw: u32) -> int {
    if (sw / 2) as int > DEVICE_CAP as int {
        DEVICE_CAP as int
    } else {
        (sw / 2) as int
    }
}

/// The rest of the stroke width, clamped likewise: how far an outline
/// reaches inward.
pub open spec fn spec_stroke_rest(sw: u32) -> int {
    if (sw - sw / 2) as int > DEVICE_CAP as int {
        DEVICE_CAP as int
    } else {
        (sw - sw / 2) as int
    }
}

/// The device-space shape a rectangle call paints: the rectangle itself
/// under fill paint, the stroke band around its boundary under stroke
/// paint.
pub open spec fn spec_rect_shape(c: Canvas, x: int, y: int, w: int, h: int) -> Shape {
    let rx = c.spec_device_x(x);
    let ry = c.spec_device_y(y);
    let rw = c.spec_device_w(w);
    let rh = c.spec_device_h(h);
    if c.paint.style == PaintStyle::Fill {
        Shape::Rect { rx: rx as i64, ry: ry as i64, rw: rw as i64, rh: rh as i64 }
    } else {
        let half = spec_stroke_half(c.paint.stroke_width);
        let rest = spec_stroke_rest(c.paint.stroke_width);
        Shape::Band {
            orx: (rx - half) as i64,
            ory: (ry - half) as i64,
            orw: (rw + 2 * half) as i64,
            orh: (rh + 2 * half) as i64,
            irx: (rx + rest) as i64,
            iry: (ry + rest) as i64,
            irw: (rw - 2 * rest) as i64,
            irh: (rh - 2 * rest) as i64,
        }
    }
}

/// The device-space shape a circle call paints: the full disk under fill
/// paint, the ring of one stroke width around the radius under stroke
/// paint.
pub open spec fn spec_circle_shape(c: Canvas, x: int, y: int, radius: int) -> Shape {
    let cx = c.spec_device_x(x);
    let cy = c.spec_device_y(y);
    let r = c.spec_device_w(radius);
    if c.paint.style == PaintStyle::Fill {
        Shape::Annulus { cx: cx as i64, cy: cy as i64, ri: 0i64, ro: r as i64 }
    } else {
        let half = spec_stroke_half(c.paint.stroke_width);
        let ri = if r - half < 0 {
            0int
        } else {
            r - half
        };
        let ro = if r + half > DEVICE_CAP as int {
            DEVICE_CAP as int
        } else {
            r + half
        };
        Shape::Annulus { cx: cx as i64, cy: cy as i64, ri: ri as i64, ro: ro as i64 }
    }
}

impl Canvas {
    fn device_x(&self, x: i32) -> (r: i64)
        requires
            self.wf(),
        ensures
            r == self.spec_device_x(x as int),
            -DEVICE_CAP <= r <= DEVICE_CAP,
    {
        clamp_device(self.tx + scaled_coord(x, self.sx_milli))
    }

    fn device_y(&self, y: i32) -> (r: i64)
        requires
            self.wf(),
        ensures
            r == self.spec_device_y(y as int),
            -DEVICE_CAP <= r <= DEVICE_CAP,
    {
        clamp_device(self.ty + scaled_coord(y, self.sy_milli))
    }

    fn device_w(&self, w: i32) -> (r: i64)
        requires
            self.wf(),
        ensures
            r == self.spec_device_w(w as int),
            -DEVICE_CAP <= r <= DEVICE_CAP,
    {
        clamp_device(scaled_coord(w, self.sx_milli))
    }

    fn device_h(&self, h: i32) -> (r: i64)
        requires
            self.wf(),
        ensures
            r == self.spec_device_h(h as int),
            -DEVICE_CAP <= r <= DEVICE_CAP,
    {
        clamp_device(scaled_coord(h, self.sy_milli))
    }

    fn stroke_half(&self) -> (r: i64)
        ensures
            r == spec_stroke_half(self.paint.stroke_width),
            0 <= r <= DEVICE_CAP,
    {
        let half: u32 = self.paint.stroke_width / 2;
        if half as i64 > DEVICE_CAP {
            DEVICE_CAP
        } else {
            half as i64
        }
    }

    fn stroke_rest(&self) -> (r: i64)
        ensures
            r == spec_stroke_rest(self.paint.stroke_width),
            0 <= r <= DEVICE_CAP,
    {
        let rest: u32 = self.paint.stroke_width - self.paint.stroke_width / 2;
        if rest as i64 > DEVICE_CAP {
            DEVICE_CAP
        } else {
            rest as i64
        }
    }

    /// Draws an axis-aligned rectangle with the current paint: solid
    /// under fill style, its outline band under stroke style.  Every
    /// in-shape, in-bounds pixel takes the paint colour, nothing else
    /// changes.
    pub fn draw_rect(&mut self, x: i32, y: i32, w: i32, h: i32)
        requires
            old(self).wf(),
        ensures
            final(self).wf(),
            old(self).same_state(*final(self)),
            final(self).pixels@ == spec_painted(
                old(self).pixels@,
                old(self).width as int,
                spec_rect_shape(*old(self), x as int, y as int, w as int, h as int),
                old(self).paint.color,
            ),
    {
        let rx: i64 = self.device_x(x);
        let ry: i64 = self.device_y(y);
        let rw: i64 = self.device_w(w);
        let rh: i64 = self.device_h(h);
        let color: u32 = self.paint.color;
        let shape: Shape = if matches!(self.paint.style, PaintStyle::Fill) {
            Shape::Rect { rx, ry, rw, rh }
        } else {
            let half: i64 = self.stroke_half();
            let rest: i64 = self.stroke_rest();
            Shape::Band {
                orx: rx - half,
                ory: ry - half,
                orw: rw + 2 * half,
                orh: rh + 2 * half,
                irx: rx + rest,
                iry: ry + rest,
                irw: rw - 2 * rest,
                irh: rh - 2 * rest,
            }
        };
        self.paint_shape(shape, color);
    }

    /// Draws a circle with the current paint: the full disk under fill
    /// style, a ring one stroke width thick under stroke style.
    pub fn draw_circle(&mut self, x: i32, y: i32, radius: i32)
        requires
            old(self).wf(),
        ensures
            final(self).wf(),
            old(self).same_state(*final(self)),
            final(self).pixels@ == spec_painted(
                old(self).pixels@,
                old(self).width as int,
                spec_circle_shape(*old(self), x as int, y as int, radius as int),
                old(self).paint.color,
            ),
    {
        let cx: i64 = self.device_x(x);
        let cy: i64 = self.device_y(y);
        let r: i64 = self.device_w(radius);
        let color: u32 = self.paint.color;
        let shape: Shape = if matches!(self.paint.style, PaintStyle::Fill) {
            Shape::Annulus { cx, cy, ri: 0, ro: r }
        } else {
            let half: i64 = self.stroke_half();
            let ri: i64 = if r - half < 0 {
                0
            } else {
                r - half
            };
            let ro: i64 = if r + half > DEVICE_CAP {
                DEVICE_CAP
            } else {
                r + half
            };
            Shape::Annulus { cx, cy, ri, ro }
        };
        self.paint_shape(shape, color);
    }
}

/// An argument fault in a drawing call coming from the script.
#[derive(Clone, Copy, Debug, PartialEq, Eq, Structural)]
pub enum CanvasError {
    /// A paint style string outside fill and stroke.
    UnknownPaintStyle,
}

/// The paint style a style string names, if any.
pub open spec fn spec_style_of_name(s: Seq<char>) -> Option<PaintStyle> {
    if s == "fill"@ {
        Some(PaintStyle::Fill)
    } else if s == "stroke"@ {
        Some(PaintStyle::Stroke)
    } else {
        None
    }
}

/// Interpolation along one axis: the delta scaled by `t / n`, with the
/// magnitude rounded toward zero.
pub open spec fn spec_muldiv(d: int, t: int, n: int) -> int {
    if d >= 0 {
        (d * t) / n
    } else {
        -(((-d) * t) / n)
    }
}

fn muldiv(d: i64, t: i64, n: i64) -> (r: i64)
    requires
        1 <= n <= 0x80000000i64,
        0 <= t <= n,
        -0x80000000i64 <= d <= 0x80000000i64,
    ensures
        r == spec_muldiv(d as int, t as int, n as int),
        d >= 0 ==> 0 <= r <= d,
        d < 0 ==> d <= r <= 0,
{
    if d >= 0 {
        proof {
            assert(d * t <= 0x80000000i64 * 0x80000000i64) by (nonlinear_arith)
                requires
                    0 <= d <= 0x80000000i64,
                    0 <= t <= 0x80000000i64,
            ;
        }
        let m: u64 = (d as u64) * (t as u64);
        proof {
            assert(d * t <= d * n) by (nonlinear_arith)
                requires
                    0 <= t <= n,
                    d >= 0,
            ;
            vstd::arithmetic::div_mod::lemma_div_is_ordered(d * t, d * n, n as int);
            vstd::arithmetic::div_mod::lemma_div_by_multiple(d as int, n as int);
        }
        (m / (n as u64)) as i64
    } else {
        let md: i64 = -d;
        proof {
            assert(md * t <= 0x80000000i64 * 0x80000000i64) by (nonlinear_arith)
                requires
                    0 <= md <= 0x80000000i64,
                    0 <= t <= 0x80000000i64,
            ;
        }
        let m: u64 = (md as u64) * (t as u64);
        proof {
            assert(md * t <= md * n) by (nonlinear_arith)
                requires
                    0 <= t <= n,
                    md >= 0,
            ;
            vstd::arithmetic::div_mod::lemma_div_is_ordered(md * t, md * n, n as int);
            vstd::arithmetic::div_mod::lemma_div_by_multiple(md as int, n as int);
        }
        -((m / (n as u64)) as i64)
    }
}

/// The sample count of a device-space segment: one step per device pixel
/// along the longer axis.
pub open spec fn spec_line_steps(x0: int, y0: int, x1: int, y1: int) -> int {
    let adx = if x1 - x0 >= 0 {
        x1 - x0
    } else {
        x0 - x1
    };
    let ady = if y1 - y0 >= 0 {
        y1 - y0
    } else {
        y0 - y1
    };
    if adx >= ady {
        adx
    } else {
        ady
    }
}

/// The square brush stamped at one line sample: centred on the sample,
/// reaching half a stroke width each way.
pub open spec fn spec_brush_shape(lx: int, ly: int, half: int) -> Shape {
    Shape::Rect {
        rx: (lx - half) as i64,
        ry: (ly - half) as i64,
        rw: (2 * half + 1) as i64,
        rh: (2 * half + 1) as i64,
    }
}

/// The pixels after stamping the brush along the remaining samples of a
/// device-space segment, from sample `t` through `steps`.
pub open spec fn spec_line_painted(
    p: Seq<u32>,
    w: int,
    x0: int,
    y0: int,
    x1: int,
    y1: int,
    steps: int,
    half: int,
    color: u32,
    t: int,
) -> Seq<u32>
    decreases steps + 1 - t,
{
    if t < 0 || t > steps {
        p
    } else {
        let lx = if steps == 0 {
            x0
        } else {
            x0 + spec_muldiv(x1 - x0, t, steps)
        };
        let ly = if steps == 0 {
            y0
        } else {
            y0 + spec_muldiv(y1 - y0, t, steps)
        };
        spec_line_painted(
            spec_painted(p, w, spec_brush_shape(lx, ly, half), color),
            w,
            x0,
            y0,
            x1,
            y1,
            steps,
            half,
            color,
            t + 1,
        )
    }
}

/// What a line call leaves in the buffer: the brush stamped at every
/// sample of the device-space segment between the transformed endpoints.
pub open spec fn spec_line_result(c: Canvas, x0: int, y0: int, x1: int, y1: int) -> Seq<u32> {
    let dx0 = c.spec_device_x(x0);
    let dy0 = c.spec_device_y(y0);
    let dx1 = c.spec_device_x(x1);
    let dy1 = c.spec_device_y(y1);
    spec_line_painted(
        c.pixels@,
        c.width as int,
        dx0,
        dy0,
        dx1,
        dy1,
        spec_line_steps(dx0, dy0, dx1, dy1),
        spec_stroke_half(c.paint.stroke_width),
        c.paint.color,
        0,
    )
}

impl Canvas {
    /// Sets the paint style from a script-supplied style string; anything
    /// outside fill and stroke is refused.
    pub fn set_paint_style_name(&mut self, name: &String) -> (r: Result<(), CanvasError>)
        ensures
            r == (match spec_style_of_name(name@) {
                Some(_) => Ok::<(), CanvasError>(()),
                None => Err::<(), CanvasError>(CanvasError::UnknownPaintStyle),
            }),
            *final(self) == (match spec_style_of_name(name@) {
                Some(style) => (Canvas {
                    paint: (Paint { style, ..old(self).paint }),
                    ..*old(self)
                }),
                None => *old(self),
            }),
    {
        let fill: String = String::from_str("fill");
        let stroke: String = String::from_str("stroke");
        if *name == fill {
            self.paint.style = PaintStyle::Fill;
            Ok(())
        } else if *name == stroke {
            self.paint.style = PaintStyle::Stroke;
            Ok(())
        } else {
            Err(CanvasError::UnknownPaintStyle)
        }
    }

    /// Draws a straight segment between two points with the current
    /// paint colour, one square brush stamp per device pixel along the
    /// longer axis.
    pub fn draw_line(&mut self, x0: i32, y0: i32, x1: i32, y1: i32)
        requires
            old(self).wf(),
        ensures
            final(self).wf(),
            old(self).same_state(*final(self)),
            final(self).pixels@ == spec_line_result(
                *old(self),
                x0 as int,
                y0 as int,
                x1 as int,
                y1 as int,
            ),
    {
        let dx0: i64 = self.device_x(x0);
        let dy0: i64 = self.device_y(y0);
        let dx1: i64 = self.device_x(x1);
        let dy1: i64 = self.device_y(y1);
        let half: i64 = self.stroke_half();
        let color: u32 = self.paint.color;
        self.stamp_segment(dx0, dy0, dx1, dy1, half, color);
    }

    /// Stamps the brush along one device-space segment: the shared
    /// rasterizer behind lines and path outlines.
    fn stamp_segment(&mut self, dx0: i64, dy0: i64, dx1: i64, dy1: i64, half: i64, color: u32)
        requires
            old(self).wf(),
            -DEVICE_CAP <= dx0 <= DEVICE_CAP,
            -DEVICE_CAP <= dy0 <= DEVICE_CAP,
            -DEVICE_CAP <= dx1 <= DEVICE_CAP,
            -DEVICE_CAP <= dy1 <= DEVICE_CAP,
            0 <= half <= DEVICE_CAP,
        ensures
            final(self).wf(),
            old(self).same_state(*final(self)),
            final(self).pixels@ == spec_line_painted(
                old(self).pixels@,
                old(self).width as int,
                dx0 as int,
                dy0 as int,
                dx1 as int,
                dy1 as int,
                spec_line_steps(dx0 as int, dy0 as int, dx1 as int, dy1 as int),
                half as int,
                color,
                0,
            ),
    {
        let adx: i64 = if dx1 - dx0 >= 0 {
            dx1 - dx0
        } else {
            dx0 - dx1
        };
        let ady: i64 = if dy1 - dy0 >= 0 {
            dy1 - dy0
        } else {
            dy0 - dy1
        };
        let steps: i64 = if adx >= ady {
            adx
        } else {
            ady
        };
        let ghost target = spec_line_painted(
            old(self).pixels@,
            old(self).width as int,
            dx0 as int,
            dy0 as int,
            dx1 as int,
            dy1 as int,
            steps as int,
            half as int,
            color,
            0,
        );
        let mut t: i64 = 0;
        while t <= steps
            invariant
                0 <= t <= steps + 1,
                steps == spec_line_steps(dx0 as int, dy0 as int, dx1 as int, dy1 as int),
                0 <= steps <= 0x80000000i64,
                -DEVICE_CAP <= dx0 <= DEVICE_CAP,
                -DEVICE_CAP <= dy0 <= DEVICE_CAP,
                -DEVICE_CAP <= dx1 <= DEVICE_CAP,
                -DEVICE_CAP <= dy1 <= DEVICE_CAP,
                0 <= half <= DEVICE_CAP,
                self.wf(),
                old(self).same_state(*self),
                target == spec_line_painted(
                    self.pixels@,
                    old(self).width as int,
                    dx0 as int,
                    dy0 as int,
                    dx1 as int,
                    dy1 as int,
                    steps as int,
                    half as int,
                    color,
                    t as int,
                ),
            decreases steps + 1 - t,
        {
            let lx: i64 = if steps == 0 {
                dx0
            } else {
                dx0 + muldiv(dx1 - dx0, t, steps)
            };
            let ly: i64 = if steps == 0 {
                dy0
            } else {
                dy0 + muldiv(dy1 - dy0, t, steps)
            };
            let shape = Shape::Rect {
                rx: lx - half,
                ry: ly - half,
                rw: 2 * half + 1,
                rh: 2 * half + 1,
            };
            proof {
                assert(shape == spec_brush_shape(lx as int, ly as int, half as int));
            }
            self.paint_shape(shape, color);
            t = t + 1;
        }
    }
}

/// Painting a shape preserves the buffer's size and touches only pixels
/// whose coordinates fall inside the shape; everything else, including
/// everything addressed by out-of-range coordinates, keeps its value.
pub proof fn lemma_paint_stays_in_bounds(p: Seq<u32>, w: int, s: Shape, color: u32)
    ensures
        spec_painted(p, w, s, color).len() == p.len(),
        forall|i: int|
            0 <= i < p.len() && !(w > 0 && spec_shape_contains(s, i % w, i / w))
                ==> spec_painted(p, w, s, color)[i] == p[i],
        forall|i: int|
            0 <= i < p.len() && w > 0 && spec_shape_contains(s, i % w, i / w)
                ==> spec_painted(p, w, s, color)[i] == color,
{
}

/// Truncating division: the quotient's magnitude rounded toward zero.
pub open spec fn spec_tdiv(a: int, d: int) -> int {
    if a >= 0 {
        a / d
    } else {
        -((-a) / d)
    }
}

fn tdiv(a: i64, d: i64) -> (r: i64)
    requires
        1 <= d <= 0x10000i64,
        -0x4000000000000000i64 <= a <= 0x4000000000000000i64,
    ensures
        r == spec_tdiv(a as int, d as int),
        a >= 0 ==> 0 <= r <= a,
        a < 0 ==> a <= r <= 0,
{
    if a >= 0 {
        proof {
            assert((a as int) / (d as int) <= a as int);
        }
        ((a as u64) / (d as u64)) as i64
    } else {
        let m: i64 = -a;
        proof {
            assert((m as int) / (d as int) <= m as int);
        }
        -(((m as u64) / (d as u64)) as i64)
    }
}

/// The number of straight pieces each curve segment is flattened into.
pub const CURVE_PIECES: i64 = 16;

/// One coordinate of a quadratic curve sample: the Bernstein form over
/// sixteenths, with the magnitude of the division rounded toward zero.
pub open spec fn spec_quad_coord(a: int, b: int, c: int, t: int) -> int {
    let u = 16 - t;
    spec_tdiv(u * u * a + 2 * u * t * b + t * t * c, 256)
}

/// One coordinate of a cubic curve sample, likewise over sixteenths.
pub open spec fn spec_cubic_coord(a: int, b: int, c: int, d: int, t: int) -> int {
    let u = 16 - t;
    spec_tdiv(u * u * u * a + 3 * u * u * t * b + 3 * u * t * t * c + t * t * t * d, 4096)
}

fn quad_coord(a: i64, b: i64, c: i64, t: i64) -> (r: i64)
    requires
        -DEVICE_CAP <= a <= DEVICE_CAP,
        -DEVICE_CAP <= b <= DEVICE_CAP,
        -DEVICE_CAP <= c <= DEVICE_CAP,
        0 <= t <= 16,
    ensures
        r == spec_quad_coord(a as int, b as int, c as int, t as int),
        -DEVICE_CAP <= r <= DEVICE_CAP,
{
    let u: i64 = 16 - t;
    proof {
        assert(0 <= u * u <= 256 && 0 <= u * t <= 256 && 0 <= t * t <= 256
            && u * u + 2 * (u * t) + t * t == 256) by (nonlinear_arith)
            requires
                0 <= t <= 16,
                u == 16 - t,
        ;
    }
    let cuu: i64 = u * u;
    let cut: i64 = u * t;
    let ctt: i64 = t * t;
    proof {
        assert(cuu * a + 2 * (cut * b) + ctt * c <= 256 * (DEVICE_CAP as int)
            && cuu * a + 2 * (cut * b) + ctt * c >= -256 * (DEVICE_CAP as int)
            && -256 * (DEVICE_CAP as int) <= cuu * a <= 256 * (DEVICE_CAP as int)
            && -256 * (DEVICE_CAP as int) <= cut * b <= 256 * (DEVICE_CAP as int)
            && -256 * (DEVICE_CAP as int) <= ctt * c <= 256 * (DEVICE_CAP as int))
            by (nonlinear_arith)
            requires
                0 <= cuu,
                0 <= cut,
                0 <= ctt,
                cuu + 2 * cut + ctt == 256,
                -DEVICE_CAP <= a <= DEVICE_CAP,
                -DEVICE_CAP <= b <= DEVICE_CAP,
                -DEVICE_CAP <= c <= DEVICE_CAP,
        ;
    }
    let num: i64 = cuu * a + 2 * (cut * b) + ctt * c;
    let r: i64 = tdiv(num, 256);
    proof {
        assert(num as int == (16 - t) * (16 - t) * (a as int)
            + 2 * (16 - t) * (t as int) * (b as int)
            + (t as int) * (t as int) * (c as int)) by (nonlinear_arith)
            requires
                num == cuu * a + 2 * (cut * b) + ctt * c,
                cuu == u * u,
                cut == u * t,
                ctt == t * t,
                u == 16 - t,
        ;
        vstd::arithmetic::div_mod::lemma_div_by_multiple(DEVICE_CAP as int, 256);
        if num >= 0 {
            vstd::arithmetic::div_mod::lemma_div_is_ordered(
                num as int,
                (DEVICE_CAP as int) * 256,
                256,
            );
        } else {
            vstd::arithmetic::div_mod::lemma_div_is_ordered(
                -(num as int),
                (DEVICE_CAP as int) * 256,
                256,
            );
        }
    }
    r
}

fn cubic_coord(a: i64, b: i64, c: i64, d: i64, t: i64) -> (r: i64)
    requires
        -DEVICE_CAP <= a <= DEVICE_CAP,
        -DEVICE_CAP <= b <= DEVICE_CAP,
        -DEVICE_CAP <= c <= DEVICE_CAP,
        -DEVICE_CAP <= d <= DEVICE_CAP,
        0 <= t <= 16,
    ensures
        r == spec_cubic_coord(a as int, b as int, c as int, d as int, t as int),
        -DEVICE_CAP <= r <= DEVICE_CAP,
{
    let u: i64 = 16 - t;
    proof {
        assert(0 <= u * u <= 256 && 0 <= u * t <= 256 && 0 <= t * t <= 256
            && 0 <= u * u * u <= 4096 && 0 <= u * u * t <= 4096 && 0 <= u * t * t <= 4096
            && 0 <= t * t * t <= 4096
            && u * u * u + 3 * (u * u * t) + 3 * (u * t * t) + t * t * t == 4096)
            by (nonlinear_arith)
            requires
                0 <= t <= 16,
                u == 16 - t,
        ;
    }
    let cu3: i64 = u * u * u;
    let cu2t: i64 = u * u * t;
    let cut2: i64 = u * t * t;
    let ct3: i64 = t * t * t;
    proof {
        assert(cu3 * a + 3 * (cu2t * b) + 3 * (cut2 * c) + ct3 * d
            <= 4096 * (DEVICE_CAP as int)
            && cu3 * a + 3 * (cu2t * b) + 3 * (cut2 * c) + ct3 * d
            >= -4096 * (DEVICE_CAP as int)
            && -4096 * (DEVICE_CAP as int) <= cu3 * a <= 4096 * (DEVICE_CAP as int)
            && -4096 * (DEVICE_CAP as int) <= cu2t * b <= 4096 * (DEVICE_CAP as int)
            && -4096 * (DEVICE_CAP as int) <= cut2 * c <= 4096 * (DEVICE_CAP as int)
            && -4096 * (DEVICE_CAP as int) <= ct3 * d <= 4096 * (DEVICE_CAP as int))
            by (nonlinear_arith)
            requires
                0 <= cu3,
                0 <= cu2t,
                0 <= cut2,
                0 <= ct3,
                cu3 + 3 * cu2t + 3 * cut2 + ct3 == 4096,
                -DEVICE_CAP <= a <= DEVICE_CAP,
                -DEVICE_CAP <= b <= DEVICE_CAP,
                -DEVICE_CAP <= c <= DEVICE_CAP,
                -DEVICE_CAP <= d <= DEVICE_CAP,
        ;
    }
    let num: i64 = cu3 * a + 3 * (cu2t * b) + 3 * (cut2 * c) + ct3 * d;
    let r: i64 = tdiv(num, 4096);
    proof {
        assert(num as int == (16 - t) * (16 - t) * (16 - t) * (a as int)
            + 3 * (16 - t) * (16 - t) * (t as int) * (b as int)
            + 3 * (16 - t) * (t as int) * (t as int) * (c as int)
            + (t as int) * (t as int) * (t as int) * (d as int)) by (nonlinear_arith)
            requires
                num == cu3 * a + 3 * (cu2t * b) + 3 * (cut2 * c) + ct3 * d,
                cu3 == u * u * u,
                cu2t == u * u * t,
                cut2 == u * t * t,
                ct3 == t * t * t,
                u == 16 - t,
        ;
        vstd::arithmetic::div_mod::lemma_div_by_multiple(DEVICE_CAP as int, 4096);
        if num >= 0 {
            vstd::arithmetic::div_mod::lemma_div_is_ordered(
                num as int,
                (DEVICE_CAP as int) * 4096,
                4096,
            );
        } else {
            vstd::arithmetic::div_mod::lemma_div_is_ordered(
                -(num as int),
                (DEVICE_CAP as int) * 4096,
                4096,
            );
        }
    }
    r
}


/// One flattened path point in device space; `start` marks the first
/// point of a subpath, which no segment is drawn into.
#[derive(Clone, Copy, Debug, PartialEq, Eq, Structural)]
pub struct PolyPoint {
    pub x: i64,
    pub y: i64,
    pub start: bool,
}

pub open spec fn spec_pts_bounded(pts: Seq<PolyPoint>) -> bool {
    forall|i: int| 0 <= i < pts.len()
        ==> -DEVICE_CAP <= (#[trigger] pts[i]).x <= DEVICE_CAP
            && -DEVICE_CAP <= pts[i].y <= DEVICE_CAP
}

/// The flattened points of one quadratic curve piece, sixteenth by
/// sixteenth from sample `t` on.
pub open spec fn spec_quad_samples(
    acc: Seq<PolyPoint>,
    bx: int,
    by: int,
    qx: int,
    qy: int,
    ex: int,
    ey: int,
    t: int,
) -> Seq<PolyPoint>
    decreases 17 - t,
{
    if t < 1 || t > 16 {
        acc
    } else {
        spec_quad_samples(
            acc.push(PolyPoint {
                x: spec_quad_coord(bx, qx, ex, t) as i64,
                y: spec_quad_coord(by, qy, ey, t) as i64,
                start: false,
            }),
            bx,
            by,
            qx,
            qy,
            ex,
            ey,
            t + 1,
        )
    }
}

/// The flattened points of one cubic curve piece, likewise.
pub open spec fn spec_cubic_samples(
    acc: Seq<PolyPoint>,
    bx: int,
    by: int,
    q1x: int,
    q1y: int,
    q2x: int,
    q2y: int,
    ex: int,
    ey: int,
    t: int,
) -> Seq<PolyPoint>
    decreases 17 - t,
{
    if t < 1 || t > 16 {
        acc
    } else {
        spec_cubic_samples(
            acc.push(PolyPoint {
                x: spec_cubic_coord(bx, q1x, q2x, ex, t) as i64,
                y: spec_cubic_coord(by, q1y, q2y, ey, t) as i64,
                start: false,
            }),
            bx,
            by,
            q1x,
            q1y,
            q2x,
            q2y,
            ex,
            ey,
            t + 1,
        )
    }
}

/// The device-space polyline the recorded path flattens into, processed
/// from segment `i` on: a move starts a subpath, a line extends it (or
/// starts one where none is open), curves are sampled in sixteen straight
/// pieces, and a close returns to the subpath's first point.  A curve
/// with no open subpath starts one at the transformed origin.
pub open spec fn spec_flatten_rest(
    tx: int,
    ty: int,
    sx: int,
    sy: int,
    segs: Seq<PathSeg>,
    i: int,
    has_cur: bool,
    curx: int,
    cury: int,
    subx: int,
    suby: int,
    acc: Seq<PolyPoint>,
) -> Seq<PolyPoint>
    decreases segs.len() - i,
{
    if i < 0 || i >= segs.len() {
        acc
    } else {
        match segs[i] {
            PathSeg::MoveTo { x, y } => {
                let dx = spec_device(x as int, tx, sx);
                let dy = spec_device(y as int, ty, sy);
                spec_flatten_rest(
                    tx,
                    ty,
                    sx,
                    sy,
                    segs,
                    i + 1,
                    true,
                    dx,
                    dy,
                    dx,
                    dy,
                    acc.push(PolyPoint { x: dx as i64, y: dy as i64, start: true }),
                )
            },
            PathSeg::LineTo { x, y } => {
                let dx = spec_device(x as int, tx, sx);
                let dy = spec_device(y as int, ty, sy);
                if has_cur {
                    spec_flatten_rest(
                        tx,
                        ty,
                        sx,
                        sy,
                        segs,
                        i + 1,
                        true,
                        dx,
                        dy,
                        subx,
                        suby,
                        acc.push(PolyPoint { x: dx as i64, y: dy as i64, start: false }),
                    )
                } else {
                    spec_flatten_rest(
                        tx,
                        ty,
                        sx,
                        sy,
                        segs,
                        i + 1,
                        true,
                        dx,
                        dy,
                        dx,
                        dy,
                        acc.push(PolyPoint { x: dx as i64, y: dy as i64, start: true }),
                    )
                }
            },
            PathSeg::QuadTo { cx: qcx, cy: qcy, x, y } => {
                let bx = if has_cur {
                    curx
                } else {
                    spec_device(0, tx, sx)
                };
                let by = if has_cur {
                    cury
                } else {
                    spec_device(0, ty, sy)
                };
                let nsubx = if has_cur {
                    subx
                } else {
                    bx
                };
                let nsuby = if has_cur {
                    suby
                } else {
                    by
                };
                let acc1 = if has_cur {
                    acc
                } else {
                    acc.push(PolyPoint { x: bx as i64, y: by as i64, start: true })
                };
                let qdx = spec_device(qcx as int, tx, sx);
                let qdy = spec_device(qcy as int, ty, sy);
                let edx = spec_device(x as int, tx, sx);
                let edy = spec_device(y as int, ty, sy);
                let acc2 = spec_quad_samples(acc1, bx, by, qdx, qdy, edx, edy, 1);
                spec_flatten_rest(tx, ty, sx, sy, segs, i + 1, true, edx, edy, nsubx, nsuby, acc2)
            },
            PathSeg::CubicTo { cx1, cy1, cx2, cy2, x, y } => {
                let bx = if has_cur {
                    curx
                } else {
                    spec_device(0, tx, sx)
                };
                let by = if has_cur {
                    cury
                } else {
                    spec_device(0, ty, sy)
                };
                let nsubx = if has_cur {
                    subx
                } else {
                    bx
                };
                let nsuby = if has_cur {
                    suby
                } else {
                    by
                };
                let acc1 = if has_cur {
                    acc
                } else {
                    acc.push(PolyPoint { x: bx as i64, y: by as i64, start: true })
                };
                let q1x = spec_device(cx1 as int, tx, sx);
                let q1y = spec_device(cy1 as int, ty, sy);
                let q2x = spec_device(cx2 as int, tx, sx);
                let q2y = spec_device(cy2 as int, ty, sy);
                let edx = spec_device(x as int, tx, sx);
                let edy = spec_device(y as int, ty, sy);
                let acc2 = spec_cubic_samples(acc1, bx, by, q1x, q1y, q2x, q2y, edx, edy, 1);
                spec_flatten_rest(tx, ty, sx, sy, segs, i + 1, true, edx, edy, nsubx, nsuby, acc2)
            },
            PathSeg::Close => {
                if has_cur {
                    spec_flatten_rest(
                        tx,
                        ty,
                        sx,
                        sy,
                        segs,
                        i + 1,
                        true,
                        subx,
                        suby,
                        subx,
                        suby,
                        acc.push(PolyPoint { x: subx as i64, y: suby as i64, start: false }),
                    )
                } else {
                    spec_flatten_rest(tx, ty, sx, sy, segs, i + 1, false, curx, cury, subx, suby, acc)
                }
            },
        }
    }
}

/// A segment sequence flattened under a canvas's current transform.
pub open spec fn spec_flatten_segs(c: Canvas, segs: Seq<PathSeg>) -> Seq<PolyPoint> {
    spec_flatten_rest(
        c.tx as int,
        c.ty as int,
        c.sx_milli as int,
        c.sy_milli as int,
        segs,
        0,
        false,
        0,
        0,
        0,
        0,
        Seq::empty(),
    )
}

/// The whole recorded path, flattened.
pub open spec fn spec_flatten(c: Canvas) -> Seq<PolyPoint> {
    spec_flatten_segs(c, c.path@)
}


impl Canvas {
    /// Flattens the recorded path into its device-space polyline.
    fn flatten_path(&self) -> (pts: Vec<PolyPoint>)
        requires
            self.wf(),
        ensures
            pts@ == spec_flatten(*self),
            spec_pts_bounded(pts@),
    {
        let ghost me = *self;
        let mut pts: Vec<PolyPoint> = Vec::new();
        let mut has_cur: bool = false;
        let mut curx: i64 = 0;
        let mut cury: i64 = 0;
        let mut subx: i64 = 0;
        let mut suby: i64 = 0;
        let mut i: usize = 0;
        let n: usize = self.path.len();
        while i < n
            invariant
                0 <= i <= n,
                n == self.path@.len(),
                self.wf(),
                *self == me,
                spec_pts_bounded(pts@),
                -DEVICE_CAP <= curx <= DEVICE_CAP,
                -DEVICE_CAP <= cury <= DEVICE_CAP,
                -DEVICE_CAP <= subx <= DEVICE_CAP,
                -DEVICE_CAP <= suby <= DEVICE_CAP,
                spec_flatten(me) == spec_flatten_rest(
                    me.tx as int,
                    me.ty as int,
                    me.sx_milli as int,
                    me.sy_milli as int,
                    me.path@,
                    i as int,
                    has_cur,
                    curx as int,
                    cury as int,
                    subx as int,
                    suby as int,
                    pts@,
                ),
            decreases n - i,
        {
            let seg: PathSeg = self.path[i];
            match seg {
                PathSeg::MoveTo { x, y } => {
                    let dx: i64 = self.device_x(x);
                    let dy: i64 = self.device_y(y);
                    pts.push(PolyPoint { x: dx, y: dy, start: true });
                    has_cur = true;
                    curx = dx;
                    cury = dy;
                    subx = dx;
                    suby = dy;
                },
                PathSeg::LineTo { x, y } => {
                    let dx: i64 = self.device_x(x);
                    let dy: i64 = self.device_y(y);
                    if has_cur {
                        pts.push(PolyPoint { x: dx, y: dy, start: false });
                    } else {
                        pts.push(PolyPoint { x: dx, y: dy, start: true });
                        subx = dx;
                        suby = dy;
                    }
                    has_cur = true;
                    curx = dx;
                    cury = dy;
                },
                PathSeg::QuadTo { cx: qcx, cy: qcy, x, y } => {
                    if !has_cur {
                        curx = self.device_x(0);
                        cury = self.device_y(0);
                        subx = curx;
                        suby = cury;
                        pts.push(PolyPoint { x: curx, y: cury, start: true });
                    }
                    let bx: i64 = curx;
                    let by: i64 = cury;
                    let qdx: i64 = self.device_x(qcx);
                    let qdy: i64 = self.device_y(qcy);
                    let edx: i64 = self.device_x(x);
                    let edy: i64 = self.device_y(y);
                    let ghost acc1 = pts@;
                    let mut t: i64 = 1;
                    while t <= 16
                        invariant
                            1 <= t <= 17,
                            self.wf(),
                            *self == me,
                            spec_pts_bounded(pts@),
                            -DEVICE_CAP <= bx <= DEVICE_CAP,
                            -DEVICE_CAP <= by <= DEVICE_CAP,
                            -DEVICE_CAP <= qdx <= DEVICE_CAP,
                            -DEVICE_CAP <= qdy <= DEVICE_CAP,
                            -DEVICE_CAP <= edx <= DEVICE_CAP,
                            -DEVICE_CAP <= edy <= DEVICE_CAP,
                            spec_quad_samples(
                                acc1,
                                bx as int,
                                by as int,
                                qdx as int,
                                qdy as int,
                                edx as int,
                                edy as int,
                                1,
                            ) == spec_quad_samples(
                                pts@,
                                bx as int,
                                by as int,
                                qdx as int,
                                qdy as int,
                                edx as int,
                                edy as int,
                                t as int,
                            ),
                        decreases 17 - t,
                    {
                        let sx: i64 = quad_coord(bx, qdx, edx, t);
                        let sy: i64 = quad_coord(by, qdy, edy, t);
                        pts.push(PolyPoint { x: sx, y: sy, start: false });
                        t = t + 1;
                    }
                    has_cur = true;
                    curx = edx;
                    cury = edy;
                },
                PathSeg::CubicTo { cx1, cy1, cx2, cy2, x, y } => {
                    if !has_cur {
                        curx = self.device_x(0);
                        cury = self.device_y(0);
                        subx = curx;
                        suby = cury;
                        pts.push(PolyPoint { x: curx, y: cury, start: true });
                    }
                    let bx: i64 = curx;
                    let by: i64 = cury;
                    let q1x: i64 = self.device_x(cx1);
                    let q1y: i64 = self.device_y(cy1);
                    let q2x: i64 = self.device_x(cx2);
                    let q2y: i64 = self.device_y(cy2);
                    let edx: i64 = self.device_x(x);
                    let edy: i64 = self.device_y(y);
                    let ghost acc1 = pts@;
                    let mut t: i64 = 1;
                    while t <= 16
                        invariant
                            1 <= t <= 17,
                            self.wf(),
                            *self == me,
                            spec_pts_bounded(pts@),
                            -DEVICE_CAP <= bx <= DEVICE_CAP,
                            -DEVICE_CAP <= by <= DEVICE_CAP,
                            -DEVICE_CAP <= q1x <= DEVICE_CAP,
                            -DEVICE_CAP <= q1y <= DEVICE_CAP,
                            -DEVICE_CAP <= q2x <= DEVICE_CAP,
                            -DEVICE_CAP <= q2y <= DEVICE_CAP,
                            -DEVICE_CAP <= edx <= DEVICE_CAP,
                            -DEVICE_CAP <= edy <= DEVICE_CAP,
                            spec_cubic_samples(
                                acc1,
                                bx as int,
                                by as int,
                                q1x as int,
                                q1y as int,
                                q2x as int,
                                q2y as int,
                                edx as int,
                                edy as int,
                                1,
                            ) == spec_cubic_samples(
                                pts@,
                                bx as int,
                                by as int,
                                q1x as int,
                                q1y as int,
                                q2x as int,
                                q2y as int,
                                edx as int,
                                edy as int,
                                t as int,
                            ),
                        decreases 17 - t,
                    {
                        let sx: i64 = cubic_coord(bx, q1x, q2x, edx, t);
                        let sy: i64 = cubic_coord(by, q1y, q2y, edy, t);
                        pts.push(PolyPoint { x: sx, y: sy, start: false });
                        t = t + 1;
                    }
                    has_cur = true;
                    curx = edx;
                    cury = edy;
                },
                PathSeg::Close => {
                    if has_cur {
                        pts.push(PolyPoint { x: subx, y: suby, start: false });
                        curx = subx;
                        cury = suby;
                    }
                },
            }
            i = i + 1;
        }
        pts
    }
}


/// Whether a leftward ray from the centre of pixel (px, py) crosses the
/// directed edge from (x0, y0) to (x1, y1): the standard half-open
/// scanline test, exact over the doubled grid.
pub open spec fn spec_edge_crosses(
    x0: int,
    y0: int,
    x1: int,
    y1: int,
    px: int,
    py: int,
) -> bool {
    let dy = y1 - y0;
    if y0 <= py && py < y1 {
        2 * x0 * dy + (x1 - x0) * (2 * py + 1 - 2 * y0) < (2 * px + 1) * dy
    } else if y1 <= py && py < y0 {
        2 * x0 * dy + (x1 - x0) * (2 * py + 1 - 2 * y0) > (2 * px + 1) * dy
    } else {
        false
    }
}

/// The crossing parity of the edges from index `j` on; the polyline is
/// implicitly closed from its last point back to its first.
pub open spec fn spec_fill_parity(pts: Seq<PolyPoint>, j: int, px: int, py: int) -> bool
    decreases pts.len() - j,
{
    if j < 0 || j >= pts.len() {
        false
    } else {
        let k = if j + 1 == pts.len() {
            0
        } else {
            j + 1
        };
        spec_edge_crosses(
            pts[j].x as int,
            pts[j].y as int,
            pts[k].x as int,
            pts[k].y as int,
            px,
            py,
        ) != spec_fill_parity(pts, j + 1, px, py)
    }
}

/// The pixels after filling a flattened path as one even-odd polygon.
pub open spec fn spec_poly_painted(
    p: Seq<u32>,
    w: int,
    pts: Seq<PolyPoint>,
    color: u32,
) -> Seq<u32> {
    Seq::new(p.len(), |i: int| if w > 0 && spec_fill_parity(pts, 0, i % w, i / w) {
        color
    } else {
        p[i]
    })
}

fn edge_crosses(x0: i64, y0: i64, x1: i64, y1: i64, px: i64, py: i64) -> (r: bool)
    requires
        -DEVICE_CAP <= x0 <= DEVICE_CAP,
        -DEVICE_CAP <= y0 <= DEVICE_CAP,
        -DEVICE_CAP <= x1 <= DEVICE_CAP,
        -DEVICE_CAP <= y1 <= DEVICE_CAP,
        0 <= px < 0x100000000i64,
        0 <= py < 0x100000000i64,
    ensures
        r == spec_edge_crosses(x0 as int, y0 as int, x1 as int, y1 as int, px as int, py as int),
{
    let dy: i64 = y1 - y0;
    if y0 <= py && py < y1 {
        proof {
            lemma_edge_products_bounded(x0 as int, y0 as int, x1 as int, dy as int, px as int, py as int);
        }
        let lhs: i128 = 2 * (x0 as i128) * (dy as i128)
            + ((x1 - x0) as i128) * (2 * (py as i128) + 1 - 2 * (y0 as i128));
        let rhs: i128 = (2 * (px as i128) + 1) * (dy as i128);
        lhs < rhs
    } else if y1 <= py && py < y0 {
        proof {
            lemma_edge_products_bounded(x0 as int, y0 as int, x1 as int, dy as int, px as int, py as int);
        }
        let lhs: i128 = 2 * (x0 as i128) * (dy as i128)
            + ((x1 - x0) as i128) * (2 * (py as i128) + 1 - 2 * (y0 as i128));
        let rhs: i128 = (2 * (px as i128) + 1) * (dy as i128);
        lhs > rhs
    } else {
        false
    }
}

/// All products of the scanline crossing test stay far inside `i128`.
proof fn lemma_edge_products_bounded(x0: int, y0: int, x1: int, dy: int, px: int, py: int)
    requires
        -0x80000000 <= x0 <= 0x80000000,
        -0x80000000 <= y0 <= 0x80000000,
        -0x80000000 <= x1 <= 0x80000000,
        -0x200000000 <= dy <= 0x200000000,
        0 <= px < 0x100000000,
        0 <= py < 0x100000000,
    ensures
        -0x10000000000000000000 <= 2 * x0 * dy <= 0x10000000000000000000,
        -0x10000000000000000000 <= (x1 - x0) * (2 * py + 1 - 2 * y0)
            <= 0x10000000000000000000,
        -0x10000000000000000000 <= (2 * px + 1) * dy <= 0x10000000000000000000,
{
    assert(-0x10000000000000000000 <= 2 * x0 * dy <= 0x10000000000000000000
        && -0x10000000000000000000 <= (x1 - x0) * (2 * py + 1 - 2 * y0)
            <= 0x10000000000000000000
        && -0x10000000000000000000 <= (2 * px + 1) * dy <= 0x10000000000000000000)
        by (nonlinear_arith)
        requires
            -0x80000000 <= x0 <= 0x80000000,
            -0x80000000 <= y0 <= 0x80000000,
            -0x80000000 <= x1 <= 0x80000000,
            -0x200000000 <= dy <= 0x200000000,
            0 <= px < 0x100000000,
            0 <= py < 0x100000000,
    ;
}

/// Even-odd membership of one pixel in the flattened polygon.
fn poly_contains(pts: &Vec<PolyPoint>, px: i64, py: i64) -> (r: bool)
    requires
        spec_pts_bounded(pts@),
        0 <= px < 0x100000000i64,
        0 <= py < 0x100000000i64,
    ensures
        r == spec_fill_parity(pts@, 0, px as int, py as int),
{
    let n: usize = pts.len();
    let mut parity: bool = false;
    let mut j: usize = 0;
    while j < n
        invariant
            0 <= j <= n,
            n == pts@.len(),
            spec_pts_bounded(pts@),
            0 <= px < 0x100000000i64,
            0 <= py < 0x100000000i64,
            spec_fill_parity(pts@, 0, px as int, py as int) == (parity != spec_fill_parity(
                pts@,
                j as int,
                px as int,
                py as int,
            )),
        decreases n - j,
    {
        let k: usize = if j + 1 == n {
            0
        } else {
            j + 1
        };
        let c: bool = edge_crosses(pts[j].x, pts[j].y, pts[k].x, pts[k].y, px, py);
        parity = parity != c;
        j = j + 1;
    }
    parity
}

impl Canvas {
    /// Fills the flattened polygon with a colour: the scan twin of
    /// `paint_shape`, with even-odd membership in place of a shape.
    fn fill_polygon(&mut self, pts: &Vec<PolyPoint>, color: u32)
        requires
            old(self).wf(),
            spec_pts_bounded(pts@),
        ensures
            final(self).wf(),
            old(self).same_state(*final(self)),
            final(self).pixels@ == spec_poly_painted(
                old(self).pixels@,
                old(self).width as int,
                pts@,
                color,
            ),
    {
        let w: u32 = self.width;
        let n: usize = self.pixels.len();
        let ghost target = spec_poly_painted(
            old(self).pixels@,
            old(self).width as int,
            pts@,
            color,
        );
        let mut i: usize = 0;
        let mut px: u64 = 0;
        let mut py: u64 = 0;
        while i < n
            invariant
                0 <= i <= n,
                w == self.width,
                n == self.pixels@.len(),
                spec_pts_bounded(pts@),
                self.wf(),
                old(self).same_state(*self),
                self.pixels@.len() == old(self).pixels@.len(),
                target == spec_poly_painted(
                    old(self).pixels@,
                    old(self).width as int,
                    pts@,
                    color,
                ),
                i == py * w + px,
                0 <= px < (if w > 0 {
                    w as int
                } else {
                    1int
                }),
                0 <= py <= 0xFFFFFFFFu64,
                forall|j: int| 0 <= j < i ==> self.pixels@[j] == target[j],
                forall|j: int| i <= j < n ==> self.pixels@[j] == old(self).pixels@[j],
            decreases n - i,
        {
            proof {
                assert(w > 0) by (nonlinear_arith)
                    requires
                        i < n,
                        n == w * self.height,
                        i == py * w + px,
                        px >= 0,
                        py >= 0,
                ;
                vstd::arithmetic::div_mod::lemma_fundamental_div_mod_converse(
                    i as int,
                    w as int,
                    py as int,
                    px as int,
                );
                assert(py < self.height) by (nonlinear_arith)
                    requires
                        i < n,
                        n == w * self.height,
                        i == py * w + px,
                        0 <= px < w,
                        py >= 0,
                ;
            }
            let hit: bool = poly_contains(pts, px as i64, py as i64);
            if hit {
                self.pixels.set(i, color);
            }
            i = i + 1;
            if px + 1 == w as u64 {
                proof {
                    assert((py + 1) * w == py * w + w) by (nonlinear_arith);
                }
                px = 0;
                py = py + 1;
            } else {
                px = px + 1;
            }
        }
        proof {
            assert(self.pixels@ =~= target);
        }
    }
}

/// The pixels after stroking a flattened polyline: the brush stamped
/// along every drawn segment from point `i` on; subpath starts break the
/// chain.
pub open spec fn spec_stroked_pts(
    p: Seq<u32>,
    w: int,
    pts: Seq<PolyPoint>,
    i: int,
    half: int,
    color: u32,
) -> Seq<u32>
    decreases pts.len() - i,
{
    if i < 1 || i >= pts.len() {
        p
    } else if pts[i].start {
        spec_stroked_pts(p, w, pts, i + 1, half, color)
    } else {
        spec_stroked_pts(
            spec_line_painted(
                p,
                w,
                pts[i - 1].x as int,
                pts[i - 1].y as int,
                pts[i].x as int,
                pts[i].y as int,
                spec_line_steps(
                    pts[i - 1].x as int,
                    pts[i - 1].y as int,
                    pts[i].x as int,
                    pts[i].y as int,
                ),
                half,
                color,
                0,
            ),
            w,
            pts,
            i + 1,
            half,
            color,
        )
    }
}

/// What rendering the recorded path leaves in the buffer: the even-odd
/// filled polygon under fill paint, the stamped polyline under stroke
/// paint.
pub open spec fn spec_render_path_on(p: Seq<u32>, c: Canvas) -> Seq<u32> {
    let pts = spec_flatten(c);
    if c.paint.style == PaintStyle::Fill {
        spec_poly_painted(p, c.width as int, pts, c.paint.color)
    } else {
        spec_stroked_pts(
            p,
            c.width as int,
            pts,
            1,
            spec_stroke_half(c.paint.stroke_width),
            c.paint.color,
        )
    }
}

pub open spec fn spec_render_path(c: Canvas) -> Seq<u32> {
    spec_render_path_on(c.pixels@, c)
}

impl Canvas {
    /// Rasterizes the recorded path with the current paint, leaving the
    /// path itself in place.
    fn render_path(&mut self)
        requires
            old(self).wf(),
        ensures
            final(self).wf(),
            old(self).same_state(*final(self)),
            final(self).pixels@ == spec_render_path(*old(self)),
    {
        let pts: Vec<PolyPoint> = self.flatten_path();
        let color: u32 = self.paint.color;
        if matches!(self.paint.style, PaintStyle::Fill) {
            self.fill_polygon(&pts, color);
        } else {
            let half: i64 = self.stroke_half();
            let n: usize = pts.len();
            let mut i: usize = 1;
            let ghost target = spec_stroked_pts(
                old(self).pixels@,
                old(self).width as int,
                pts@,
                1,
                half as int,
                color,
            );
            while i < n
                invariant
                    1 <= i <= (if n > 1 {
                        n as int
                    } else {
                        1int
                    }),
                    n == pts@.len(),
                    spec_pts_bounded(pts@),
                    0 <= half <= DEVICE_CAP,
                    self.wf(),
                    old(self).same_state(*self),
                    target == spec_stroked_pts(
                        self.pixels@,
                        old(self).width as int,
                        pts@,
                        i as int,
                        half as int,
                        color,
                    ),
                decreases n - i,
            {
                if !pts[i].start {
                    self.stamp_segment(
                        pts[i - 1].x,
                        pts[i - 1].y,
                        pts[i].x,
                        pts[i].y,
                        half,
                        color,
                    );
                }
                i = i + 1;
            }
        }
    }

    /// Starts a fresh path: the recorded path is first rasterized with
    /// the current paint, then cleared.
    pub fn begin_path(&mut self)
        requires
            old(self).wf(),
        ensures
            final(self).wf(),
            final(self).pixels@ == spec_render_path(*old(self)),
            final(self).path@ == Seq::<PathSeg>::empty(),
            final(self).width == old(self).width,
            final(self).height == old(self).height,
            final(self).paint == old(self).paint,
            final(self).tx == old(self).tx,
            final(self).ty == old(self).ty,
            final(self).sx_milli == old(self).sx_milli,
            final(self).sy_milli == old(self).sy_milli,
    {
        self.render_path();
        self.path.clear();
    }

    /// Starts a new subpath at a point, rasterizing and clearing what
    /// was recorded before.
    pub fn move_to(&mut self, x: i32, y: i32)
        requires
            old(self).wf(),
        ensures
            final(self).wf(),
            final(self).pixels@ == spec_render_path(*old(self)),
            final(self).path@ == seq![PathSeg::MoveTo { x, y }],
            final(self).width == old(self).width,
            final(self).height == old(self).height,
            final(self).paint == old(self).paint,
            final(self).tx == old(self).tx,
            final(self).ty == old(self).ty,
            final(self).sx_milli == old(self).sx_milli,
            final(self).sy_milli == old(self).sy_milli,
    {
        self.begin_path();
        self.path.push(PathSeg::MoveTo { x, y });
        proof {
            assert(self.path@ =~= seq![PathSeg::MoveTo { x, y }]);
        }
    }

    /// Extends the current subpath with a straight segment.
    pub fn line_to(&mut self, x: i32, y: i32)
        ensures
            *final(self) == (Canvas { path: final(self).path, ..*old(self) }),
            final(self).path@ == old(self).path@.push(PathSeg::LineTo { x, y }),
    {
        self.path.push(PathSeg::LineTo { x, y });
    }

    /// Extends the current subpath with a quadratic curve.
    pub fn quad_to(&mut self, cx: i32, cy: i32, x: i32, y: i32)
        ensures
            *final(self) == (Canvas { path: final(self).path, ..*old(self) }),
            final(self).path@ == old(self).path@.push(PathSeg::QuadTo { cx, cy, x, y }),
    {
        self.path.push(PathSeg::QuadTo { cx, cy, x, y });
    }

    /// Extends the current subpath with a cubic curve.
    pub fn bezier_curve_to(&mut self, cx1: i32, cy1: i32, cx2: i32, cy2: i32, x: i32, y: i32)
        ensures
            *final(self) == (Canvas { path: final(self).path, ..*old(self) }),
            final(self).path@ == old(self).path@.push(
                PathSeg::CubicTo { cx1, cy1, cx2, cy2, x, y },
            ),
    {
        self.path.push(PathSeg::CubicTo { cx1, cy1, cx2, cy2, x, y });
    }

    /// Closes the current subpath back to its first point.
    pub fn close_path(&mut self)
        ensures
            *final(self) == (Canvas { path: final(self).path, ..*old(self) }),
            final(self).path@ == old(self).path@.push(PathSeg::Close),
    {
        self.path.push(PathSeg::Close);
    }

    /// Strokes the recorded path: the paint switches to stroke style and
    /// the path is stamped segment by segment, staying recorded.
    pub fn draw_path_stroke(&mut self)
        requires
            old(self).wf(),
        ensures
            final(self).wf(),
            final(self).paint == (Paint { style: PaintStyle::Stroke, ..old(self).paint }),
            final(self).path@ == old(self).path@,
            final(self).pixels@ == spec_render_path(
                Canvas {
                    paint: (Paint { style: PaintStyle::Stroke, ..old(self).paint }),
                    ..*old(self)
                },
            ),
            final(self).width == old(self).width,
            final(self).height == old(self).height,
            final(self).tx == old(self).tx,
            final(self).ty == old(self).ty,
            final(self).sx_milli == old(self).sx_milli,
            final(self).sy_milli == old(self).sy_milli,
    {
        self.paint.style = PaintStyle::Stroke;
        self.render_path();
    }

    /// Fills the recorded path: the paint switches to fill style and the
    /// path is filled as one even-odd polygon, staying recorded.
    pub fn draw_path_fill(&mut self)
        requires
            old(self).wf(),
        ensures
            final(self).wf(),
            final(self).paint == (Paint { style: PaintStyle::Fill, ..old(self).paint }),
            final(self).path@ == old(self).path@,
            final(self).pixels@ == spec_render_path(
                Canvas {
                    paint: (Paint { style: PaintStyle::Fill, ..old(self).paint }),
                    ..*old(self)
                },
            ),
            final(self).width == old(self).width,
            final(self).height == old(self).height,
            final(self).tx == old(self).tx,
            final(self).ty == old(self).ty,
            final(self).sx_milli == old(self).sx_milli,
            final(self).sy_milli == old(self).sy_milli,
    {
        self.paint.style = PaintStyle::Fill;
        self.render_path();
    }
}


/// The 5x7 bitmap of one text byte, rows packed from the top, low bit
/// leftmost.  Digits and the letters of the frame-rate suffix have
/// glyphs; every other byte is blank and only advances the pen.
pub open spec fn spec_glyph_bits(ch: u8) -> u64 {
    match ch {
        48u8 => 0x3a33ae62eu64,
        49u8 => 0x3884210c4u64,
        50u8 => 0x7c444422eu64,
        51u8 => 0x3a304111fu64,
        52u8 => 0x211f4a988u64,
        53u8 => 0x3a3083c3fu64,
        54u8 => 0x3a317844cu64,
        55u8 => 0x8422221fu64,
        56u8 => 0x3a317462eu64,
        57u8 => 0x1910f462eu64,
        102u8 => 0x84238a4cu64,
        112u8 => 0x42f8bc00u64,
        115u8 => 0x3e0e0f800u64,
        _ => 0u64,
    }
}

fn glyph_bits(ch: u8) -> (r: u64)
    ensures
        r == spec_glyph_bits(ch),
{
    match ch {
        48u8 => 0x3a33ae62eu64,
        49u8 => 0x3884210c4u64,
        50u8 => 0x7c444422eu64,
        51u8 => 0x3a304111fu64,
        52u8 => 0x211f4a988u64,
        53u8 => 0x3a3083c3fu64,
        54u8 => 0x3a317844cu64,
        55u8 => 0x8422221fu64,
        56u8 => 0x3a317462eu64,
        57u8 => 0x1910f462eu64,
        102u8 => 0x84238a4cu64,
        112u8 => 0x42f8bc00u64,
        115u8 => 0x3e0e0f800u64,
        _ => 0u64,
    }
}

/// Pen positions saturate here, comfortably past every addressable
/// pixel, so arbitrarily long text stays inside the rasterizer's range.
pub const PEN_CAP: i64 = 4294967296;

/// The pen position one glyph cell further right.
pub open spec fn spec_pen_advance(gx: int) -> int {
    if gx + 6 > PEN_CAP as int {
        PEN_CAP as int
    } else {
        gx + 6
    }
}

/// The pixels after painting the set bits of one glyph from bit `b` on,
/// one device pixel per bit.
pub open spec fn spec_glyph_painted(
    p: Seq<u32>,
    w: int,
    gx: int,
    gy: int,
    bits: u64,
    b: int,
    color: u32,
) -> Seq<u32>
    decreases 35 - b,
{
    if b < 0 || b >= 35 {
        p
    } else if (bits >> (b as u64)) & 1u64 == 1u64 {
        spec_glyph_painted(
            spec_painted(
                p,
                w,
                Shape::Rect {
                    rx: (gx + b % 5) as i64,
                    ry: (gy + b / 5) as i64,
                    rw: 1i64,
                    rh: 1i64,
                },
                color,
            ),
            w,
            gx,
            gy,
            bits,
            b + 1,
            color,
        )
    } else {
        spec_glyph_painted(p, w, gx, gy, bits, b + 1, color)
    }
}

/// The pixels after rendering the text bytes from index `k` on, the pen
/// advancing one cell per byte.
pub open spec fn spec_text_painted(
    p: Seq<u32>,
    w: int,
    gx: int,
    gy: int,
    text: Seq<u8>,
    k: int,
    color: u32,
) -> Seq<u32>
    decreases text.len() - k,
{
    if k < 0 || k >= text.len() {
        p
    } else {
        spec_text_painted(
            spec_glyph_painted(p, w, gx, gy, spec_glyph_bits(text[k]), 0, color),
            w,
            spec_pen_advance(gx),
            gy,
            text,
            k + 1,
            color,
        )
    }
}

/// What a text call leaves in the buffer: the glyph bitmaps of the bytes
/// rendered left to right from the transformed anchor.
pub open spec fn spec_text_result(c: Canvas, x: int, y: int, text: Seq<u8>) -> Seq<u32> {
    spec_text_painted(
        c.pixels@,
        c.width as int,
        c.spec_device_x(x),
        c.spec_device_y(y),
        text,
        0,
        c.paint.color,
    )
}

impl Canvas {
    /// Renders the bytes of a string with the built-in 5x7 bitmap font,
    /// in the paint colour; bytes without a glyph advance the pen
    /// silently.
    pub fn draw_text(&mut self, x: i32, y: i32, text: &Vec<u8>)
        requires
            old(self).wf(),
        ensures
            final(self).wf(),
            old(self).same_state(*final(self)),
            final(self).pixels@ == spec_text_result(
                *old(self),
                x as int,
                y as int,
                text@,
            ),
    {
        let mut gx: i64 = self.device_x(x);
        let gy: i64 = self.device_y(y);
        let color: u32 = self.paint.color;
        let n: usize = text.len();
        let ghost target = spec_text_result(*old(self), x as int, y as int, text@);
        let mut k: usize = 0;
        while k < n
            invariant
                0 <= k <= n,
                n == text@.len(),
                -DEVICE_CAP <= gx <= PEN_CAP,
                -DEVICE_CAP <= gy <= DEVICE_CAP,
                self.wf(),
                old(self).same_state(*self),
                color == old(self).paint.color,
                target == spec_text_painted(
                    self.pixels@,
                    old(self).width as int,
                    gx as int,
                    gy as int,
                    text@,
                    k as int,
                    color,
                ),
            decreases n - k,
        {
            let bits: u64 = glyph_bits(text[k]);
            let ghost before = self.pixels@;
            let mut b: u64 = 0;
            while b < 35
                invariant
                    0 <= b <= 35,
                    -DEVICE_CAP <= gx <= PEN_CAP,
                    -DEVICE_CAP <= gy <= DEVICE_CAP,
                    self.wf(),
                    old(self).same_state(*self),
                    spec_glyph_painted(
                        before,
                        old(self).width as int,
                        gx as int,
                        gy as int,
                        bits,
                        0,
                        color,
                    ) == spec_glyph_painted(
                        self.pixels@,
                        old(self).width as int,
                        gx as int,
                        gy as int,
                        bits,
                        b as int,
                        color,
                    ),
                decreases 35 - b,
            {
                if (bits >> b) & 1u64 == 1u64 {
                    let col: i64 = (b % 5) as i64;
                    let row: i64 = (b / 5) as i64;
                    self.paint_shape(
                        Shape::Rect { rx: gx + col, ry: gy + row, rw: 1, rh: 1 },
                        color,
                    );
                }
                b = b + 1;
            }
            gx = if gx + 6 > PEN_CAP {
                PEN_CAP
            } else {
                gx + 6
            };
            k = k + 1;
        }
    }
}

/// The decimal digit bytes of a number, most significant first.
pub open spec fn spec_decimal_digits(n: u32) -> Seq<u8>
    decreases n,
{
    if n < 10 {
        seq![(48 + n) as u8]
    } else {
        spec_decimal_digits(n / 10).push((48 + n % 10) as u8)
    }
}

/// Formats a number as its decimal digit bytes.
pub fn decimal_digits(n: u32) -> (r: Vec<u8>)
    ensures
        r@ == spec_decimal_digits(n),
    decreases n,
{
    if n < 10 {
        let mut v: Vec<u8> = Vec::new();
        v.push(48 + n as u8);
        proof {
            assert(v@ =~= spec_decimal_digits(n));
        }
        v
    } else {
        let mut v: Vec<u8> = decimal_digits(n / 10);
        v.push(48 + (n % 10) as u8);
        v
    }
}


pub open spec fn spec_pow10(k: nat) -> int
    decreases k,
{
    if k == 0 {
        1
    } else {
        10 * spec_pow10((k - 1) as nat)
    }
}

/// A number below the k-th power of ten has at most k digits.
proof fn lemma_digits_len_pow(n: u32, k: nat)
    requires
        k >= 1,
        n < spec_pow10(k),
    ensures
        spec_decimal_digits(n).len() <= k,
    decreases k,
{
    if n >= 10 {
        assert(spec_pow10(k) == 10 * spec_pow10((k - 1) as nat));
        assert(spec_pow10((k - 1) as nat) >= 1) by {
            lemma_pow10_positive((k - 1) as nat);
        }
        vstd::arithmetic::div_mod::lemma_multiply_divide_lt(
            n as int,
            10,
            spec_pow10((k - 1) as nat),
        );
        lemma_digits_len_pow(n / 10, (k - 1) as nat);
    }
}

proof fn lemma_pow10_positive(k: nat)
    ensures
        spec_pow10(k) >= 1,
    decreases k,
{
    if k > 0 {
        lemma_pow10_positive((k - 1) as nat);
    }
}

/// How many digit bytes a number can have.
pub proof fn lemma_decimal_digits_len(n: u32)
    ensures
        1 <= spec_decimal_digits(n).len() <= 10,
    decreases n,
{
    assert(spec_pow10(10) == 10000000000) by {
        reveal_with_fuel(spec_pow10, 11);
    }
    lemma_digits_len_pow(n, 10);
    if n >= 10 {
        lemma_decimal_digits_len(n / 10);
    }
}

/// The text of the frame-rate overlay: the digits and the letters fps.
pub open spec fn spec_fps_text(fps: u32) -> Seq<u8> {
    spec_decimal_digits(fps) + seq![102u8, 112u8, 115u8]
}

/// What the frame-rate overlay leaves in the buffer: a yellow filled
/// box sized to the text, its black outline, and the text itself.
pub open spec fn spec_fps_pixels(c: Canvas, fps: u32) -> Seq<u32> {
    let text = spec_fps_text(fps);
    let wpx = 6 * text.len() as int + 8;
    let ca = Canvas {
        paint: (Paint { color: 0xFFFFFF00u32, style: PaintStyle::Fill, ..c.paint }),
        ..c
    };
    let p1 = spec_painted(
        c.pixels@,
        c.width as int,
        spec_rect_shape(ca, 2, 2, wpx, 15),
        0xFFFFFF00u32,
    );
    let cb = Canvas {
        paint: (Paint {
            color: 0xFF000000u32,
            style: PaintStyle::Stroke,
            stroke_width: 2u32,
            ..c.paint
        }),
        ..c
    };
    let p2 = spec_painted(p1, c.width as int, spec_rect_shape(cb, 2, 2, wpx, 15), 0xFF000000u32);
    spec_text_painted(
        p2,
        c.width as int,
        c.spec_device_x(6),
        c.spec_device_y(6),
        text,
        0,
        0xFF000000u32,
    )
}

impl Canvas {
    /// Overlays the frame-rate diagnostics in the top-left corner: a
    /// yellow box with a black outline and the rate text.  The paint is
    /// left black, filling, with a hairline stroke.
    pub fn draw_fps(&mut self, fps: u32)
        requires
            old(self).wf(),
        ensures
            final(self).wf(),
            final(self).pixels@ == spec_fps_pixels(*old(self), fps),
            final(self).paint == (Paint {
                color: 0xFF000000u32,
                style: PaintStyle::Fill,
                stroke_width: 1u32,
                anti_alias: old(self).paint.anti_alias,
            }),
            final(self).path@ == old(self).path@,
            final(self).width == old(self).width,
            final(self).height == old(self).height,
            final(self).tx == old(self).tx,
            final(self).ty == old(self).ty,
            final(self).sx_milli == old(self).sx_milli,
            final(self).sy_milli == old(self).sy_milli,
    {
        let mut text: Vec<u8> = decimal_digits(fps);
        text.push(102);
        text.push(112);
        text.push(115);
        proof {
            lemma_decimal_digits_len(fps);
            assert(text@ =~= spec_fps_text(fps));
        }
        let wpx: i32 = 6 * (text.len() as i32) + 8;
        self.set_paint_colour(0xFFFFFF00);
        self.set_paint_style(PaintStyle::Fill);
        self.draw_rect(2, 2, wpx, 15);
        self.set_paint_colour(0xFF000000);
        self.set_line_width(2);
        self.set_paint_style(PaintStyle::Stroke);
        self.draw_rect(2, 2, wpx, 15);
        self.set_line_width(1);
        self.set_paint_style(PaintStyle::Fill);
        self.draw_text(6, 6, &text);
    }
}

/// The pixels after blitting a decoded image into a device rectangle,
/// sampling nearest neighbour.
pub open spec fn spec_blit(
    p: Seq<u32>,
    w: int,
    rx: int,
    ry: int,
    rw: int,
    rh: int,
    src: Seq<u32>,
    sw: int,
    sh: int,
) -> Seq<u32> {
    Seq::new(p.len(), |i: int| {
        let px = i % w;
        let py = i / w;
        if w > 0 && rw >= 1 && rh >= 1 && sw >= 1 && sh >= 1 && src.len() == sw * sh
            && spec_in_rect(px, py, rx, ry, rw, rh) {
            src[((py - ry) * sh / rh) * sw + ((px - rx) * sw / rw)]
        } else {
            p[i]
        }
    })
}

/// What an image call leaves in the buffer.
pub open spec fn spec_image_result(
    c: Canvas,
    x: int,
    y: int,
    w: int,
    h: int,
    src: Seq<u32>,
    sw: int,
    sh: int,
) -> Seq<u32> {
    spec_blit(
        c.pixels@,
        c.width as int,
        c.spec_device_x(x),
        c.spec_device_y(y),
        c.spec_device_w(w),
        c.spec_device_h(h),
        src,
        sw,
        sh,
    )
}

impl Canvas {
    /// Draws decoded image pixels into a rectangle, scaled nearest
    /// neighbour.  Decoding itself happens outside the library; the
    /// canvas only places the handed-over pixel words.
    pub fn draw_image(
        &mut self,
        x: i32,
        y: i32,
        w: i32,
        h: i32,
        data: &Vec<u32>,
        data_width: u32,
        data_height: u32,
    )
        requires
            old(self).wf(),
            data@.len() == data_width * data_height,
        ensures
            final(self).wf(),
            old(self).same_state(*final(self)),
            final(self).pixels@ == spec_image_result(
                *old(self),
                x as int,
                y as int,
                w as int,
                h as int,
                data@,
                data_width as int,
                data_height as int,
            ),
    {
        let rx: i64 = self.device_x(x);
        let ry: i64 = self.device_y(y);
        let rw: i64 = self.device_w(w);
        let rh: i64 = self.device_h(h);
        let cw: u32 = self.width;
        let n: usize = self.pixels.len();
        let dn: usize = data.len();
        let ghost target = spec_image_result(
            *old(self),
            x as int,
            y as int,
            w as int,
            h as int,
            data@,
            data_width as int,
            data_height as int,
        );
        let mut i: usize = 0;
        let mut px: u64 = 0;
        let mut py: u64 = 0;
        while i < n
            invariant
                0 <= i <= n,
                cw == self.width,
                n == self.pixels@.len(),
                -DEVICE_CAP <= rx <= DEVICE_CAP,
                -DEVICE_CAP <= ry <= DEVICE_CAP,
                -DEVICE_CAP <= rw <= DEVICE_CAP,
                -DEVICE_CAP <= rh <= DEVICE_CAP,
                rx == old(self).spec_device_x(x as int),
                ry == old(self).spec_device_y(y as int),
                rw == old(self).spec_device_w(w as int),
                rh == old(self).spec_device_h(h as int),
                data@.len() == data_width * data_height,
                dn == data@.len(),
                self.wf(),
                old(self).same_state(*self),
                self.pixels@.len() == old(self).pixels@.len(),
                target == spec_image_result(
                    *old(self),
                    x as int,
                    y as int,
                    w as int,
                    h as int,
                    data@,
                    data_width as int,
                    data_height as int,
                ),
                i == py * cw + px,
                0 <= px < (if cw > 0 {
                    cw as int
                } else {
                    1int
                }),
                0 <= py <= 0xFFFFFFFFu64,
                forall|j: int| 0 <= j < i ==> self.pixels@[j] == target[j],
                forall|j: int| i <= j < n ==> self.pixels@[j] == old(self).pixels@[j],
            decreases n - i,
        {
            proof {
                assert(cw > 0) by (nonlinear_arith)
                    requires
                        i < n,
                        n == cw * self.height,
                        i == py * cw + px,
                        px >= 0,
                        py >= 0,
                ;
                vstd::arithmetic::div_mod::lemma_fundamental_div_mod_converse(
                    i as int,
                    cw as int,
                    py as int,
                    px as int,
                );
                assert(py < self.height) by (nonlinear_arith)
                    requires
                        i < n,
                        n == cw * self.height,
                        i == py * cw + px,
                        0 <= px < cw,
                        py >= 0,
                ;
            }
            let ipx: i64 = px as i64;
            let ipy: i64 = py as i64;
            if rw >= 1 && rh >= 1 && data_width >= 1 && data_height >= 1
                && in_rect(ipx, ipy, rx, ry, rw, rh) {
                let dx: i64 = ipx - rx;
                let dy: i64 = ipy - ry;
                proof {
                    assert(dx * data_width < rw * data_width && 0 <= dx * data_width
                        && dy * data_height < rh * data_height && 0 <= dy * data_height
                        && rw * data_width <= 0x40000000i64 * 0x100000000i64
                        && rh * data_height <= 0x40000000i64 * 0x100000000i64)
                        by (nonlinear_arith)
                        requires
                            0 <= dx < rw,
                            0 <= dy < rh,
                            1 <= data_width < 0x100000000i64,
                            1 <= data_height < 0x100000000i64,
                            1 <= rw <= 0x40000000i64,
                            1 <= rh <= 0x40000000i64,
                    ;
                    vstd::arithmetic::div_mod::lemma_multiply_divide_lt(
                        dx * data_width,
                        rw as int,
                        data_width as int,
                    );
                    vstd::arithmetic::div_mod::lemma_multiply_divide_lt(
                        dy * data_height,
                        rh as int,
                        data_height as int,
                    );
                }
                let sx: u64 = ((dx as u64) * (data_width as u64)) / (rw as u64);
                let sy: u64 = ((dy as u64) * (data_height as u64)) / (rh as u64);
                proof {
                    assert(sy * data_width + sx < data_width * data_height)
                        by (nonlinear_arith)
                        requires
                            sx < data_width,
                            sy < data_height,
                    ;
                }
                let si: usize = (sy as usize) * (data_width as usize) + (sx as usize);
                let sample: u32 = data[si];
                self.pixels.set(i, sample);
            }
            i = i + 1;
            if px + 1 == cw as u64 {
                proof {
                    assert((py + 1) * cw == py * cw + cw) by (nonlinear_arith);
                }
                px = 0;
                py = py + 1;
            } else {
                px = px + 1;
            }
        }
        proof {
            assert(self.pixels@ =~= target);
        }
    }
}


/// What the demonstration scene leaves in the buffer: the grey-cleared
/// background, a yellow face circle, two black eye lines, a stroked
/// mouth curve, and a blue sliding bar.
pub open spec fn spec_test_scene_pixels(c: Canvas, shift: int) -> Seq<u32> {
    let w = c.width as int;
    let grey = Seq::new(c.pixels@.len(), |i: int| 0xFF707070u32);
    let cy = Canvas { paint: (Paint { color: 0xFFFFFF00u32, ..c.paint }), ..c };
    let p1 = spec_painted(grey, w, spec_circle_shape(cy, 500, 50, 20), 0xFFFFFF00u32);
    let half = spec_stroke_half(c.paint.stroke_width);
    let p2 = spec_line_painted(
        p1,
        w,
        c.spec_device_x(495),
        c.spec_device_y(45),
        c.spec_device_x(495),
        c.spec_device_y(55),
        spec_line_steps(
            c.spec_device_x(495),
            c.spec_device_y(45),
            c.spec_device_x(495),
            c.spec_device_y(55),
        ),
        half,
        0xFF000000u32,
        0,
    );
    let p3 = spec_line_painted(
        p2,
        w,
        c.spec_device_x(505),
        c.spec_device_y(45),
        c.spec_device_x(505),
        c.spec_device_y(55),
        spec_line_steps(
            c.spec_device_x(505),
            c.spec_device_y(45),
            c.spec_device_x(505),
            c.spec_device_y(55),
        ),
        half,
        0xFF000000u32,
        0,
    );
    let cr = Canvas { paint: (Paint { color: 0xFF000000u32, ..c.paint }), ..c };
    let p4 = spec_render_path_on(p3, cr);
    let mouth = seq![
        PathSeg::MoveTo { x: 495, y: 60 },
        PathSeg::CubicTo { cx1: 498, cy1: 61, cx2: 502, cy2: 61, x: 505, y: 60 },
    ];
    let p5 = spec_stroked_pts(p4, w, spec_flatten_segs(c, mouth), 1, half, 0xFF000000u32);
    let cb = Canvas {
        paint: (Paint { color: 0xFF0000FFu32, style: PaintStyle::Fill, ..c.paint }),
        ..c
    };
    spec_painted(p5, w, spec_rect_shape(cb, shift, 50, 150, 20), 0xFF0000FFu32)
}

impl Canvas {
    /// Draws the demonstration scene: a small face and a bar whose
    /// horizontal position follows the argument.  Whatever path was
    /// recorded before is rasterized when the mouth subpath starts, as
    /// with any other path start.
    pub fn draw_test_scene(&mut self, shift: u32)
        requires
            old(self).wf(),
            shift <= 0x7FFFFFFF,
        ensures
            final(self).wf(),
            final(self).pixels@ == spec_test_scene_pixels(*old(self), shift as int),
            final(self).paint == (Paint {
                color: 0xFF0000FFu32,
                style: PaintStyle::Fill,
                ..old(self).paint
            }),
            final(self).path@ == seq![
                PathSeg::MoveTo { x: 495, y: 60 },
                PathSeg::CubicTo { cx1: 498, cy1: 61, cx2: 502, cy2: 61, x: 505, y: 60 },
            ],
            final(self).width == old(self).width,
            final(self).height == old(self).height,
            final(self).tx == old(self).tx,
            final(self).ty == old(self).ty,
            final(self).sx_milli == old(self).sx_milli,
            final(self).sy_milli == old(self).sy_milli,
    {
        self.clear(0xFF707070);
        proof {
            assert(self.pixels@ =~= Seq::new(
                old(self).pixels@.len(),
                |i: int| 0xFF707070u32,
            ));
        }
        self.set_paint_colour(0xFFFFFF00);
        self.draw_circle(500, 50, 20);
        self.set_paint_colour(0xFF000000);
        self.draw_line(495, 45, 495, 55);
        self.draw_line(505, 45, 505, 55);
        self.move_to(495, 60);
        self.bezier_curve_to(498, 61, 502, 61, 505, 60);
        proof {
            assert(self.path@ =~= seq![
                PathSeg::MoveTo { x: 495, y: 60 },
                PathSeg::CubicTo { cx1: 498, cy1: 61, cx2: 502, cy2: 61, x: 505, y: 60 },
            ]);
        }
        self.draw_path_stroke();
        self.set_paint_style(PaintStyle::Fill);
        self.set_paint_colour(0xFF0000FF);
        self.draw_rect(shift as i32, 50, 150, 20);
    }
}

} // verus!
