//! The raster surfaces: a width x height RGBA pixel grid, row-major with the
//! origin at the top left, four bytes per pixel, and the rectangular snapshots
//! that the crop tool captures from it.

use vstd::prelude::*;

verus! {

/// One RGBA pixel of `data`, read at pixel index `p` (four bytes per pixel).
pub open spec fn pix(data: Seq<u8>, p: int) -> (u8, u8, u8, u8) {
    (data[4 * p], data[4 * p + 1], data[4 * p + 2], data[4 * p + 3])
}

/// The pixel in column `x` of row `y` of a row-major byte array of width `w`.
pub open spec fn grid_pix(data: Seq<u8>, w: int, x: int, y: int) -> (u8, u8, u8, u8) {
    pix(data, y * w + x)
}

/// A mutable RGBA pixel surface.
///
/// Two of these exist per drawing session: the persistent buffer that holds
/// the committed artwork and the overlay buffer that holds transient previews.
#[derive(Clone, Debug, PartialEq, Eq)]
pub struct RasterBuffer {
    pub width: u32,
    pub height: u32,
    pub data: Vec<u8>,
}

/// An immutable rectangular copy of pixels captured from a `RasterBuffer`.
#[derive(Clone, Debug, PartialEq, Eq)]
pub struct Snapshot {
    pub width: u32,
    pub height: u32,
    pub data: Vec<u8>,
}

/// Why a rectangular pixel read was refused.
#[derive(Clone, Copy, Debug, PartialEq, Eq, Structural)]
pub enum RectError {
    /// The requested rectangle has zero width or zero height.
    Empty,
    /// The requested rectangle is not contained in the buffer.
    OutOfBounds,
}

impl RasterBuffer {
    /// The byte array covers exactly width * height pixels.
    pub open spec fn wf(self) -> bool {
        self.data@.len() == self.width * self.height * 4
    }

    /// The pixel in column `x` of row `y`.
    pub open spec fn pixel_at(self, x: int, y: int) -> (u8, u8, u8, u8) {
        pix(self.data@, y * self.width + x)
    }

    /// Every byte of the surface is zero (fully transparent black).
    pub open spec fn is_blank(self) -> bool {
        forall|i: int| 0 <= i < self.data@.len() ==> self.data@[i] == 0
    }

    /// A fresh surface with every pixel set to `color`.
    pub fn new_filled(width: u32, height: u32, color: (u8, u8, u8, u8)) -> (buf: RasterBuffer)
        requires
            width * height * 4 <= usize::MAX,
        ensures
            buf.wf(),
            buf.width == width,
            buf.height == height,
            forall|p: int| 0 <= p < width * height ==> pix(buf.data@, p) == color,
    {
        let n: usize = (width as usize) * (height as usize);
        let mut data: Vec<u8> = Vec::new();
        let mut i: usize = 0;
        while i < n
            invariant
                i <= n,
                n == width * height,
                width * height * 4 <= usize::MAX,
                data@.len() == 4 * i,
                forall|p: int| 0 <= p < i ==> pix(data@, p) == color,
            decreases n - i,
        {
            let ghost pre = data@;
            data.push(color.0);
            data.push(color.1);
            data.push(color.2);
            data.push(color.3);
            proof {
                assert(data@.len() == 4 * (i + 1));
                assert forall|p: int| 0 <= p < i + 1 implies pix(data@, p) == color by {
                    if p < i {
                        assert(data@[4 * p] == pre[4 * p]);
                        assert(data@[4 * p + 1] == pre[4 * p + 1]);
                        assert(data@[4 * p + 2] == pre[4 * p + 2]);
                        assert(data@[4 * p + 3] == pre[4 * p + 3]);
                        assert(pix(pre, p) == color);
                    } else {
                        assert(data@[4 * (i as int)] == color.0);
                        assert(data@[4 * (i as int) + 1] == color.1);
                        assert(data@[4 * (i as int) + 2] == color.2);
                        assert(data@[4 * (i as int) + 3] == color.3);
                    }
                }
            }
            i = i + 1;
        }
        RasterBuffer { width, height, data }
    }

    /// Read the pixel at pixel index `p`.
    pub(crate) fn get_px(&self, p: usize) -> (c: (u8, u8, u8, u8))
        requires
            self.wf(),
            p < self.width * self.height,
        ensures
            c == pix(self.data@, p as int),
    {
        let n: usize = self.data.len();
        proof {
            assert(4 * p + 4 <= n);
        }
        let i: usize = 4 * p;
        (self.data[i], self.data[i + 1], self.data[i + 2], self.data[i + 3])
    }

    /// Overwrite the pixel at pixel index `p`, leaving every other pixel as it was.
    pub(crate) fn set_px(&mut self, p: usize, c: (u8, u8, u8, u8))
        requires
            old(self).wf(),
            p < old(self).width * old(self).height,
        ensures
            final(self).wf(),
            final(self).width == old(self).width,
            final(self).height == old(self).height,
            pix(final(self).data@, p as int) == c,
            forall|q: int|
                0 <= q < old(self).width * old(self).height && q != p ==> pix(
                    final(self).data@,
                    q,
                ) == pix(old(self).data@, q),
    {
        let n: usize = self.data.len();
        proof {
            assert(4 * p + 4 <= n);
        }
        let i: usize = 4 * p;
        self.data.set(i, c.0);
        self.data.set(i + 1, c.1);
        self.data.set(i + 2, c.2);
        self.data.set(i + 3, c.3);
    }

    /// Reset every byte of the surface to zero.
    pub fn clear(&mut self)
        requires
            old(self).wf(),
        ensures
            final(self).wf(),
            final(self).width == old(self).width,
            final(self).height == old(self).height,
            final(self).is_blank(),
    {
        let n: usize = self.data.len();
        self.data.clear();
        let mut i: usize = 0;
        while i < n
            invariant
                i <= n,
                self.data@.len() == i,
                self.width == old(self).width,
                self.height == old(self).height,
                n == old(self).data@.len(),
                forall|k: int| 0 <= k < i ==> self.data@[k] == 0,
            decreases n - i,
        {
            self.data.push(0);
            i = i + 1;
        }
    }

    /// Read one pixel, or `None` when the coordinate lies outside the surface.
    pub fn get_pixel(&self, x: u32, y: u32) -> (c: Option<(u8, u8, u8, u8)>)
        requires
            self.wf(),
        ensures
            c matches Some(v) ==> x < self.width && y < self.height && v == self.pixel_at(
                x as int,
                y as int,
            ),
            c is None <==> x >= self.width || y >= self.height,
    {
        if x < self.width && y < self.height {
            let n: usize = self.data.len();
            proof {
                assert((y as int) * (self.width as int) + (x as int) < (self.width as int) * (
                self.height as int)) by (nonlinear_arith)
                    requires
                        x < self.width,
                        y < self.height,
                ;
                assert(self.width * self.height <= n);
            }
            let p: usize = (y as usize) * (self.width as usize) + (x as usize);
            Some(self.get_px(p))
        } else {
            None
        }
    }

    /// A snapshot of the whole surface.
    pub fn snapshot(&self) -> (s: Snapshot)
        ensures
            s.width == self.width,
            s.height == self.height,
            s.data@ == self.data@,
    {
        let data = self.data.clone();
        proof {
            assert(data@ =~= self.data@);
        }
        Snapshot { width: self.width, height: self.height, data }
    }

    /// Paint the rectangle of size `w` x `h` whose top-left corner is `(x, y)`
    /// with `color`, leaving every pixel outside the rectangle untouched.
    pub fn fill_rect(&mut self, x: u32, y: u32, w: u32, h: u32, color: (u8, u8, u8, u8))
        requires
            old(self).wf(),
            x + w <= old(self).width,
            y + h <= old(self).height,
        ensures
            final(self).wf(),
            final(self).width == old(self).width,
            final(self).height == old(self).height,
            forall|px: int, py: int|
                0 <= px < old(self).width && 0 <= py < old(self).height ==> final(self).pixel_at(
                    px,
                    py,
                ) == (if x <= px < x + w && y <= py < y + h {
                    color
                } else {
                    old(self).pixel_at(px, py)
                }),
    {
        let mut py: u32 = y;
        while py < y + h
            invariant
                self.wf(),
                self.width == old(self).width,
                self.height == old(self).height,
                x + w <= self.width,
                y + h <= self.height,
                y <= py <= y + h,
                forall|px2: int, py2: int|
                    0 <= px2 < self.width && 0 <= py2 < self.height ==> self.pixel_at(px2, py2)
                        == (if x <= px2 < x + w && y <= py2 && py2 < py {
                        color
                    } else {
                        old(self).pixel_at(px2, py2)
                    }),
            decreases y + h - py,
        {
            let mut px: u32 = x;
            while px < x + w
                invariant
                    self.wf(),
                    self.width == old(self).width,
                    self.height == old(self).height,
                    x + w <= self.width,
                    y + h <= self.height,
                    y <= py < y + h,
                    x <= px <= x + w,
                    forall|px2: int, py2: int|
                        0 <= px2 < self.width && 0 <= py2 < self.height ==> self.pixel_at(px2, py2)
                            == (if x <= px2 < x + w && y <= py2 && (py2 < py || (py2 == py && px2
                            < px)) {
                            color
                        } else {
                            old(self).pixel_at(px2, py2)
                        }),
                decreases x + w - px,
            {
                let n: usize = self.data.len();
                proof {
                    lemma_row_major_bound(self.width as int, self.height as int, px as int, py as int);
                }
                let dp: usize = (py as usize) * (self.width as usize) + (px as usize);
                let ghost pre = *self;
                self.set_px(dp, color);
                proof {
                    assert forall|px2: int, py2: int|
                        0 <= px2 < self.width && 0 <= py2 < self.height implies self.pixel_at(
                        px2,
                        py2,
                    ) == (if x <= px2 < x + w && y <= py2 && (py2 < py || (py2 == py && px2 < px
                        + 1)) {
                        color
                    } else {
                        old(self).pixel_at(px2, py2)
                    }) by {
                        lemma_row_major_bound(self.width as int, self.height as int, px2, py2);
                        let q = py2 * self.width + px2;
                        assert(pre.pixel_at(px2, py2) == pix(pre.data@, q));
                        assert(self.pixel_at(px2, py2) == pix(self.data@, q));
                        if q == dp {
                            lemma_row_major_injective(
                                self.width as int,
                                px2,
                                py2,
                                px as int,
                                py as int,
                            );
                            assert(pix(self.data@, dp as int) == color);
                        } else {
                            assert(pix(self.data@, q) == pix(pre.data@, q));
                        }
                    }
                }
                px = px + 1;
            }
            py = py + 1;
        }
    }
}

/// Capture the rectangle of size `w` x `h` whose top-left corner is `(x, y)`
/// from `buffer` as a snapshot.  Zero-sized requests and rectangles that are
/// not fully contained in the buffer are refused.
pub fn get_content_inside_rect(buffer: &RasterBuffer, x: i32, y: i32, w: u32, h: u32) -> (r: Result<
    Snapshot,
    RectError,
>)
    requires
        buffer.wf(),
    ensures
        r is Ok <==> (w > 0 && h > 0 && 0 <= x && 0 <= y && x + w <= buffer.width && y + h
            <= buffer.height),
        r == Err::<Snapshot, RectError>(RectError::Empty) <==> (w == 0 || h == 0),
        r == Err::<Snapshot, RectError>(RectError::OutOfBounds) <==> (w > 0 && h > 0 && !(0 <= x
            && 0 <= y && x + w <= buffer.width && y + h <= buffer.height)),
        r matches Ok(s) ==> {
            &&& s.wf()
            &&& s.width == w
            &&& s.height == h
            &&& 0 <= x && 0 <= y && x + w <= buffer.width && y + h <= buffer.height
            &&& forall|j: int, i: int|
                0 <= j < w && 0 <= i < h ==> s.pixel_at(j, i) == buffer.pixel_at(x + j, y + i)
        },
{
    if w == 0 || h == 0 {
        return Err(RectError::Empty);
    }
    if x < 0 || y < 0 {
        return Err(RectError::OutOfBounds);
    }
    if (x as i64) + (w as i64) > (buffer.width as i64) || (y as i64) + (h as i64) > (
    buffer.height as i64) {
        return Err(RectError::OutOfBounds);
    }
    let xs: u32 = x as u32;
    let ys: u32 = y as u32;
    let mut data: Vec<u8> = Vec::new();
    let mut i: u32 = 0;
    while i < h
        invariant
            buffer.wf(),
            xs == x,
            ys == y,
            x + w <= buffer.width,
            y + h <= buffer.height,
            0 < w,
            0 < h,
            i <= h,
            data@.len() == 4 * (i * w),
            forall|i2: int, j2: int|
                0 <= i2 < i && 0 <= j2 < w ==> grid_pix(data@, w as int, j2, i2)
                    == buffer.pixel_at(x + j2, y + i2),
        decreases h - i,
    {
        let mut j: u32 = 0;
        while j < w
            invariant
                buffer.wf(),
                xs == x,
                ys == y,
                x + w <= buffer.width,
                y + h <= buffer.height,
                0 < w,
                0 < h,
                i < h,
                j <= w,
                data@.len() == 4 * (i * w + j),
                forall|i2: int, j2: int|
                    0 <= i2 <= i && 0 <= j2 < w && (i2 < i || j2 < j) ==> grid_pix(
                        data@,
                        w as int,
                        j2,
                        i2,
                    ) == buffer.pixel_at(x + j2, y + i2),
            decreases w - j,
        {
            let n: usize = buffer.data.len();
            proof {
                lemma_row_major_bound(
                    buffer.width as int,
                    buffer.height as int,
                    x + j,
                    y + i,
                );
            }
            let sp: usize = ((ys + i) as usize) * (buffer.width as usize) + ((xs + j) as usize);
            let c: (u8, u8, u8, u8) = buffer.get_px(sp);
            let ghost pre = data@;
            data.push(c.0);
            data.push(c.1);
            data.push(c.2);
            data.push(c.3);
            proof {
                let np = i * w + j;
                assert(data@.len() == 4 * (np + 1));
                assert forall|i2: int, j2: int|
                    0 <= i2 <= i && 0 <= j2 < w && (i2 < i || j2 < j + 1) implies grid_pix(
                    data@,
                    w as int,
                    j2,
                    i2,
                ) == buffer.pixel_at(x + j2, y + i2) by {
                    let q = i2 * w + j2;
                    assert(grid_pix(data@, w as int, j2, i2) == pix(data@, q));
                    assert(grid_pix(pre, w as int, j2, i2) == pix(pre, q));
                    if i2 == i && j2 == j {
                        assert(data@[4 * np] == c.0);
                        assert(data@[4 * np + 1] == c.1);
                        assert(data@[4 * np + 2] == c.2);
                        assert(data@[4 * np + 3] == c.3);
                        assert(pix(data@, np) == c);
                    } else {
                        if i2 < i {
                            lemma_row_major_order(w as int, j2, i2, j as int, i as int);
                        }
                        assert(0 <= q < np);
                        assert(data@[4 * q] == pre[4 * q]);
                        assert(data@[4 * q + 1] == pre[4 * q + 1]);
                        assert(data@[4 * q + 2] == pre[4 * q + 2]);
                        assert(data@[4 * q + 3] == pre[4 * q + 3]);
                    }
                }
            }
            j = j + 1;
        }
        proof {
            assert((i + 1) * (w as int) == i * (w as int) + w) by (nonlinear_arith);
        }
        i = i + 1;
    }
    let snap = Snapshot { width: w, height: h, data };
    proof {
        assert((h as int) * (w as int) == (w as int) * (h as int)) by (nonlinear_arith);
        assert(snap.data@.len() == 4 * (h * w));
        assert forall|j: int, i: int| 0 <= j < w && 0 <= i < h implies snap.pixel_at(j, i)
            == buffer.pixel_at(x + j, y + i) by {
            assert(snap.pixel_at(j, i) == grid_pix(snap.data@, w as int, j, i));
        }
    }
    Ok(snap)
}

impl Snapshot {
    /// The byte array covers exactly width * height pixels.
    pub open spec fn wf(self) -> bool {
        self.data@.len() == self.width * self.height * 4
    }

    /// The pixel in column `x` of row `y`.
    pub open spec fn pixel_at(self, x: int, y: int) -> (u8, u8, u8, u8) {
        pix(self.data@, y * self.width + x)
    }

    /// Read the pixel at pixel index `p`.
    pub(crate) fn get_px(&self, p: usize) -> (c: (u8, u8, u8, u8))
        requires
            self.wf(),
            p < self.width * self.height,
        ensures
            c == pix(self.data@, p as int),
    {
        let n: usize = self.data.len();
        proof {
            assert(4 * p + 4 <= n);
        }
        let i: usize = 4 * p;
        (self.data[i], self.data[i + 1], self.data[i + 2], self.data[i + 3])
    }

    /// Read one pixel, or `None` when the coordinate lies outside the snapshot.
    pub fn get_pixel(&self, x: u32, y: u32) -> (c: Option<(u8, u8, u8, u8)>)
        requires
            self.wf(),
        ensures
            c matches Some(v) ==> x < self.width && y < self.height && v == self.pixel_at(
                x as int,
                y as int,
            ),
            c is None <==> x >= self.width || y >= self.height,
    {
        if x < self.width && y < self.height {
            let n: usize = self.data.len();
            proof {
                assert((y as int) * (self.width as int) + (x as int) < (self.width as int) * (
                self.height as int)) by (nonlinear_arith)
                    requires
                        x < self.width,
                        y < self.height,
                ;
                assert(self.width * self.height <= n);
            }
            let p: usize = (y as usize) * (self.width as usize) + (x as usize);
            Some(self.get_px(p))
        } else {
            None
        }
    }

    /// Write this snapshot onto `dst` with its top-left corner at `(x, y)`,
    /// clipping whatever falls outside the destination surface.
    pub fn put_onto(&self, dst: &mut RasterBuffer, x: i32, y: i32)
        requires
            old(dst).wf(),
            self.wf(),
        ensures
            final(dst).wf(),
            final(dst).width == old(dst).width,
            final(dst).height == old(dst).height,
            forall|px: int, py: int|
                0 <= px < old(dst).width && 0 <= py < old(dst).height ==> final(dst).pixel_at(
                    px,
                    py,
                ) == (if x <= px < x + self.width && y <= py < y + self.height {
                    self.pixel_at(px - x, py - y)
                } else {
                    old(dst).pixel_at(px, py)
                }),
    {
        let ws: i64 = dst.width as i64;
        let hs: i64 = dst.height as i64;
        let xs: i64 = x as i64;
        let ys: i64 = y as i64;
        let x0: i64 = if xs < 0 {
            0
        } else {
            xs
        };
        let y0: i64 = if ys < 0 {
            0
        } else {
            ys
        };
        let xe: i64 = xs + (self.width as i64);
        let ye: i64 = ys + (self.height as i64);
        let x1: i64 = if xe < ws {
            xe
        } else {
            ws
        };
        let y1: i64 = if ye < hs {
            ye
        } else {
            hs
        };
        let mut py: i64 = y0;
        while py < y1
            invariant
                dst.wf(),
                self.wf(),
                dst.width == old(dst).width,
                dst.height == old(dst).height,
                ws == dst.width,
                hs == dst.height,
                xs == x,
                ys == y,
                x0 == if xs < 0 { 0int } else { xs as int },
                y0 == if ys < 0 { 0int } else { ys as int },
                x1 == if xs + self.width < ws { xs + self.width } else { ws as int },
                y1 == if ys + self.height < hs { ys + self.height } else { hs as int },
                y0 <= py,
                y1 <= hs,
                py <= if y1 < y0 { y0 } else { y1 },
                forall|px2: int, py2: int|
                    0 <= px2 < dst.width && 0 <= py2 < dst.height ==> dst.pixel_at(px2, py2) == (
                    if x0 <= px2 < x1 && y0 <= py2 && py2 < py {
                        self.pixel_at(px2 - x, py2 - y)
                    } else {
                        old(dst).pixel_at(px2, py2)
                    }),
            decreases y1 - py,
        {
            let mut px: i64 = x0;
            while px < x1
                invariant
                    dst.wf(),
                    self.wf(),
                    dst.width == old(dst).width,
                    dst.height == old(dst).height,
                    ws == dst.width,
                    hs == dst.height,
                    xs == x,
                    ys == y,
                    x0 == if xs < 0 { 0int } else { xs as int },
                    y0 == if ys < 0 { 0int } else { ys as int },
                    x1 == if xs + self.width < ws { xs + self.width } else { ws as int },
                    y1 == if ys + self.height < hs { ys + self.height } else { hs as int },
                    y0 <= py < y1,
                    x0 <= px,
                    x1 <= ws,
                    px <= if x1 < x0 { x0 } else { x1 },
                    forall|px2: int, py2: int|
                        0 <= px2 < dst.width && 0 <= py2 < dst.height ==> dst.pixel_at(px2, py2)
                            == (if x0 <= px2 < x1 && y0 <= py2 && (py2 < py || (py2 == py && px2
                            < px)) {
                            self.pixel_at(px2 - x, py2 - y)
                        } else {
                            old(dst).pixel_at(px2, py2)
                        }),
                decreases x1 - px,
            {
                let n_src: usize = self.data.len();
                let n_dst: usize = dst.data.len();
                proof {
                    lemma_row_major_bound(
                        self.width as int,
                        self.height as int,
                        px - xs,
                        py - ys,
                    );
                    lemma_row_major_bound(dst.width as int, dst.height as int, px as int, py as int);
                }
                let sp: usize = ((py - ys) as usize) * (self.width as usize) + ((px - xs) as usize);
                let dp: usize = (py as usize) * (dst.width as usize) + (px as usize);
                let c: (u8, u8, u8, u8) = self.get_px(sp);
                let ghost pre = *dst;
                dst.set_px(dp, c);
                proof {
                    assert forall|px2: int, py2: int|
                        0 <= px2 < dst.width && 0 <= py2 < dst.height implies dst.pixel_at(
                        px2,
                        py2,
                    ) == (if x0 <= px2 < x1 && y0 <= py2 && (py2 < py || (py2 == py && px2 < px
                        + 1)) {
                        self.pixel_at(px2 - x, py2 - y)
                    } else {
                        old(dst).pixel_at(px2, py2)
                    }) by {
                        lemma_row_major_bound(dst.width as int, dst.height as int, px2, py2);
                        let q = py2 * dst.width + px2;
                        assert(pre.pixel_at(px2, py2) == pix(pre.data@, q));
                        assert(dst.pixel_at(px2, py2) == pix(dst.data@, q));
                        if q == dp {
                            lemma_row_major_injective(
                                dst.width as int,
                                px2,
                                py2,
                                px as int,
                                py as int,
                            );
                            assert(sp as int == (py - y) * self.width + (px - x));
                            assert(pix(dst.data@, dp as int) == c);
                        } else {
                            assert(pix(dst.data@, q) == pix(pre.data@, q));
                        }
                    }
                }
                px = px + 1;
            }
            py = py + 1;
        }
    }

    /// An independent copy with the same dimensions and the same pixels.
    pub fn duplicate(&self) -> (r: Snapshot)
        ensures
            r.width == self.width,
            r.height == self.height,
            r.data@ == self.data@,
    {
        let data = self.data.clone();
        proof {
            assert(data@ =~= self.data@);
        }
        Snapshot { width: self.width, height: self.height, data }
    }
}

/// Every pixel of a blank surface is fully transparent black.
pub(crate) proof fn lemma_blank_pixels(b: RasterBuffer, x: int, y: int)
    requires
        b.wf(),
        b.is_blank(),
        0 <= x < b.width,
        0 <= y < b.height,
    ensures
        b.pixel_at(x, y) == (0u8, 0u8, 0u8, 0u8),
{
    lemma_row_major_bound(b.width as int, b.height as int, x, y);
}

/// In a row-major grid of width `w` and height `h`, the linear index of a
/// coordinate inside the grid lies inside the pixel range.
pub(crate) proof fn lemma_row_major_bound(w: int, h: int, x: int, y: int)
    requires
        0 <= x < w,
        0 <= y < h,
    ensures
        0 <= y * w + x < w * h,
{
    assert(y * w + x < w * h) by (nonlinear_arith)
        requires
            0 <= x < w,
            0 <= y < h,
    ;
    assert(y * w + x >= 0) by (nonlinear_arith)
        requires
            0 <= x,
            0 <= y,
            w > 0,
    ;
}

/// Row-major linear indices respect row order: any cell of an earlier row
/// comes before any cell of a later row.
pub(crate) proof fn lemma_row_major_order(w: int, x1: int, y1: int, x2: int, y2: int)
    requires
        0 <= x1 < w,
        0 <= x2,
        0 <= y1 < y2,
    ensures
        y1 * w + x1 < y2 * w + x2,
{
    assert(y1 * w + x1 < y2 * w + x2) by (nonlinear_arith)
        requires
            0 <= x1 < w,
            0 <= x2,
            0 <= y1 < y2,
    ;
}

/// Row-major linear indices are distinct for distinct in-grid coordinates.
pub(crate) proof fn lemma_row_major_injective(w: int, x1: int, y1: int, x2: int, y2: int)
    requires
        0 <= x1 < w,
        0 <= x2 < w,
        y1 * w + x1 == y2 * w + x2,
    ensures
        x1 == x2,
        y1 == y2,
{
    assert(x1 == x2 && y1 == y2) by (nonlinear_arith)
        requires
            0 <= x1 < w,
            0 <= x2 < w,
            y1 * w + x1 == y2 * w + x2,
    ;
}

} // verus!
