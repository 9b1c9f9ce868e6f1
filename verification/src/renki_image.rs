//! The image model: float-free pixel planes, forward-rasterizing transform,
//! and alpha "over" compositing.
//!
//! A `RenkiImage` holds three color channel planes and one alpha plane, all
//! of length `width * height`, row-major, with every sample an exact `Rat`.
//! `transform` scatters each source pixel's mapped quadrilateral into the
//! destination, weighting by the exact clipped overlap area that
//! `calc_area_in_pixel` computes; `blend` composites a top image over a
//! bottom one, weighted by the top's alpha plane.

use vstd::prelude::*;
use crate::rat::{Rat, Ratv, rv_wf, rv_valid, rv_int, rv_add, rv_sub, rv_mul, rv_floor};
use crate::geom::{Point, Pointv, pv_wf, ring_view, ring_wf, sv_area, sv_clip, Geom};
use crate::matrix::{Matrix2d, Matv, sv_apply};

verus! {

#[derive(Clone, Debug)]
pub struct RenkiImage {
    pub width: usize,
    pub height: usize,
    pub channels: Vec<Vec<Rat>>,
    pub alpha: Vec<Rat>,
}

/// The image invariant: three channel planes and one alpha plane, each of
/// length `width * height`, all samples well-formed, dimensions bounded.
pub open spec fn img_wf(img: RenkiImage) -> bool {
    &&& img.width <= 0x7fff
    &&& img.height <= 0x7fff
    &&& img.channels@.len() == 3
    &&& (forall|c: int|
        0 <= c < 3 ==> (#[trigger] img.channels@[c])@.len() == img.width * img.height)
    &&& img.alpha@.len() == img.width * img.height
    &&& (forall|c: int, i: int|
        0 <= c < 3 && 0 <= i < img.width * img.height ==> rv_wf(
            #[trigger] img.channels@[c]@[i]@,
        ))
    &&& (forall|i: int| 0 <= i < img.width * img.height ==> rv_wf((#[trigger] img.alpha@[i])@))
}

/// One blended sample: `bottom * (1 - alpha) + top * alpha`.
pub open spec fn sv_blend_px(bottom: Ratv, top: Ratv, alpha: Ratv) -> Ratv {
    rv_add(rv_mul(bottom, rv_sub(rv_int(1), alpha)), rv_mul(top, alpha))
}

/// One encoded sample: the floor of the value clamped to `[0, 255]`;
/// a "no value" sample encodes as 0.
pub open spec fn sv_encode_px(v: Ratv) -> int {
    if !rv_valid(v) {
        0
    } else if rv_floor(v) < 0 {
        0
    } else if rv_floor(v) > 255 {
        255
    } else {
        rv_floor(v)
    }
}

/// Translates `p` by `(-px, -py)`.
pub open spec fn sv_shift(p: Pointv, px: int, py: int) -> Pointv {
    Pointv { x: rv_add(p.x, rv_int(-px)), y: rv_add(p.y, rv_int(-py)) }
}

/// The summed clipped areas of the first `i` fan triangles of the ring,
/// translated so the pixel `(px, py)` becomes the unit square. Triangles
/// whose clipped ring has fewer than 3 points contribute nothing.
pub open spec fn sv_cov_upto(ring: Seq<Pointv>, px: int, py: int, i: int) -> Ratv
    decreases i,
{
    if i <= 0 {
        rv_int(0)
    } else {
        let acc = sv_cov_upto(ring, px, py, i - 1);
        let tri = seq![
            sv_shift(ring[0], px, py),
            sv_shift(ring[i], px, py),
            sv_shift(ring[i + 1], px, py),
        ];
        let clipped = sv_clip(tri);
        if clipped.len() >= 3 {
            rv_add(acc, sv_area(clipped))
        } else {
            acc
        }
    }
}

/// The exact overlap area between the ring and the unit pixel at `(px, py)`.
pub open spec fn sv_pixel_coverage(ring: Seq<Pointv>, px: int, py: int) -> Ratv {
    sv_cov_upto(ring, px, py, ring.len() - 2)
}


/// Ghost model of the four accumulation planes of an image in the making.
pub struct Planesv {
    pub c0: Seq<Ratv>,
    pub c1: Seq<Ratv>,
    pub c2: Seq<Ratv>,
    pub al: Seq<Ratv>,
}

pub open spec fn plane_view(v: Seq<Rat>) -> Seq<Ratv> {
    v.map_values(|r: Rat| r@)
}

/// The planes of a finished image.
pub open spec fn img_planes(img: RenkiImage) -> Planesv {
    Planesv {
        c0: plane_view(img.channels@[0]@),
        c1: plane_view(img.channels@[1]@),
        c2: plane_view(img.channels@[2]@),
        al: plane_view(img.alpha@),
    }
}

pub open spec fn sv_zero_planes(n: int) -> Planesv {
    Planesv {
        c0: Seq::new(n as nat, |i: int| rv_int(0)),
        c1: Seq::new(n as nat, |i: int| rv_int(0)),
        c2: Seq::new(n as nat, |i: int| rv_int(0)),
        al: Seq::new(n as nat, |i: int| rv_int(0)),
    }
}

/// The corners of source pixel `(sx, sy)`'s unit square, mapped through `m`.
pub open spec fn sv_quad(m: Matv, sx: int, sy: int) -> Seq<Pointv> {
    seq![
        sv_apply(m, Pointv { x: rv_int(sx), y: rv_int(sy) }),
        sv_apply(m, Pointv { x: rv_int(sx), y: rv_int(sy + 1) }),
        sv_apply(m, Pointv { x: rv_int(sx + 1), y: rv_int(sy + 1) }),
        sv_apply(m, Pointv { x: rv_int(sx + 1), y: rv_int(sy) }),
    ]
}

/// All four mapped corners are meaningful values.
pub open spec fn sv_quad_ok(quad: Seq<Pointv>) -> bool {
    rv_valid(quad[0].x) && rv_valid(quad[0].y) && rv_valid(quad[1].x) && rv_valid(quad[1].y)
        && rv_valid(quad[2].x) && rv_valid(quad[2].y) && rv_valid(quad[3].x) && rv_valid(
        quad[3].y,
    )
}

pub open spec fn min4i(a: int, b: int, c: int, d: int) -> int {
    let m1 = if b < a { b } else { a };
    let m2 = if c < m1 { c } else { m1 };
    if d < m2 { d } else { m2 }
}

pub open spec fn max4i(a: int, b: int, c: int, d: int) -> int {
    let m1 = if b > a { b } else { a };
    let m2 = if c > m1 { c } else { m1 };
    if d > m2 { d } else { m2 }
}

/// One destination pixel's share of a source pixel: its exact coverage,
/// weighted into the three channels and (times the global alpha) the
/// alpha plane.
pub open spec fn sv_splat_px(
    s: Planesv,
    quad: Seq<Pointv>,
    v0: Ratv,
    v1: Ratv,
    v2: Ratv,
    ga: Ratv,
    w: int,
    xd: int,
    yd: int,
) -> Planesv {
    let cov = sv_pixel_coverage(quad, xd, yd);
    let d = yd * w + xd;
    Planesv {
        c0: s.c0.update(d, rv_add(s.c0[d], rv_mul(v0, cov))),
        c1: s.c1.update(d, rv_add(s.c1[d], rv_mul(v1, cov))),
        c2: s.c2.update(d, rv_add(s.c2[d], rv_mul(v2, cov))),
        al: s.al.update(d, rv_add(s.al[d], rv_mul(cov, ga))),
    }
}

/// Splatting one source pixel into the first `cnt` destination pixels of
/// row `yd`, starting at column `x_lo`.
pub open spec fn sv_splat_row(
    s: Planesv,
    quad: Seq<Pointv>,
    v0: Ratv,
    v1: Ratv,
    v2: Ratv,
    ga: Ratv,
    w: int,
    yd: int,
    x_lo: int,
    cnt: int,
) -> Planesv
    decreases cnt,
{
    if cnt <= 0 {
        s
    } else {
        sv_splat_px(
            sv_splat_row(s, quad, v0, v1, v2, ga, w, yd, x_lo, cnt - 1),
            quad,
            v0,
            v1,
            v2,
            ga,
            w,
            x_lo + cnt - 1,
            yd,
        )
    }
}

/// Splatting one source pixel into the first `y_cnt` rows of its clamped
/// bounding box.
pub open spec fn sv_splat_box(
    s: Planesv,
    quad: Seq<Pointv>,
    v0: Ratv,
    v1: Ratv,
    v2: Ratv,
    ga: Ratv,
    w: int,
    x_lo: int,
    x_cnt: int,
    y_lo: int,
    y_cnt: int,
) -> Planesv
    decreases y_cnt,
{
    if y_cnt <= 0 {
        s
    } else {
        sv_splat_row(
            sv_splat_box(s, quad, v0, v1, v2, ga, w, x_lo, x_cnt, y_lo, y_cnt - 1),
            quad,
            v0,
            v1,
            v2,
            ga,
            w,
            y_lo + y_cnt - 1,
            x_lo,
            x_cnt,
        )
    }
}

/// The whole contribution of source pixel `k` (row-major): its mapped
/// quadrilateral's floor bounding box, clamped to the canvas, each pixel
/// of it weighted by the exact coverage. A source pixel whose mapped
/// corners are not all meaningful contributes nothing.
pub open spec fn sv_splat_src(
    s: Planesv,
    img: RenkiImage,
    m: Matv,
    w: int,
    h: int,
    ga: Ratv,
    k: int,
) -> Planesv {
    let sx = k % (img.width as int);
    let sy = k / (img.width as int);
    let quad = sv_quad(m, sx, sy);
    if sv_quad_ok(quad) {
        let x_min = min4i(
            rv_floor(quad[0].x),
            rv_floor(quad[1].x),
            rv_floor(quad[2].x),
            rv_floor(quad[3].x),
        );
        let x_max = max4i(
            rv_floor(quad[0].x),
            rv_floor(quad[1].x),
            rv_floor(quad[2].x),
            rv_floor(quad[3].x),
        );
        let y_min = min4i(
            rv_floor(quad[0].y),
            rv_floor(quad[1].y),
            rv_floor(quad[2].y),
            rv_floor(quad[3].y),
        );
        let y_max = max4i(
            rv_floor(quad[0].y),
            rv_floor(quad[1].y),
            rv_floor(quad[2].y),
            rv_floor(quad[3].y),
        );
        let y_lo = if y_min < 0 { 0 } else { y_min };
        let y_hi = if y_max > h - 1 { h - 1 } else { y_max };
        let x_lo = if x_min < 0 { 0 } else { x_min };
        let x_hi = if x_max > w - 1 { w - 1 } else { x_max };
        sv_splat_box(
            s,
            quad,
            img.channels@[0]@[k]@,
            img.channels@[1]@[k]@,
            img.channels@[2]@[k]@,
            ga,
            w,
            x_lo,
            x_hi - x_lo + 1,
            y_lo,
            y_hi - y_lo + 1,
        )
    } else {
        s
    }
}

/// The accumulated planes after the first `k` source pixels.
pub open spec fn sv_transform_upto(
    img: RenkiImage,
    m: Matv,
    w: int,
    h: int,
    ga: Ratv,
    k: int,
) -> Planesv
    decreases k,
{
    if k <= 0 {
        sv_zero_planes(w * h)
    } else {
        sv_splat_src(sv_transform_upto(img, m, w, h, ga, k - 1), img, m, w, h, ga, k - 1)
    }
}

/// The forward-rasterized planes of `img` through `m` on a `w x h` canvas.
pub open spec fn sv_transform(img: RenkiImage, m: Matv, w: int, h: int, ga: Ratv) -> Planesv {
    sv_transform_upto(img, m, w, h, ga, (img.width * img.height) as int)
}


impl RenkiImage {
    /// Builds an image from 8-bit interleaved RGB samples, with the alpha
    /// plane fully opaque.
    pub fn from_rgb8(width: usize, height: usize, pixels: &Vec<u8>) -> (r: RenkiImage)
        requires
            width <= 0x7fff,
            height <= 0x7fff,
            pixels@.len() == 3 * width * height,
        ensures
            img_wf(r),
            r.width == width,
            r.height == height,
            forall|c: int, i: int|
                0 <= c < 3 && 0 <= i < width * height ==> #[trigger] r.channels@[c]@[i]@
                    == rv_int(pixels@[3 * i + c] as int),
            forall|i: int| 0 <= i < width * height ==> (#[trigger] r.alpha@[i])@ == rv_int(1),
    {
        proof {
            assert(width * height <= 0x3fff_ffff) by (nonlinear_arith)
                requires
                    width <= 0x7fff,
                    height <= 0x7fff,
            ;
        }
        let channel_size = width * height;
        proof {
            assert(3 * (width * height) == 3 * width * height) by (nonlinear_arith);
        }
        let mut c0: Vec<Rat> = Vec::new();
        let mut c1: Vec<Rat> = Vec::new();
        let mut c2: Vec<Rat> = Vec::new();
        let mut alpha: Vec<Rat> = Vec::new();
        for i in 0..channel_size
            invariant
                channel_size == width * height,
                channel_size <= 0x3fff_ffff,
                pixels@.len() == 3 * width * height,
                pixels@.len() == 3 * channel_size,
                c0@.len() == i && c1@.len() == i && c2@.len() == i && alpha@.len() == i,
                forall|j: int| 0 <= j < i ==> (#[trigger] c0@[j])@ == rv_int(pixels@[3 * j] as int),
                forall|j: int|
                    0 <= j < i ==> (#[trigger] c1@[j])@ == rv_int(pixels@[3 * j + 1] as int),
                forall|j: int|
                    0 <= j < i ==> (#[trigger] c2@[j])@ == rv_int(pixels@[3 * j + 2] as int),
                forall|j: int| 0 <= j < i ==> (#[trigger] alpha@[j])@ == rv_int(1),
                forall|j: int| 0 <= j < i ==> rv_wf((#[trigger] c0@[j])@),
                forall|j: int| 0 <= j < i ==> rv_wf((#[trigger] c1@[j])@),
                forall|j: int| 0 <= j < i ==> rv_wf((#[trigger] c2@[j])@),
                forall|j: int| 0 <= j < i ==> rv_wf((#[trigger] alpha@[j])@),
        {
            c0.push(Rat::from_i64(pixels[3 * i] as i64));
            c1.push(Rat::from_i64(pixels[3 * i + 1] as i64));
            c2.push(Rat::from_i64(pixels[3 * i + 2] as i64));
            alpha.push(Rat::one());
        }
        let mut channels: Vec<Vec<Rat>> = Vec::new();
        channels.push(c0);
        channels.push(c1);
        channels.push(c2);
        RenkiImage { width, height, channels, alpha }
    }

    /// Encodes the channel planes as interleaved 8-bit RGB, clamping each
    /// sample to `[0, 255]`; the alpha plane is not encoded.
    pub fn to_rgb8(&self) -> (r: Vec<u8>)
        requires
            img_wf(*self),
        ensures
            r@.len() == 3 * self.width * self.height,
            forall|c: int, i: int|
                0 <= c < 3 && 0 <= i < self.width * self.height ==> r@[3 * i + c] as int
                    == sv_encode_px(#[trigger] self.channels@[c]@[i]@),
    {
        proof {
            assert(self.width * self.height <= 0x3fff_ffff) by (nonlinear_arith)
                requires
                    self.width <= 0x7fff,
                    self.height <= 0x7fff,
            ;
        }
        let channel_size = self.width * self.height;
        proof {
            assert(3 * (self.width * self.height) == 3 * self.width * self.height)
                by (nonlinear_arith);
        }
        let mut out: Vec<u8> = Vec::new();
        for i in 0..channel_size
            invariant
                channel_size == self.width * self.height,
                channel_size <= 0x3fff_ffff,
                img_wf(*self),
                out@.len() == 3 * i,
                forall|c: int, j: int|
                    0 <= c < 3 && 0 <= j < i ==> out@[3 * j + c] as int == sv_encode_px(
                        #[trigger] self.channels@[c]@[j]@,
                    ),
        {
            let r = Self::encode_px(self.channels[0][i]);
            let g = Self::encode_px(self.channels[1][i]);
            let b = Self::encode_px(self.channels[2][i]);
            out.push(r);
            out.push(g);
            out.push(b);
        }
        out
    }

    /// One clamped 8-bit sample.
    fn encode_px(v: Rat) -> (r: u8)
        requires
            v.wf(),
        ensures
            r as int == sv_encode_px(v@),
    {
        match v.floor() {
            None => 0,
            Some(q) => {
                if q < 0 {
                    0
                } else if q > 255 {
                    255
                } else {
                    q as u8
                }
            },
        }
    }

    /// The exact overlap between the (fan-triangulated) ring and the unit
    /// pixel whose corner is `(pixel_x, pixel_y)`.
    pub fn calc_area_in_pixel(points: &Vec<Point>, pixel_x: i64, pixel_y: i64) -> (r: Rat)
        requires
            points.len() >= 3,
            ring_wf(ring_view(points@)),
            -0x7fff_ffff_ffff_ffff <= pixel_x,
            -0x7fff_ffff_ffff_ffff <= pixel_y,
        ensures
            r.wf(),
            r@ == sv_pixel_coverage(ring_view(points@), pixel_x as int, pixel_y as int),
    {
        let ghost ringv = ring_view(points@);
        let mut area = Rat::zero();
        let nx = Rat::from_i64(-pixel_x);
        let ny = Rat::from_i64(-pixel_y);
        let terms = points.len() - 2;
        for i in 0..terms
            invariant
                terms == points.len() - 2,
                points.len() >= 3,
                ringv == ring_view(points@),
                ring_wf(ringv),
                nx@ == rv_int(-(pixel_x as int)),
                ny@ == rv_int(-(pixel_y as int)),
                nx.wf() && ny.wf(),
                area.wf(),
                area@ == sv_cov_upto(ringv, pixel_x as int, pixel_y as int, i as int),
        {
            proof {
                assert(ringv[0] == points@[0]@);
                assert(ringv[i as int + 1] == points@[i as int + 1]@);
                assert(ringv[i as int + 2] == points@[i as int + 2]@);
                assert(pv_wf(ringv[0]) && pv_wf(ringv[i as int + 1]) && pv_wf(
                    ringv[i as int + 2],
                ));
            }
            let mut triangle: Vec<Point> = Vec::new();
            triangle.push(points[0].translate(nx, ny));
            triangle.push(points[i + 1].translate(nx, ny));
            triangle.push(points[i + 2].translate(nx, ny));
            proof {
                assert(ring_view(triangle@) =~= seq![
                    sv_shift(ringv[0], pixel_x as int, pixel_y as int),
                    sv_shift(ringv[i as int + 1], pixel_x as int, pixel_y as int),
                    sv_shift(ringv[i as int + 2], pixel_x as int, pixel_y as int),
                ]);
            }
            let clipped_polygon = Geom::clip(&triangle);
            if clipped_polygon.len() >= 3 {
                area = area.add(Geom::polygon_area(&clipped_polygon));
            }
        }
        area
    }

    /// Forward-rasterizes this image through `matrix` onto a fresh
    /// `width x height` canvas: every source pixel's unit square is mapped
    /// to a destination quadrilateral, and each destination pixel in its
    /// clamped floor bounding box receives `value * coverage` per channel
    /// and `coverage * alpha` into the alpha plane, where the coverage is
    /// the exact clipped overlap from `calc_area_in_pixel`. The result's
    /// planes equal the splat accumulation `sv_transform` over every source
    /// pixel; the alpha plane holds the raw accumulated sums, not a
    /// clamped alpha.
    #[verifier::rlimit(100)]
    pub fn transform(&self, matrix: &Matrix2d, width: usize, height: usize, alpha: Rat) -> (r:
        RenkiImage)
        requires
            img_wf(*self),
            matrix.wf(),
            alpha.wf(),
            width <= 0x7fff,
            height <= 0x7fff,
        ensures
            img_wf(r),
            r.width == width,
            r.height == height,
            img_planes(r) == sv_transform(
                *self,
                matrix@,
                width as int,
                height as int,
                alpha@,
            ),
    {
        let ghost imgg = *self;
        let ghost mv = matrix@;
        let ghost wi = width as int;
        let ghost hi = height as int;
        let ghost ga = alpha@;
        let ghost sw = self.width as int;
        proof {
            assert(width * height <= 0x3fff_ffff) by (nonlinear_arith)
                requires
                    width <= 0x7fff,
                    height <= 0x7fff,
            ;
        }
        let channel_size = width * height;
        let mut d0: Vec<Rat> = Vec::new();
        let mut d1: Vec<Rat> = Vec::new();
        let mut d2: Vec<Rat> = Vec::new();
        let mut alpha_data: Vec<Rat> = Vec::new();
        for i in 0..channel_size
            invariant
                d0@.len() == i && d1@.len() == i && d2@.len() == i && alpha_data@.len() == i,
                forall|j: int| 0 <= j < i ==> (#[trigger] d0@[j])@ == rv_int(0),
                forall|j: int| 0 <= j < i ==> (#[trigger] d1@[j])@ == rv_int(0),
                forall|j: int| 0 <= j < i ==> (#[trigger] d2@[j])@ == rv_int(0),
                forall|j: int| 0 <= j < i ==> (#[trigger] alpha_data@[j])@ == rv_int(0),
        {
            d0.push(Rat::zero());
            d1.push(Rat::zero());
            d2.push(Rat::zero());
            alpha_data.push(Rat::zero());
        }
        proof {
            assert(plane_view(d0@) =~= sv_zero_planes(wi * hi).c0);
            assert(plane_view(d1@) =~= sv_zero_planes(wi * hi).c1);
            assert(plane_view(d2@) =~= sv_zero_planes(wi * hi).c2);
            assert(plane_view(alpha_data@) =~= sv_zero_planes(wi * hi).al);
        }
        let mut y: usize = 0;
        while y < self.height
            invariant
                img_wf(*self),
                imgg == *self,
                mv == matrix@,
                wi == width as int,
                hi == height as int,
                ga == alpha@,
                sw == self.width as int,
                matrix.wf(),
                alpha.wf(),
                width <= 0x7fff,
                height <= 0x7fff,
                y <= self.height,
                channel_size == width * height,
                d0@.len() == channel_size && d1@.len() == channel_size && d2@.len() == channel_size
                    && alpha_data@.len() == channel_size,
                (Planesv {
                    c0: plane_view(d0@),
                    c1: plane_view(d1@),
                    c2: plane_view(d2@),
                    al: plane_view(alpha_data@),
                }) == sv_transform_upto(imgg, mv, wi, hi, ga, (y as int) * sw),
                forall|j: int| 0 <= j < channel_size ==> rv_wf((#[trigger] d0@[j])@),
                forall|j: int| 0 <= j < channel_size ==> rv_wf((#[trigger] d1@[j])@),
                forall|j: int| 0 <= j < channel_size ==> rv_wf((#[trigger] d2@[j])@),
                forall|j: int| 0 <= j < channel_size ==> rv_wf((#[trigger] alpha_data@[j])@),
            decreases self.height - y,
        {
            let mut x: usize = 0;
            proof {
                assert((y as int) * sw + 0 == (y as int) * sw);
            }
            while x < self.width
                invariant
                    img_wf(*self),
                    imgg == *self,
                    mv == matrix@,
                    wi == width as int,
                    hi == height as int,
                    ga == alpha@,
                    sw == self.width as int,
                    matrix.wf(),
                    alpha.wf(),
                    width <= 0x7fff,
                    height <= 0x7fff,
                    y < self.height,
                    x <= self.width,
                    channel_size == width * height,
                    d0@.len() == channel_size && d1@.len() == channel_size && d2@.len()
                        == channel_size && alpha_data@.len() == channel_size,
                    (Planesv {
                        c0: plane_view(d0@),
                        c1: plane_view(d1@),
                        c2: plane_view(d2@),
                        al: plane_view(alpha_data@),
                    }) == sv_transform_upto(imgg, mv, wi, hi, ga, (y as int) * sw + x as int),
                    forall|j: int| 0 <= j < channel_size ==> rv_wf((#[trigger] d0@[j])@),
                    forall|j: int| 0 <= j < channel_size ==> rv_wf((#[trigger] d1@[j])@),
                    forall|j: int| 0 <= j < channel_size ==> rv_wf((#[trigger] d2@[j])@),
                    forall|j: int| 0 <= j < channel_size ==> rv_wf((#[trigger] alpha_data@[j])@),
                decreases self.width - x,
            {
                proof {
                    assert(y * self.width + x < self.width * self.height <= 0x3fff_ffff)
                        by (nonlinear_arith)
                        requires
                            y < self.height,
                            x < self.width,
                            self.width <= 0x7fff,
                            self.height <= 0x7fff,
                    ;
                }
                let source_index = y * self.width + x;
                let ghost k = (y as int) * sw + x as int;
                proof {
                    vstd::arithmetic::div_mod::lemma_fundamental_div_mod_converse(
                        k, sw, y as int, x as int);
                    assert(k % sw == x as int && k / sw == y as int);
                }
                let ghost entry = Planesv {
                    c0: plane_view(d0@),
                    c1: plane_view(d1@),
                    c2: plane_view(d2@),
                    al: plane_view(alpha_data@),
                };
                let xf = Rat::from_i64(x as i64);
                let yf = Rat::from_i64(y as i64);
                let xf1 = Rat::from_i64(x as i64 + 1);
                let yf1 = Rat::from_i64(y as i64 + 1);
                let mut transformed_pixel: Vec<Point> = Vec::new();
                transformed_pixel.push(matrix.apply(&Point::new(xf, yf)));
                transformed_pixel.push(matrix.apply(&Point::new(xf, yf1)));
                transformed_pixel.push(matrix.apply(&Point::new(xf1, yf1)));
                transformed_pixel.push(matrix.apply(&Point::new(xf1, yf)));
                let ghost quadv = ring_view(transformed_pixel@);
                proof {
                    assert(quadv =~= sv_quad(mv, x as int, y as int));
                }
                let corners_ok = transformed_pixel[0].x.is_valid() && transformed_pixel[0].y.is_valid()
                    && transformed_pixel[1].x.is_valid() && transformed_pixel[1].y.is_valid()
                    && transformed_pixel[2].x.is_valid() && transformed_pixel[2].y.is_valid()
                    && transformed_pixel[3].x.is_valid() && transformed_pixel[3].y.is_valid();
                proof {
                    assert(corners_ok == sv_quad_ok(quadv));
                }
                if corners_ok {
                    let x_min = Self::floor_min4(
                        &transformed_pixel[0].x,
                        &transformed_pixel[1].x,
                        &transformed_pixel[2].x,
                        &transformed_pixel[3].x,
                    );
                    let x_max = Self::floor_max4(
                        &transformed_pixel[0].x,
                        &transformed_pixel[1].x,
                        &transformed_pixel[2].x,
                        &transformed_pixel[3].x,
                    );
                    let y_min = Self::floor_min4(
                        &transformed_pixel[0].y,
                        &transformed_pixel[1].y,
                        &transformed_pixel[2].y,
                        &transformed_pixel[3].y,
                    );
                    let y_max = Self::floor_max4(
                        &transformed_pixel[0].y,
                        &transformed_pixel[1].y,
                        &transformed_pixel[2].y,
                        &transformed_pixel[3].y,
                    );
                    let y_lo: i64 = if y_min < 0 { 0 } else { y_min };
                    let y_hi: i64 = if y_max > height as i64 - 1 { height as i64 - 1 } else { y_max };
                    let x_lo: i64 = if x_min < 0 { 0 } else { x_min };
                    let x_hi: i64 = if x_max > width as i64 - 1 { width as i64 - 1 } else { x_max };
                    let ghost x_cnt = x_hi as int - x_lo as int + 1;
                    let v0 = self.channels[0][source_index];
                    let v1 = self.channels[1][source_index];
                    let v2 = self.channels[2][source_index];
                    let mut y_dest: i64 = y_lo;
                    while y_dest <= y_hi
                        invariant
                            img_wf(*self),
                            imgg == *self,
                            ga == alpha@,
                            y < self.height,
                            x < self.width,
                            sw == self.width as int,
                            source_index == y * self.width + x,
                            source_index < self.width * self.height,
                            k == (y as int) * sw + x as int,
                            v0@ == imgg.channels@[0]@[k]@,
                            v1@ == imgg.channels@[1]@[k]@,
                            v2@ == imgg.channels@[2]@[k]@,
                            v0.wf() && v1.wf() && v2.wf(),
                            0 <= y_lo,
                            y_hi <= height as i64 - 1,
                            y_lo <= y_dest,
                            y_lo <= y_hi + 1 ==> y_dest <= y_hi + 1,
                            y_lo > y_hi + 1 ==> y_dest == y_lo,
                            0 <= x_lo,
                            x_hi <= width as i64 - 1,
                            x_cnt == x_hi as int - x_lo as int + 1,
                            alpha.wf(),
                            transformed_pixel@.len() == 4,
                            quadv == ring_view(transformed_pixel@),
                            ring_wf(quadv),
                            channel_size == width * height,
                            wi == width as int,
                            hi == height as int,
                            width <= 0x7fff,
                            height <= 0x7fff,
                            d0@.len() == channel_size && d1@.len() == channel_size && d2@.len()
                                == channel_size && alpha_data@.len() == channel_size,
                            (Planesv {
                                c0: plane_view(d0@),
                                c1: plane_view(d1@),
                                c2: plane_view(d2@),
                                al: plane_view(alpha_data@),
                            }) == sv_splat_box(
                                entry,
                                quadv,
                                v0@,
                                v1@,
                                v2@,
                                ga,
                                wi,
                                x_lo as int,
                                x_cnt,
                                y_lo as int,
                                y_dest as int - y_lo as int,
                            ),
                            forall|j: int| 0 <= j < channel_size ==> rv_wf((#[trigger] d0@[j])@),
                            forall|j: int| 0 <= j < channel_size ==> rv_wf((#[trigger] d1@[j])@),
                            forall|j: int| 0 <= j < channel_size ==> rv_wf((#[trigger] d2@[j])@),
                            forall|j: int|
                                0 <= j < channel_size ==> rv_wf((#[trigger] alpha_data@[j])@),
                        decreases y_hi - y_dest + 1,
                    {
                        let ghost row_entry = Planesv {
                            c0: plane_view(d0@),
                            c1: plane_view(d1@),
                            c2: plane_view(d2@),
                            al: plane_view(alpha_data@),
                        };
                        let mut x_dest: i64 = x_lo;
                        while x_dest <= x_hi
                            invariant
                                img_wf(*self),
                                imgg == *self,
                                ga == alpha@,
                                y < self.height,
                                x < self.width,
                                sw == self.width as int,
                                source_index == y * self.width + x,
                                source_index < self.width * self.height,
                                k == (y as int) * sw + x as int,
                                v0@ == imgg.channels@[0]@[k]@,
                                v1@ == imgg.channels@[1]@[k]@,
                                v2@ == imgg.channels@[2]@[k]@,
                                v0.wf() && v1.wf() && v2.wf(),
                                0 <= y_lo,
                                0 <= y_dest,
                                y_dest <= height as i64 - 1,
                                0 <= x_lo,
                                x_hi <= width as i64 - 1,
                                x_lo <= x_dest,
                                x_lo <= x_hi + 1 ==> x_dest <= x_hi + 1,
                                x_lo > x_hi + 1 ==> x_dest == x_lo,
                                x_cnt == x_hi as int - x_lo as int + 1,
                                alpha.wf(),
                                transformed_pixel@.len() == 4,
                                quadv == ring_view(transformed_pixel@),
                                ring_wf(quadv),
                                channel_size == width * height,
                                wi == width as int,
                                hi == height as int,
                                width <= 0x7fff,
                                height <= 0x7fff,
                                d0@.len() == channel_size && d1@.len() == channel_size && d2@.len()
                                    == channel_size && alpha_data@.len() == channel_size,
                                (Planesv {
                                    c0: plane_view(d0@),
                                    c1: plane_view(d1@),
                                    c2: plane_view(d2@),
                                    al: plane_view(alpha_data@),
                                }) == sv_splat_row(
                                    row_entry,
                                    quadv,
                                    v0@,
                                    v1@,
                                    v2@,
                                    ga,
                                    wi,
                                    y_dest as int,
                                    x_lo as int,
                                    x_dest as int - x_lo as int,
                                ),
                                forall|j: int| 0 <= j < channel_size ==> rv_wf((#[trigger] d0@[j])@),
                                forall|j: int| 0 <= j < channel_size ==> rv_wf((#[trigger] d1@[j])@),
                                forall|j: int| 0 <= j < channel_size ==> rv_wf((#[trigger] d2@[j])@),
                                forall|j: int|
                                    0 <= j < channel_size ==> rv_wf(
                                        (#[trigger] alpha_data@[j])@,
                                    ),
                            decreases x_hi - x_dest + 1,
                        {
                            proof {
                                assert((y_dest as int) * (width as int) + (x_dest as int) < width
                                    * height <= 0x3fff_ffff) by (nonlinear_arith)
                                    requires
                                        0 <= y_dest as int <= height as int - 1,
                                        0 <= x_dest as int <= width as int - 1,
                                        width as int >= 1,
                                        width <= 0x7fff,
                                        height <= 0x7fff,
                                ;
                            }
                            let dest_index: usize = (y_dest as usize) * width + (x_dest as usize);
                            let ghost before = Planesv {
                                c0: plane_view(d0@),
                                c1: plane_view(d1@),
                                c2: plane_view(d2@),
                                al: plane_view(alpha_data@),
                            };
                            let area = Self::calc_area_in_pixel(&transformed_pixel, x_dest, y_dest);
                            let n0 = d0[dest_index].add(v0.mul(area));
                            let n1 = d1[dest_index].add(v1.mul(area));
                            let n2 = d2[dest_index].add(v2.mul(area));
                            let na = alpha_data[dest_index].add(area.mul(alpha));
                            d0.set(dest_index, n0);
                            d1.set(dest_index, n1);
                            d2.set(dest_index, n2);
                            alpha_data.set(dest_index, na);
                            proof {
                                let stepped = sv_splat_px(
                                    before, quadv, v0@, v1@, v2@, ga, wi,
                                    x_dest as int, y_dest as int);
                                assert(plane_view(d0@) =~= stepped.c0);
                                assert(plane_view(d1@) =~= stepped.c1);
                                assert(plane_view(d2@) =~= stepped.c2);
                                assert(plane_view(alpha_data@) =~= stepped.al);
                            }
                            x_dest = x_dest + 1;
                        }
                        proof {
                            if x_cnt <= 0 {
                                assert(sv_splat_row(
                                    row_entry, quadv, v0@, v1@, v2@, ga, wi,
                                    y_dest as int, x_lo as int, x_cnt) == row_entry);
                                assert(sv_splat_row(
                                    row_entry, quadv, v0@, v1@, v2@, ga, wi,
                                    y_dest as int, x_lo as int,
                                    x_dest as int - x_lo as int) == row_entry);
                            } else {
                                assert(x_dest as int - x_lo as int == x_cnt);
                            }
                        }
                        y_dest = y_dest + 1;
                    }
                    proof {
                        let y_cnt = y_hi as int - y_lo as int + 1;
                        if y_cnt <= 0 {
                            assert(sv_splat_box(
                                entry, quadv, v0@, v1@, v2@, ga, wi,
                                x_lo as int, x_cnt, y_lo as int, y_cnt) == entry);
                            assert(sv_splat_box(
                                entry, quadv, v0@, v1@, v2@, ga, wi,
                                x_lo as int, x_cnt, y_lo as int,
                                y_dest as int - y_lo as int) == entry);
                        } else {
                            assert(y_dest as int - y_lo as int == y_cnt);
                        }
                        assert(Planesv {
                            c0: plane_view(d0@),
                            c1: plane_view(d1@),
                            c2: plane_view(d2@),
                            al: plane_view(alpha_data@),
                        } == sv_splat_src(entry, imgg, mv, wi, hi, ga, k));
                    }
                } else {
                    proof {
                        assert(Planesv {
                            c0: plane_view(d0@),
                            c1: plane_view(d1@),
                            c2: plane_view(d2@),
                            al: plane_view(alpha_data@),
                        } == sv_splat_src(entry, imgg, mv, wi, hi, ga, k));
                    }
                }
                x = x + 1;
            }
            proof {
                assert((y as int) * sw + sw == (y as int + 1) * sw) by (nonlinear_arith);
            }
            y = y + 1;
        }
        proof {
            assert((self.height as int) * sw == (imgg.width * imgg.height) as int)
                by (nonlinear_arith)
                requires
                    sw == imgg.width as int,
                    imgg.height == self.height,
                    imgg.width == self.width,
            ;
        }
        let mut channels: Vec<Vec<Rat>> = Vec::new();
        channels.push(d0);
        channels.push(d1);
        channels.push(d2);
        RenkiImage { width, height, channels, alpha: alpha_data }
    }

    /// The least floor of four meaningful values.
    fn floor_min4(a: &Rat, b: &Rat, c: &Rat, d: &Rat) -> (r: i64)
        requires
            a.wf() && b.wf() && c.wf() && d.wf(),
            rv_valid(a@) && rv_valid(b@) && rv_valid(c@) && rv_valid(d@),
        ensures
            r as int == min4i(rv_floor(a@), rv_floor(b@), rv_floor(c@), rv_floor(d@)),
    {
        let fa = a.floor().unwrap();
        let fb = b.floor().unwrap();
        let fc = c.floor().unwrap();
        let fd = d.floor().unwrap();
        let mut m = fa;
        if fb < m {
            m = fb;
        }
        if fc < m {
            m = fc;
        }
        if fd < m {
            m = fd;
        }
        m
    }

    /// The greatest floor of four meaningful values.
    fn floor_max4(a: &Rat, b: &Rat, c: &Rat, d: &Rat) -> (r: i64)
        requires
            a.wf() && b.wf() && c.wf() && d.wf(),
            rv_valid(a@) && rv_valid(b@) && rv_valid(c@) && rv_valid(d@),
        ensures
            r as int == max4i(rv_floor(a@), rv_floor(b@), rv_floor(c@), rv_floor(d@)),
    {
        let fa = a.floor().unwrap();
        let fb = b.floor().unwrap();
        let fc = c.floor().unwrap();
        let fd = d.floor().unwrap();
        let mut m = fa;
        if fb > m {
            m = fb;
        }
        if fc > m {
            m = fc;
        }
        if fd > m {
            m = fd;
        }
        m
    }

    /// Composites `image` over this image: per sample,
    /// `self * (1 - a) + image * a` with `a` the top image's alpha sample;
    /// the result's alpha plane is fully opaque.
    pub fn blend(&self, image: &RenkiImage) -> (r: RenkiImage)
        requires
            img_wf(*self),
            img_wf(*image),
            image.width == self.width,
            image.height == self.height,
        ensures
            img_wf(r),
            r.width == self.width,
            r.height == self.height,
            forall|c: int, i: int|
                0 <= c < 3 && 0 <= i < self.width * self.height ==> #[trigger] r.channels@[c]@[i]@
                    == sv_blend_px(
                    self.channels@[c]@[i]@,
                    image.channels@[c]@[i]@,
                    image.alpha@[i]@,
                ),
            forall|i: int| 0 <= i < self.width * self.height ==> (#[trigger] r.alpha@[i])@ == rv_int(1),
    {
        proof {
            assert(self.width * self.height <= 0x3fff_ffff) by (nonlinear_arith)
                requires
                    self.width <= 0x7fff,
                    self.height <= 0x7fff,
            ;
        }
        let channel_size = self.width * self.height;
        let mut channels: Vec<Vec<Rat>> = Vec::new();
        let mut c: usize = 0;
        while c < 3
            invariant
                img_wf(*self),
                img_wf(*image),
                image.width == self.width,
                image.height == self.height,
                channel_size == self.width * self.height,
                c <= 3,
                channels@.len() == c,
                forall|cc: int| 0 <= cc < c ==> (#[trigger] channels@[cc])@.len() == channel_size,
                forall|cc: int, i: int|
                    0 <= cc < c && 0 <= i < channel_size ==> #[trigger] channels@[cc]@[i]@
                        == sv_blend_px(
                        self.channels@[cc]@[i]@,
                        image.channels@[cc]@[i]@,
                        image.alpha@[i]@,
                    ),
                forall|cc: int, i: int|
                    0 <= cc < c && 0 <= i < channel_size ==> rv_wf(
                        #[trigger] channels@[cc]@[i]@,
                    ),
            decreases 3 - c,
        {
            let mut channel_data: Vec<Rat> = Vec::new();
            let one = Rat::one();
            for i in 0..channel_size
                invariant
                    img_wf(*self),
                    img_wf(*image),
                    image.width == self.width,
                    image.height == self.height,
                    channel_size == self.width * self.height,
                    c < 3,
                    one@ == rv_int(1),
                    one.wf(),
                    channel_data@.len() == i,
                    forall|j: int|
                        0 <= j < i ==> (#[trigger] channel_data@[j])@ == sv_blend_px(
                            self.channels@[c as int]@[j]@,
                            image.channels@[c as int]@[j]@,
                            image.alpha@[j]@,
                        ),
                    forall|j: int| 0 <= j < i ==> rv_wf((#[trigger] channel_data@[j])@),
            {
                let a = image.alpha[i];
                let v = self.channels[c][i].mul(one.sub(a)).add(image.channels[c][i].mul(a));
                channel_data.push(v);
            }
            channels.push(channel_data);
            c = c + 1;
        }
        let mut alpha: Vec<Rat> = Vec::new();
        for i in 0..channel_size
            invariant
                channel_size == self.width * self.height,
                alpha@.len() == i,
                forall|j: int| 0 <= j < i ==> (#[trigger] alpha@[j])@ == rv_int(1),
                forall|j: int| 0 <= j < i ==> rv_wf((#[trigger] alpha@[j])@),
        {
            alpha.push(Rat::one());
        }
        RenkiImage { width: self.width, height: self.height, channels, alpha }
    }
}

} // verus!
