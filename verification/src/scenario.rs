//! The animation scenario: per-image keyframe waypoints, global Lagrange
//! interpolation over all waypoints of a track, deterministic pan/zoom path
//! generation, and the per-frame compositing driver.
//!
//! A track's pose at a time strictly inside its waypoint window is the full
//! Lagrange interpolant over every waypoint; outside the half-open window
//! (before the first waypoint, or at or after the last) there is no pose and
//! the image is skipped entirely. Frames fold the active images' transforms
//! into the canvas in track declaration order, which is load-bearing:
//! "over" compositing is not commutative.

use vstd::prelude::*;
use crate::rat::{Rat, Ratv, rv_wf, rv_valid, rv_int, rv_add, rv_sub, rv_mul, rv_div, rv_lt, rv_le};
use crate::geom::{Point, Pointv};
use crate::matrix::{Matrix2d, Matv, sv_multiply, matv_translate, matv_scale, matv_rotation};
use crate::renki_image::{RenkiImage, img_wf, img_planes, Planesv, sv_transform, sv_blend_px,
    sv_zero_planes};

verus! {

/// Ghost model of a waypoint.
pub struct SPointv {
    pub time: Ratv,
    pub anchor_x: Ratv,
    pub anchor_y: Ratv,
    pub offset_x: Ratv,
    pub offset_y: Ratv,
    pub scale: Ratv,
    pub angle: Ratv,
    pub alpha: Ratv,
}

/// A timed motion waypoint: where the source anchor should land on the
/// canvas, at what scale, angle and opacity.
#[derive(Clone, Copy, Debug)]
pub struct ScenarioPoint {
    pub time: Rat,
    pub anchor_x: Rat,
    pub anchor_y: Rat,
    pub offset_x: Rat,
    pub offset_y: Rat,
    pub scale: Rat,
    pub angle: Rat,
    pub alpha: Rat,
}

impl View for ScenarioPoint {
    type V = SPointv;

    open spec fn view(&self) -> SPointv {
        SPointv {
            time: self.time@,
            anchor_x: self.anchor_x@,
            anchor_y: self.anchor_y@,
            offset_x: self.offset_x@,
            offset_y: self.offset_y@,
            scale: self.scale@,
            angle: self.angle@,
            alpha: self.alpha@,
        }
    }
}

pub open spec fn sp_wf(p: SPointv) -> bool {
    rv_wf(p.time) && rv_wf(p.anchor_x) && rv_wf(p.anchor_y) && rv_wf(p.offset_x) && rv_wf(
        p.offset_y,
    ) && rv_wf(p.scale) && rv_wf(p.angle) && rv_wf(p.alpha)
}

/// One image's motion track: the index of its source image and its ordered
/// waypoints.
#[derive(Clone, Debug)]
pub struct ImageScenario {
    pub image: usize,
    pub points: Vec<ScenarioPoint>,
}

pub open spec fn track_points(t: ImageScenario) -> Seq<SPointv> {
    t.points@.map_values(|p: ScenarioPoint| p@)
}

pub open spec fn track_wf(t: ImageScenario) -> bool {
    t.points@.len() >= 1 && forall|i: int|
        0 <= i < t.points@.len() ==> sp_wf(#[trigger] track_points(t)[i])
}

/// The whole slideshow: tracks in compositing order, canvas size, frame count.
#[derive(Clone, Debug)]
pub struct Scenario {
    pub images: Vec<ImageScenario>,
    pub width: usize,
    pub height: usize,
    pub length: usize,
}

pub open spec fn scenario_wf(s: Scenario) -> bool {
    &&& s.width <= 0x7fff
    &&& s.height <= 0x7fff
    &&& forall|i: int| 0 <= i < s.images@.len() ==> track_wf(#[trigger] s.images@[i])
}

/// The Lagrange basis for waypoint `i`, built from the first `j` factors:
/// the product over `k < j`, `k != i` of `(t - time_k) / (time_i - time_k)`.
pub open spec fn sv_basis_upto(times: Seq<Ratv>, i: int, j: int, t: Ratv) -> Ratv
    decreases j,
{
    if j <= 0 {
        rv_int(1)
    } else if j - 1 == i {
        sv_basis_upto(times, i, j - 1, t)
    } else {
        rv_mul(
            sv_basis_upto(times, i, j - 1, t),
            rv_div(rv_sub(t, times[j - 1]), rv_sub(times[i], times[j - 1])),
        )
    }
}

/// The interpolated sum of the first `i` terms `basis_k(t) * value_k`.
pub open spec fn sv_interp_upto(values: Seq<Ratv>, times: Seq<Ratv>, t: Ratv, i: int) -> Ratv
    decreases i,
{
    if i <= 0 {
        rv_int(0)
    } else {
        rv_add(
            sv_interp_upto(values, times, t, i - 1),
            rv_mul(sv_basis_upto(times, i - 1, times.len() as int, t), values[i - 1]),
        )
    }
}

/// The full interpolant of a value channel over all waypoints.
pub open spec fn sv_interp(values: Seq<Ratv>, times: Seq<Ratv>, t: Ratv) -> Ratv {
    sv_interp_upto(values, times, t, times.len() as int)
}

/// Clamping to `[0, 1]`, exactly as the alpha channel is clamped.
pub open spec fn sv_clamp01(a: Ratv) -> Ratv {
    if rv_lt(rv_int(1), a) {
        rv_int(1)
    } else if rv_lt(a, rv_int(0)) {
        rv_int(0)
    } else {
        a
    }
}

pub open spec fn times_of(s: Seq<SPointv>) -> Seq<Ratv> {
    s.map_values(|p: SPointv| p.time)
}

pub open spec fn anchor_xs_of(s: Seq<SPointv>) -> Seq<Ratv> {
    s.map_values(|p: SPointv| p.anchor_x)
}

pub open spec fn anchor_ys_of(s: Seq<SPointv>) -> Seq<Ratv> {
    s.map_values(|p: SPointv| p.anchor_y)
}

pub open spec fn offset_xs_of(s: Seq<SPointv>) -> Seq<Ratv> {
    s.map_values(|p: SPointv| p.offset_x)
}

pub open spec fn offset_ys_of(s: Seq<SPointv>) -> Seq<Ratv> {
    s.map_values(|p: SPointv| p.offset_y)
}

pub open spec fn scales_of(s: Seq<SPointv>) -> Seq<Ratv> {
    s.map_values(|p: SPointv| p.scale)
}

pub open spec fn angles_of(s: Seq<SPointv>) -> Seq<Ratv> {
    s.map_values(|p: SPointv| p.angle)
}

pub open spec fn alphas_of(s: Seq<SPointv>) -> Seq<Ratv> {
    s.map_values(|p: SPointv| p.alpha)
}

/// Whether `t` lies in a track's half-open active window: at or after the
/// first waypoint and strictly before the last.
pub open spec fn sv_in_window(pts: Seq<SPointv>, t: Ratv) -> bool {
    !rv_lt(t, pts[0].time) && !rv_le(pts[pts.len() - 1].time, t)
}

impl ImageScenario {
    /// The pose at `time`: none outside the track's half-open window,
    /// otherwise the Lagrange interpolant of every channel over all
    /// waypoints, with alpha clamped to `[0, 1]`.
    pub fn interpolate_points(&self, time: Rat) -> (r: Option<ScenarioPoint>)
        requires
            track_wf(*self),
            time.wf(),
        ensures
            (r is Some) == sv_in_window(track_points(*self), time@),
            r matches Some(p) ==> {
                let pts = track_points(*self);
                let ts = times_of(pts);
                &&& sp_wf(p@)
                &&& p@.time == time@
                &&& p@.anchor_x == sv_interp(anchor_xs_of(pts), ts, time@)
                &&& p@.anchor_y == sv_interp(anchor_ys_of(pts), ts, time@)
                &&& p@.offset_x == sv_interp(offset_xs_of(pts), ts, time@)
                &&& p@.offset_y == sv_interp(offset_ys_of(pts), ts, time@)
                &&& p@.scale == sv_interp(scales_of(pts), ts, time@)
                &&& p@.angle == sv_interp(angles_of(pts), ts, time@)
                &&& p@.alpha == sv_clamp01(sv_interp(alphas_of(pts), ts, time@))
            },
    {
        let ghost pts = track_points(*self);
        let ghost ts = times_of(pts);
        let n = self.points.len();
        if time.lt(self.points[0].time) {
            None
        } else if self.points[n - 1].time.le(time) {
            None
        } else {
            let mut anchor_x = Rat::zero();
            let mut anchor_y = Rat::zero();
            let mut offset_x = Rat::zero();
            let mut offset_y = Rat::zero();
            let mut scale = Rat::zero();
            let mut angle = Rat::zero();
            let mut alpha = Rat::zero();
            for i in 0..n
                invariant
                    n == self.points@.len(),
                    track_wf(*self),
                    time.wf(),
                    pts == track_points(*self),
                    ts == times_of(pts),
                    anchor_x.wf() && anchor_y.wf() && offset_x.wf() && offset_y.wf() && scale.wf()
                        && angle.wf() && alpha.wf(),
                    anchor_x@ == sv_interp_upto(anchor_xs_of(pts), ts, time@, i as int),
                    anchor_y@ == sv_interp_upto(anchor_ys_of(pts), ts, time@, i as int),
                    offset_x@ == sv_interp_upto(offset_xs_of(pts), ts, time@, i as int),
                    offset_y@ == sv_interp_upto(offset_ys_of(pts), ts, time@, i as int),
                    scale@ == sv_interp_upto(scales_of(pts), ts, time@, i as int),
                    angle@ == sv_interp_upto(angles_of(pts), ts, time@, i as int),
                    alpha@ == sv_interp_upto(alphas_of(pts), ts, time@, i as int),
            {
                let pi = self.points[i];
                proof {
                    assert(pts[i as int] == self.points@[i as int]@);
                    assert(sp_wf(pts[i as int]));
                }
                let mut l = Rat::one();
                for j in 0..n
                    invariant
                        n == self.points@.len(),
                        i < n,
                        track_wf(*self),
                        time.wf(),
                        pts == track_points(*self),
                        ts == times_of(pts),
                        pi == self.points@[i as int],
                        l.wf(),
                        l@ == sv_basis_upto(ts, i as int, j as int, time@),
                {
                    if i != j {
                        let pj = self.points[j];
                        proof {
                            assert(pts[j as int] == self.points@[j as int]@);
                            assert(sp_wf(pts[j as int]));
                            assert(ts[j as int] == pts[j as int].time);
                            assert(ts[i as int] == pts[i as int].time);
                            assert(sp_wf(pts[i as int]));
                        }
                        l = l.mul(time.sub(pj.time).div(pi.time.sub(pj.time)));
                    }
                }
                proof {
                    assert(ts.len() == n);
                    assert(anchor_xs_of(pts)[i as int] == pts[i as int].anchor_x);
                    assert(anchor_ys_of(pts)[i as int] == pts[i as int].anchor_y);
                    assert(offset_xs_of(pts)[i as int] == pts[i as int].offset_x);
                    assert(offset_ys_of(pts)[i as int] == pts[i as int].offset_y);
                    assert(scales_of(pts)[i as int] == pts[i as int].scale);
                    assert(angles_of(pts)[i as int] == pts[i as int].angle);
                    assert(alphas_of(pts)[i as int] == pts[i as int].alpha);
                }
                anchor_x = anchor_x.add(l.mul(pi.anchor_x));
                anchor_y = anchor_y.add(l.mul(pi.anchor_y));
                offset_x = offset_x.add(l.mul(pi.offset_x));
                offset_y = offset_y.add(l.mul(pi.offset_y));
                scale = scale.add(l.mul(pi.scale));
                angle = angle.add(l.mul(pi.angle));
                alpha = alpha.add(l.mul(pi.alpha));
            }
            let one = Rat::one();
            let zero = Rat::zero();
            let clamped = if one.lt(alpha) {
                one
            } else if alpha.lt(zero) {
                zero
            } else {
                alpha
            };
            Some(
                ScenarioPoint {
                    time,
                    anchor_x,
                    anchor_y,
                    offset_x,
                    offset_y,
                    scale,
                    angle,
                    alpha: clamped,
                },
            )
        }
    }
}


/// The pose of a track at a time inside its window: every channel the full
/// Lagrange interpolant, alpha clamped to `[0, 1]`.
pub open spec fn sv_pose(pts: Seq<SPointv>, t: Ratv) -> SPointv {
    SPointv {
        time: t,
        anchor_x: sv_interp(anchor_xs_of(pts), times_of(pts), t),
        anchor_y: sv_interp(anchor_ys_of(pts), times_of(pts), t),
        offset_x: sv_interp(offset_xs_of(pts), times_of(pts), t),
        offset_y: sv_interp(offset_ys_of(pts), times_of(pts), t),
        scale: sv_interp(scales_of(pts), times_of(pts), t),
        angle: sv_interp(angles_of(pts), times_of(pts), t),
        alpha: sv_clamp01(sv_interp(alphas_of(pts), times_of(pts), t)),
    }
}

/// The per-frame matrix of a pose: translate the anchor to the origin,
/// scale, rotate, then translate to the canvas offset (apply-then order).
pub open spec fn sv_pose_matrix(p: SPointv) -> Matv {
    sv_multiply(
        sv_multiply(
            sv_multiply(
                matv_translate(rv_sub(rv_int(0), p.anchor_x), rv_sub(rv_int(0), p.anchor_y)),
                matv_scale(p.scale),
            ),
            matv_rotation(p.angle),
        ),
        matv_translate(p.offset_x, p.offset_y),
    )
}

/// "Over"-compositing of whole planes; the result is destination-opaque.
pub open spec fn sv_blend_planes(bottom: Planesv, top: Planesv, n: int) -> Planesv {
    Planesv {
        c0: Seq::new(n as nat, |i: int| sv_blend_px(bottom.c0[i], top.c0[i], top.al[i])),
        c1: Seq::new(n as nat, |i: int| sv_blend_px(bottom.c1[i], top.c1[i], top.al[i])),
        c2: Seq::new(n as nat, |i: int| sv_blend_px(bottom.c2[i], top.c2[i], top.al[i])),
        al: Seq::new(n as nat, |i: int| rv_int(1)),
    }
}

/// A scenario's tracks as (image index, waypoint) models, in order.
pub open spec fn tracks_model(s: Scenario) -> Seq<(int, Seq<SPointv>)> {
    s.images@.map_values(|tr: ImageScenario| (tr.image as int, track_points(tr)))
}

/// The frame planes after folding the first `k` tracks at time `t`: a
/// zeroed canvas, blended in declaration order with the transform of each
/// track that has a pose at `t`; inactive tracks contribute nothing.
pub open spec fn sv_frame_upto(
    tracks: Seq<(int, Seq<SPointv>)>,
    w: int,
    h: int,
    images: Seq<RenkiImage>,
    t: Ratv,
    k: int,
) -> Planesv
    decreases k,
{
    if k <= 0 {
        sv_zero_planes(w * h)
    } else {
        let prev = sv_frame_upto(tracks, w, h, images, t, k - 1);
        let pts = tracks[k - 1].1;
        if sv_in_window(pts, t) {
            let pose = sv_pose(pts, t);
            let top = sv_transform(
                images[tracks[k - 1].0],
                sv_pose_matrix(pose),
                w,
                h,
                pose.alpha,
            );
            sv_blend_planes(prev, top, w * h)
        } else {
            prev
        }
    }
}

/// The rendered frame at time `t`: the fold over every track.
pub open spec fn sv_frame(
    tracks: Seq<(int, Seq<SPointv>)>,
    w: int,
    h: int,
    images: Seq<RenkiImage>,
    t: Ratv,
) -> Planesv {
    sv_frame_upto(tracks, w, h, images, t, tracks.len() as int)
}

/// The track models that `generate_scenario` builds for `images`.
pub open spec fn sv_gen_tracks(images: Seq<RenkiImage>, w: int, h: int) -> Seq<
    (int, Seq<SPointv>),
> {
    Seq::new(
        images.len(),
        |i: int|
            (
                i,
                sv_track_points(
                    i,
                    images.len() as int,
                    images[i].width as int,
                    images[i].height as int,
                    w,
                    h,
                ),
            ),
    )
}

/// The rational constant `a / b`.
pub open spec fn sv_rq(a: int, b: int) -> Ratv {
    rv_div(rv_int(a), rv_int(b))
}

/// The five waypoints of the pan/zoom track for image `image_index` of
/// `n_images`: enter zoomed, rotated and invisible; settle at the start
/// anchor; pass the midpoint fully opaque; settle at the end anchor; leave
/// zoomed, counter-rotated and invisible. Start/end anchors alternate
/// left-to-right and right-to-left with the image's parity, the destination
/// offset stays at the canvas center, and each track's time window is
/// stretched by a quarter so that neighbours crossfade.
pub open spec fn sv_track_points(
    image_index: int,
    n_images: int,
    img_w: int,
    img_h: int,
    w: int,
    h: int,
) -> Seq<SPointv> {
    let half = sv_rq(1, 2);
    let fit_scale = rv_div(rv_int(h), rv_int(img_h));
    let anchor_y = rv_mul(rv_int(img_h), half);
    let anchor_left = rv_mul(rv_div(rv_int(w), fit_scale), sv_rq(3, 5));
    let anchor_right = rv_sub(rv_int(img_w), rv_mul(rv_div(rv_int(w), fit_scale), sv_rq(3, 5)));
    let a0 = if image_index % 2 == 0 {
        anchor_left
    } else {
        anchor_right
    };
    let a1 = if image_index % 2 == 0 {
        anchor_right
    } else {
        anchor_left
    };
    let offset_y = rv_mul(rv_int(h), half);
    let o0 = rv_mul(rv_int(w), half);
    let o1 = rv_mul(rv_int(w), half);
    let window = rv_add(rv_int(1), rv_div(sv_rq(1, 4), rv_int(n_images)));
    let start = rv_div(rv_div(rv_int(image_index), rv_int(n_images)), window);
    let end = rv_div(rv_div(rv_int(image_index + 1), rv_int(n_images)), window);
    let duration = rv_mul(rv_sub(end, start), sv_rq(5, 4));
    seq![
        SPointv {
            time: start,
            anchor_x: a0,
            anchor_y: anchor_y,
            offset_x: o0,
            offset_y: offset_y,
            angle: sv_rq(3, 40),
            scale: rv_mul(fit_scale, sv_rq(3, 2)),
            alpha: rv_int(0),
        },
        SPointv {
            time: rv_add(start, rv_mul(duration, sv_rq(1, 5))),
            anchor_x: a0,
            anchor_y: anchor_y,
            offset_x: o0,
            offset_y: offset_y,
            angle: rv_int(0),
            scale: rv_mul(fit_scale, rv_int(1)),
            alpha: sv_rq(22, 25),
        },
        SPointv {
            time: rv_add(start, rv_mul(duration, half)),
            anchor_x: rv_mul(rv_add(a0, a1), half),
            anchor_y: anchor_y,
            offset_x: rv_mul(rv_add(o0, o1), half),
            offset_y: offset_y,
            angle: rv_int(0),
            scale: rv_mul(fit_scale, sv_rq(9, 8)),
            alpha: rv_int(1),
        },
        SPointv {
            time: rv_add(start, rv_mul(duration, sv_rq(4, 5))),
            anchor_x: a1,
            anchor_y: anchor_y,
            offset_x: o1,
            offset_y: offset_y,
            angle: rv_int(0),
            scale: rv_mul(fit_scale, rv_int(1)),
            alpha: sv_rq(22, 25),
        },
        SPointv {
            time: rv_add(start, duration),
            anchor_x: a1,
            anchor_y: anchor_y,
            offset_x: o1,
            offset_y: offset_y,
            angle: sv_rq(-33, 500),
            scale: rv_mul(fit_scale, sv_rq(3, 2)),
            alpha: rv_int(0),
        },
    ]
}

/// The constant `a / b` as a `Rat`.
fn rq(a: i64, b: i64) -> (r: Rat)
    requires
        -0x7fff_ffff_ffff_ffff <= a,
        -0x7fff_ffff_ffff_ffff <= b,
    ensures
        r.wf(),
        r@ == sv_rq(a as int, b as int),
{
    Rat::from_i64(a).div(Rat::from_i64(b))
}

/// Builds the waypoint track of one image.
fn make_track(
    image_index: usize,
    n_images: usize,
    img_w: usize,
    img_h: usize,
    w: usize,
    h: usize,
) -> (r: ImageScenario)
    requires
        image_index < n_images,
        n_images <= 0x7fff,
        img_w <= 0x7fff,
        img_h <= 0x7fff,
        w <= 0x7fff,
        h <= 0x7fff,
    ensures
        track_wf(r),
        r.image == image_index,
        r.points@.len() == 5,
        track_points(r) == sv_track_points(
            image_index as int,
            n_images as int,
            img_w as int,
            img_h as int,
            w as int,
            h as int,
        ),
{
    let half = rq(1, 2);
    let fit_scale = Rat::from_i64(h as i64).div(Rat::from_i64(img_h as i64));
    let anchor_y = Rat::from_i64(img_h as i64).mul(half);
    let anchor_left = Rat::from_i64(w as i64).div(fit_scale).mul(rq(3, 5));
    let anchor_right = Rat::from_i64(img_w as i64).sub(
        Rat::from_i64(w as i64).div(fit_scale).mul(rq(3, 5)),
    );
    let (a0, a1) = if image_index % 2 == 0 {
        (anchor_left, anchor_right)
    } else {
        (anchor_right, anchor_left)
    };
    let offset_y = Rat::from_i64(h as i64).mul(half);
    let o0 = Rat::from_i64(w as i64).mul(half);
    let o1 = Rat::from_i64(w as i64).mul(half);
    let window = Rat::one().add(rq(1, 4).div(Rat::from_i64(n_images as i64)));
    let start = Rat::from_i64(image_index as i64).div(Rat::from_i64(n_images as i64)).div(window);
    let end = Rat::from_i64(image_index as i64 + 1).div(Rat::from_i64(n_images as i64)).div(
        window,
    );
    let duration = end.sub(start).mul(rq(5, 4));
    let mut points: Vec<ScenarioPoint> = Vec::new();
    points.push(
        ScenarioPoint {
            time: start,
            anchor_x: a0,
            anchor_y,
            offset_x: o0,
            offset_y,
            angle: rq(3, 40),
            scale: fit_scale.mul(rq(3, 2)),
            alpha: Rat::zero(),
        },
    );
    points.push(
        ScenarioPoint {
            time: start.add(duration.mul(rq(1, 5))),
            anchor_x: a0,
            anchor_y,
            offset_x: o0,
            offset_y,
            angle: Rat::zero(),
            scale: fit_scale.mul(Rat::one()),
            alpha: rq(22, 25),
        },
    );
    points.push(
        ScenarioPoint {
            time: start.add(duration.mul(half)),
            anchor_x: a0.add(a1).mul(half),
            anchor_y,
            offset_x: o0.add(o1).mul(half),
            offset_y,
            angle: Rat::zero(),
            scale: fit_scale.mul(rq(9, 8)),
            alpha: Rat::one(),
        },
    );
    points.push(
        ScenarioPoint {
            time: start.add(duration.mul(rq(4, 5))),
            anchor_x: a1,
            anchor_y,
            offset_x: o1,
            offset_y,
            angle: Rat::zero(),
            scale: fit_scale.mul(Rat::one()),
            alpha: rq(22, 25),
        },
    );
    points.push(
        ScenarioPoint {
            time: start.add(duration),
            anchor_x: a1,
            anchor_y,
            offset_x: o1,
            offset_y,
            angle: rq(-33, 500),
            scale: fit_scale.mul(rq(3, 2)),
            alpha: Rat::zero(),
        },
    );
    let r = ImageScenario { image: image_index, points };
    proof {
        assert(track_points(r) =~= sv_track_points(
            image_index as int,
            n_images as int,
            img_w as int,
            img_h as int,
            w as int,
            h as int,
        ));
    }
    r
}

impl Scenario {
    /// Builds the whole slideshow scenario: one deterministic pan/zoom
    /// track per image, in declaration order, over a `width x height`
    /// canvas discretized into `length` frames.
    pub fn generate_scenario(
        images: &Vec<RenkiImage>,
        width: usize,
        height: usize,
        length: usize,
    ) -> (r: Scenario)
        requires
            width <= 0x7fff,
            height <= 0x7fff,
            images@.len() <= 0x7fff,
            forall|i: int| 0 <= i < images@.len() ==> img_wf(#[trigger] images@[i]),
        ensures
            scenario_wf(r),
            r.width == width,
            r.height == height,
            r.length == length,
            r.images@.len() == images@.len(),
            forall|i: int|
                0 <= i < images@.len() ==> (#[trigger] r.images@[i]).image == i
                    && r.images@[i].points@.len() == 5 && track_points(r.images@[i])
                    == sv_track_points(
                    i,
                    images@.len() as int,
                    images@[i].width as int,
                    images@[i].height as int,
                    width as int,
                    height as int,
                ),
            tracks_model(r) == sv_gen_tracks(images@, width as int, height as int),
    {
        let n = images.len();
        let mut images_scenarios: Vec<ImageScenario> = Vec::new();
        for image_index in 0..n
            invariant
                n == images@.len(),
                n <= 0x7fff,
                width <= 0x7fff,
                height <= 0x7fff,
                forall|i: int| 0 <= i < n ==> img_wf(#[trigger] images@[i]),
                images_scenarios@.len() == image_index,
                forall|i: int|
                    0 <= i < image_index ==> track_wf(#[trigger] images_scenarios@[i]),
                forall|i: int|
                    0 <= i < image_index ==> (#[trigger] images_scenarios@[i]).image == i
                        && images_scenarios@[i].points@.len() == 5 && track_points(
                        images_scenarios@[i],
                    ) == sv_track_points(
                        i,
                        n as int,
                        images@[i].width as int,
                        images@[i].height as int,
                        width as int,
                        height as int,
                    ),
        {
            let image = &images[image_index];
            let track = make_track(image_index, n, image.width, image.height, width, height);
            images_scenarios.push(track);
        }
        let r = Scenario { images: images_scenarios, width, height, length };
        proof {
            assert(tracks_model(r) =~= sv_gen_tracks(images@, width as int, height as int));
        }
        r
    }

    /// Renders one frame: a zeroed canvas, folded in track declaration
    /// order with every image whose track has a pose at `time`; a track
    /// without a pose contributes nothing. When no track is active, the
    /// frame stays the all-zero canvas.
    pub fn render_frame(&self, time: Rat, images: &Vec<RenkiImage>) -> (r: RenkiImage)
        requires
            scenario_wf(*self),
            time.wf(),
            forall|k: int|
                0 <= k < self.images@.len() ==> (#[trigger] self.images@[k]).image
                    < images@.len(),
            forall|i: int| 0 <= i < images@.len() ==> img_wf(#[trigger] images@[i]),
        ensures
            img_wf(r),
            r.width == self.width,
            r.height == self.height,
            img_planes(r) == sv_frame(
                tracks_model(*self),
                self.width as int,
                self.height as int,
                images@,
                time@,
            ),
            (forall|k: int|
                0 <= k < self.images@.len() ==> !sv_in_window(
                    track_points(#[trigger] self.images@[k]),
                    time@,
                )) ==> forall|c: int, i: int|
                0 <= c < 3 && 0 <= i < self.width * self.height ==> #[trigger] r.channels@[c]@[i]@
                    == rv_int(0),
    {
        let ghost tm = tracks_model(*self);
        let ghost wi = self.width as int;
        let ghost hi = self.height as int;
        let mut result = zero_image(self.width, self.height);
        proof {
            assert(img_planes(result).c0 =~= sv_zero_planes(wi * hi).c0);
            assert(img_planes(result).c1 =~= sv_zero_planes(wi * hi).c1);
            assert(img_planes(result).c2 =~= sv_zero_planes(wi * hi).c2);
            assert(img_planes(result).al =~= sv_zero_planes(wi * hi).al);
        }
        let nt = self.images.len();
        let mut scenario_index: usize = 0;
        while scenario_index < nt
            invariant
                nt == self.images@.len(),
                scenario_wf(*self),
                time.wf(),
                forall|k: int|
                    0 <= k < nt ==> (#[trigger] self.images@[k]).image < images@.len(),
                forall|i: int| 0 <= i < images@.len() ==> img_wf(#[trigger] images@[i]),
                scenario_index <= nt,
                tm == tracks_model(*self),
                wi == self.width as int,
                hi == self.height as int,
                img_wf(result),
                result.width == self.width,
                result.height == self.height,
                img_planes(result) == sv_frame_upto(
                    tm,
                    wi,
                    hi,
                    images@,
                    time@,
                    scenario_index as int,
                ),
                (forall|k: int|
                    0 <= k < scenario_index ==> !sv_in_window(
                        track_points(#[trigger] self.images@[k]),
                        time@,
                    )) ==> forall|c: int, i: int|
                    0 <= c < 3 && 0 <= i < self.width * self.height
                        ==> #[trigger] result.channels@[c]@[i]@ == rv_int(0),
            decreases nt - scenario_index,
        {
            let image_scenario = &self.images[scenario_index];
            let image = &images[image_scenario.image];
            let ghost kk = scenario_index as int;
            let ghost pts = track_points(self.images@[kk]);
            proof {
                assert(tm[kk] == (self.images@[kk].image as int, pts));
            }
            let ghost prev = img_planes(result);
            let point = image_scenario.interpolate_points(time);
            match point {
                Some(point) => {
                    proof {
                        assert(point@ == sv_pose(pts, time@));
                    }
                    let matrix = Matrix2d::translate(
                        Rat::zero().sub(point.anchor_x),
                        Rat::zero().sub(point.anchor_y),
                    ).multiply(&Matrix2d::scale(point.scale)).multiply(
                        &Matrix2d::rotation(point.angle),
                    ).multiply(&Matrix2d::translate(point.offset_x, point.offset_y));
                    proof {
                        assert(matrix@ == sv_pose_matrix(point@));
                    }
                    let transformed = image.transform(&matrix, self.width, self.height, point.alpha);
                    result = result.blend(&transformed);
                    proof {
                        let top = img_planes(transformed);
                        assert(img_planes(result).c0 =~= sv_blend_planes(prev, top, wi * hi).c0);
                        assert(img_planes(result).c1 =~= sv_blend_planes(prev, top, wi * hi).c1);
                        assert(img_planes(result).c2 =~= sv_blend_planes(prev, top, wi * hi).c2);
                        assert(img_planes(result).al =~= sv_blend_planes(prev, top, wi * hi).al);
                        assert(img_planes(result) == sv_frame_upto(
                            tm, wi, hi, images@, time@, kk + 1));
                    }
                },
                None => {
                    proof {
                        assert(img_planes(result) == sv_frame_upto(
                            tm, wi, hi, images@, time@, kk + 1));
                    }
                },
            }
            scenario_index = scenario_index + 1;
        }
        result
    }

    /// Renders every frame of the scenario, in increasing frame order, at
    /// times `frame_index / length`. Exactly `length` frames come back,
    /// each a well-formed `width x height` image.
    pub fn render(&self, images: &Vec<RenkiImage>) -> (r: Vec<RenkiImage>)
        requires
            scenario_wf(*self),
            self.length <= 0x7fff,
            forall|k: int|
                0 <= k < self.images@.len() ==> (#[trigger] self.images@[k]).image
                    < images@.len(),
            forall|i: int| 0 <= i < images@.len() ==> img_wf(#[trigger] images@[i]),
        ensures
            r@.len() == self.length,
            forall|f: int|
                0 <= f < self.length ==> img_wf(#[trigger] r@[f]) && r@[f].width == self.width
                    && r@[f].height == self.height,
            forall|f: int|
                0 <= f < self.length ==> img_planes(#[trigger] r@[f]) == sv_frame(
                    tracks_model(*self),
                    self.width as int,
                    self.height as int,
                    images@,
                    rv_div(rv_int(f), rv_int(self.length as int)),
                ),
    {
        let mut frames: Vec<RenkiImage> = Vec::new();
        for frame_index in 0..self.length
            invariant
                scenario_wf(*self),
                self.length <= 0x7fff,
                forall|k: int|
                    0 <= k < self.images@.len() ==> (#[trigger] self.images@[k]).image
                        < images@.len(),
                forall|i: int| 0 <= i < images@.len() ==> img_wf(#[trigger] images@[i]),
                frames@.len() == frame_index,
                forall|f: int|
                    0 <= f < frame_index ==> img_wf(#[trigger] frames@[f]) && frames@[f].width
                        == self.width && frames@[f].height == self.height,
                forall|f: int|
                    0 <= f < frame_index ==> img_planes(#[trigger] frames@[f]) == sv_frame(
                        tracks_model(*self),
                        self.width as int,
                        self.height as int,
                        images@,
                        rv_div(rv_int(f), rv_int(self.length as int)),
                    ),
        {
            let time = Rat::from_i64(frame_index as i64).div(Rat::from_i64(self.length as i64));
            let frame = self.render_frame(time, images);
            frames.push(frame);
        }
        frames
    }
}

/// A `width x height` image whose channel and alpha planes are all zero.
fn zero_image(width: usize, height: usize) -> (r: RenkiImage)
    requires
        width <= 0x7fff,
        height <= 0x7fff,
    ensures
        img_wf(r),
        r.width == width,
        r.height == height,
        forall|c: int, i: int|
            0 <= c < 3 && 0 <= i < width * height ==> #[trigger] r.channels@[c]@[i]@ == rv_int(0),
        forall|i: int| 0 <= i < width * height ==> (#[trigger] r.alpha@[i])@ == rv_int(0),
{
    proof {
        assert(width * height <= 0x3fff_ffff) by (nonlinear_arith)
            requires
                width <= 0x7fff,
                height <= 0x7fff,
        ;
    }
    let channel_size = width * height;
    let mut c0: Vec<Rat> = Vec::new();
    let mut c1: Vec<Rat> = Vec::new();
    let mut c2: Vec<Rat> = Vec::new();
    let mut alpha: Vec<Rat> = Vec::new();
    for i in 0..channel_size
        invariant
            c0@.len() == i && c1@.len() == i && c2@.len() == i && alpha@.len() == i,
            forall|j: int| 0 <= j < i ==> (#[trigger] c0@[j])@ == rv_int(0),
            forall|j: int| 0 <= j < i ==> (#[trigger] c1@[j])@ == rv_int(0),
            forall|j: int| 0 <= j < i ==> (#[trigger] c2@[j])@ == rv_int(0),
            forall|j: int| 0 <= j < i ==> (#[trigger] alpha@[j])@ == rv_int(0),
            forall|j: int| 0 <= j < i ==> rv_wf((#[trigger] c0@[j])@),
            forall|j: int| 0 <= j < i ==> rv_wf((#[trigger] c1@[j])@),
            forall|j: int| 0 <= j < i ==> rv_wf((#[trigger] c2@[j])@),
            forall|j: int| 0 <= j < i ==> rv_wf((#[trigger] alpha@[j])@),
    {
        c0.push(Rat::zero());
        c1.push(Rat::zero());
        c2.push(Rat::zero());
        alpha.push(Rat::zero());
    }
    let mut channels: Vec<Vec<Rat>> = Vec::new();
    channels.push(c0);
    channels.push(c1);
    channels.push(c2);
    RenkiImage { width, height, channels, alpha }
}

} // verus!
