//! The scene — an insertion-ordered collection of primitives plus
//! light sources — and the nearest-hit tracer.

use vstd::prelude::*;
use crate::color::{Color, background_color};
use crate::ray::Ray;
use crate::sphere::Sphere;
use crate::triangle::{Triangle, tri_normal};
use crate::vec3::{Vec3, V3, v_sub, v_dist2, v_bounded, dist2, HIT_BOUND};

verus! {

/// A plane, declared in the data model but wired into no hit test:
/// an open design question, kept as data only.
#[derive(Clone, Copy, Debug)]
pub struct Plane {
    pub p: Vec3,
    pub n: Vec3,
}

/// A point light source.  Lights are carried by the scene but not
/// consumed by the tracer: a reserved extension point, with no effect
/// on shading.
#[derive(Clone, Copy, Debug)]
pub struct Light {
    pub o: Vec3,
    pub color: Color,
}

/// A drawable primitive: the closed set of shapes the tracer can hit,
/// as a tagged variant for cache-friendly linear scans.
#[derive(Clone, Copy, Debug)]
pub enum Primitive {
    Sphere(Sphere),
    Triangle(Triangle),
}

impl Primitive {
    /// Well-formed primitive: its geometry lies inside the scene box.
    pub open spec fn wf(self) -> bool {
        match self {
            Primitive::Sphere(s) => s.wf(),
            Primitive::Triangle(t) => t.wf(),
        }
    }

    /// The primitive's diffuse color, as a spec value.
    pub open spec fn color_spec(self) -> Color {
        match self {
            Primitive::Sphere(s) => s.difuse_color,
            Primitive::Triangle(t) => t.difuse_color,
        }
    }

    /// The primitive's hit test, as a spec value.
    pub open spec fn hit_spec(self, r: Ray) -> Option<V3> {
        match self {
            Primitive::Sphere(s) => crate::sphere::sph_hit(s, r),
            Primitive::Triangle(t) => crate::triangle::tri_hit(t, r),
        }
    }

    /// Where (and whether) the ray hits this primitive.
    pub fn hit(&self, r: &Ray) -> (res: Option<Vec3>)
        requires
            self.wf(),
            r.wf(),
        ensures
            (res is Some <==> self.hit_spec(*r) is Some),
            (res matches Some(p) ==> self.hit_spec(*r) == Some(p@) && v_bounded(
                p@,
                HIT_BOUND as int,
            )),
    {
        match self {
            Primitive::Sphere(s) => s.hit(r),
            Primitive::Triangle(t) => t.hit(r),
        }
    }

    /// The primitive's flat diffuse color.
    pub fn get_difuse_color(&self) -> (c: Color)
        ensures
            c == self.color_spec(),
    {
        match self {
            Primitive::Sphere(s) => s.get_difuse_color(),
            Primitive::Triangle(t) => t.get_difuse_color(),
        }
    }

    /// The surface normal for a hit point, returned unnormalized (see
    /// the shape methods).
    pub fn get_normal(&self, p: &Vec3) -> (n: Option<Vec3>)
        requires
            self.wf(),
            v_bounded(p@, HIT_BOUND as int),
        ensures
            (self matches Primitive::Sphere(s) ==> n matches Some(v) && v@ == v_sub(p@, (*s).c@)),
            (self matches Primitive::Triangle(t) ==> n matches Some(v) && v@ == tri_normal(*t)),
    {
        match self {
            Primitive::Sphere(s) => s.get_normal(p),
            Primitive::Triangle(t) => t.get_normal(p),
        }
    }
}

/// A scene: primitives in insertion order (the order matters only for
/// tie-breaking between equally near hits) and light sources.  Built
/// once and borrowed read-only by the tracer.
pub struct Scene {
    pub objects: Vec<Primitive>,
    pub lights: Vec<Light>,
}

impl Scene {
    /// Well-formed scene: every primitive is well-formed.
    pub open spec fn wf(self) -> bool {
        forall|i: int| 0 <= i < self.objects@.len() ==> (#[trigger] self.objects@[i]).wf()
    }
}

/// Spec mirror of the tracer's scan from index `i` on, carrying the
/// best squared hit distance seen so far (`None` when nothing has hit
/// yet) and the color chosen so far.  A later hit replaces the
/// carried color only when its squared distance is strictly smaller,
/// so ties go to the primitive seen first.
pub open spec fn scan_from(
    objs: Seq<Primitive>,
    r: Ray,
    i: int,
    best: Option<int>,
    col: Color,
) -> Color
    decreases objs.len() - i,
{
    if i < 0 || i >= objs.len() {
        col
    } else {
        match objs[i].hit_spec(r) {
            Option::None => scan_from(objs, r, i + 1, best, col),
            Option::Some(p) => {
                let d2 = v_dist2(p, r.origin@);
                if best is None || d2 < best->0 {
                    scan_from(objs, r, i + 1, Some(d2), objs[i].color_spec())
                } else {
                    scan_from(objs, r, i + 1, best, col)
                }
            },
        }
    }
}

/// What tracing returns: the scan of the whole scene, started with no
/// hit and the background color.
pub open spec fn trace_spec(r: Ray, s: Scene) -> Color {
    scan_from(s.objects@, r, 0, Option::None, background_color())
}

/// The squared distance from the ray origin to a primitive's hit
/// point (meaningful when the primitive hits).
pub open spec fn hit_d2(o: Primitive, r: Ray) -> int {
    v_dist2(o.hit_spec(r)->0, r.origin@)
}

/// Whether a squared hit distance replaces the best seen so far:
/// anything beats "nothing yet", and otherwise only a strictly
/// smaller distance wins.
pub open spec fn beats(d2: int, best: Option<int>) -> bool {
    best is None || d2 < best->0
}

/// The index of the primitive whose color the scan from state
/// `(i, best)` finally returns, or `None` when the carried color
/// survives to the end.
pub open spec fn scan_winner(objs: Seq<Primitive>, r: Ray, i: int, best: Option<int>) -> Option<
    int,
>
    decreases objs.len() - i,
{
    if i < 0 || i >= objs.len() {
        None
    } else {
        match objs[i].hit_spec(r) {
            Option::None => scan_winner(objs, r, i + 1, best),
            Option::Some(p) => {
                let d2 = v_dist2(p, r.origin@);
                if beats(d2, best) {
                    match scan_winner(objs, r, i + 1, Some(d2)) {
                        Option::None => Some(i),
                        Option::Some(k) => Some(k),
                    }
                } else {
                    scan_winner(objs, r, i + 1, best)
                }
            },
        }
    }
}

/// The winner of the whole trace, if any.
pub open spec fn trace_winner(r: Ray, s: Scene) -> Option<int> {
    scan_winner(s.objects@, r, 0, Option::None)
}

/// The scan returns the carried color when no primitive wins, and the
/// winner's diffuse color otherwise.
pub proof fn lemma_scan_returns_winner_color(
    objs: Seq<Primitive>,
    r: Ray,
    i: int,
    best: Option<int>,
    col: Color,
)
    ensures
        scan_from(objs, r, i, best, col) == (match scan_winner(objs, r, i, best) {
            Option::None => col,
            Option::Some(k) => objs[k].color_spec(),
        }),
    decreases objs.len() - i,
{
    if i < 0 || i >= objs.len() {
    } else {
        match objs[i].hit_spec(r) {
            Option::None => {
                lemma_scan_returns_winner_color(objs, r, i + 1, best, col);
            },
            Option::Some(p) => {
                let d2 = v_dist2(p, r.origin@);
                if beats(d2, best) {
                    lemma_scan_returns_winner_color(objs, r, i + 1, Some(d2), objs[i].color_spec());
                } else {
                    lemma_scan_returns_winner_color(objs, r, i + 1, best, col);
                }
            },
        }
    }
}

/// What it means to win the scan from state `(i, best)`: the winner
/// hits, beats the carried best, attains the minimal distance among
/// all later candidates that beat the carried best, and is the first
/// to attain it (everything hitting before it, and beating the
/// carried best, is strictly farther).  A `None` winner means nothing
/// from `i` on both hits and beats the carried best.
pub open spec fn winner_properties(
    objs: Seq<Primitive>,
    r: Ray,
    i: int,
    best: Option<int>,
) -> bool {
    match scan_winner(objs, r, i, best) {
        Option::None => forall|j: int|
            i <= j < objs.len() && (#[trigger] objs[j]).hit_spec(r) is Some ==> !beats(
                hit_d2(objs[j], r),
                best,
            ),
        Option::Some(k) => {
            &&& i <= k < objs.len()
            &&& objs[k].hit_spec(r) is Some
            &&& beats(hit_d2(objs[k], r), best)
            &&& forall|j: int|
                i <= j < objs.len() && (#[trigger] objs[j]).hit_spec(r) is Some && beats(
                    hit_d2(objs[j], r),
                    best,
                ) ==> hit_d2(objs[k], r) <= hit_d2(objs[j], r)
            &&& forall|j: int|
                i <= j < k && (#[trigger] objs[j]).hit_spec(r) is Some && beats(
                    hit_d2(objs[j], r),
                    best,
                ) ==> hit_d2(objs[k], r) < hit_d2(objs[j], r)
        },
    }
}

/// The scan's winner really is the first nearest candidate.
pub proof fn lemma_scan_winner_properties(objs: Seq<Primitive>, r: Ray, i: int, best: Option<int>)
    requires
        0 <= i,
    ensures
        winner_properties(objs, r, i, best),
    decreases objs.len() - i,
{
    if i < 0 || i >= objs.len() {
    } else {
        match objs[i].hit_spec(r) {
            Option::None => {
                lemma_scan_winner_properties(objs, r, i + 1, best);
            },
            Option::Some(p) => {
                let d2 = v_dist2(p, r.origin@);
                assert(d2 == hit_d2(objs[i], r));
                if beats(d2, best) {
                    lemma_scan_winner_properties(objs, r, i + 1, Some(d2));
                    match scan_winner(objs, r, i + 1, Some(d2)) {
                        Option::None => {
                            assert(scan_winner(objs, r, i, best) == Some(i));
                            assert forall|j: int|
                                i <= j < objs.len() && (#[trigger] objs[j]).hit_spec(r) is Some
                                    && beats(hit_d2(objs[j], r), best) implies hit_d2(objs[i], r)
                                <= hit_d2(objs[j], r) by {
                                if j > i {
                                    assert(!beats(hit_d2(objs[j], r), Some(d2)));
                                }
                            }
                        },
                        Option::Some(k) => {
                            assert(scan_winner(objs, r, i, best) == Some(k));
                            assert(beats(hit_d2(objs[k], r), Some(d2)));
                            assert(hit_d2(objs[k], r) < d2);
                            assert forall|j: int|
                                i <= j < objs.len() && (#[trigger] objs[j]).hit_spec(r) is Some
                                    && beats(hit_d2(objs[j], r), best) implies hit_d2(objs[k], r)
                                <= hit_d2(objs[j], r) by {
                                if j > i && beats(hit_d2(objs[j], r), Some(d2)) {
                                    assert(hit_d2(objs[k], r) <= hit_d2(objs[j], r));
                                }
                            }
                            assert forall|j: int|
                                i <= j < k && (#[trigger] objs[j]).hit_spec(r) is Some && beats(
                                    hit_d2(objs[j], r),
                                    best,
                                ) implies hit_d2(objs[k], r) < hit_d2(objs[j], r) by {
                                if j > i && beats(hit_d2(objs[j], r), Some(d2)) {
                                    assert(hit_d2(objs[k], r) < hit_d2(objs[j], r));
                                }
                            }
                        },
                    }
                } else {
                    lemma_scan_winner_properties(objs, r, i + 1, best);
                }
            },
        }
    }
}

/// Nearest-hit resolution, characterized end to end: when no
/// primitive hits, the tracer returns the background color; when some
/// primitive hits, the tracer returns the diffuse color of the first
/// primitive, in insertion order, whose hit point is nearest to the
/// ray origin.
pub proof fn lemma_trace_nearest_hit(r: Ray, s: Scene)
    ensures
        (forall|j: int|
            0 <= j < s.objects@.len() ==> (#[trigger] s.objects@[j]).hit_spec(r) is None)
            ==> trace_spec(r, s) == background_color(),
        (trace_winner(r, s) matches Some(k) ==> {
            &&& 0 <= k < s.objects@.len()
            &&& s.objects@[k].hit_spec(r) is Some
            &&& trace_spec(r, s) == s.objects@[k].color_spec()
            &&& forall|j: int|
                0 <= j < s.objects@.len() && (#[trigger] s.objects@[j]).hit_spec(r) is Some
                    ==> hit_d2(s.objects@[k], r) <= hit_d2(s.objects@[j], r)
            &&& forall|j: int|
                0 <= j < k && (#[trigger] s.objects@[j]).hit_spec(r) is Some ==> hit_d2(
                    s.objects@[k],
                    r,
                ) < hit_d2(s.objects@[j], r)
        }),
        (trace_winner(r, s) is None ==> forall|j: int|
            0 <= j < s.objects@.len() ==> (#[trigger] s.objects@[j]).hit_spec(r) is None),
{
    let objs = s.objects@;
    lemma_scan_returns_winner_color(objs, r, 0, Option::None, background_color());
    lemma_scan_winner_properties(objs, r, 0, Option::None);
}

/// The best-so-far squared distance, as a spec value.
pub open spec fn best_view(best: Option<i128>) -> Option<int> {
    match best {
        Option::None => Option::None,
        Option::Some(d) => Option::Some(d as int),
    }
}

impl Ray {
    /// Scan every primitive in insertion order and keep the hit whose
    /// point is strictly nearest to the ray origin; return its
    /// diffuse color, or the background color when nothing is hit.
    /// Nearness is compared by squared Euclidean distance, which
    /// orders distances identically and stays exact.  Linear in the
    /// number of primitives, with no acceleration structure: the
    /// intended ceiling for small fixed scenes.
    pub fn trace(&self, scene: &Scene) -> (col: Color)
        requires
            self.wf(),
            scene.wf(),
        ensures
            col == trace_spec(*self, *scene),
    {
        let ghost objs = scene.objects@;
        let mut min_distance: Option<i128> = None;
        let mut final_color = Color { r: 0, g: 0, b: 0 };
        let mut i: usize = 0;
        while i < scene.objects.len()
            invariant
                self.wf(),
                scene.wf(),
                objs == scene.objects@,
                0 <= i <= objs.len(),
                scan_from(objs, *self, i as int, best_view(min_distance), final_color)
                    == trace_spec(*self, *scene),
            decreases objs.len() - i,
        {
            let obj = &scene.objects[i];
            match obj.hit(self) {
                Some(point) => {
                    let distance: i128 = dist2(&point, &self.origin);
                    let better: bool = match min_distance {
                        None => true,
                        Some(md) => distance < md,
                    };
                    if better {
                        min_distance = Some(distance);
                        final_color = obj.get_difuse_color();
                    }
                },
                None => {},
            }
            i = i + 1;
        }
        final_color
    }
}

/// Nearest-hit resolution is independent of insertion order when one
/// hit is strictly nearer: with two primitives both on the ray, the
/// tracer returns the strictly nearer one's diffuse color whichever
/// order the scene lists them in.
pub proof fn lemma_nearer_wins_either_order(
    a: Primitive,
    b: Primitive,
    r: Ray,
    s_ab: Scene,
    s_ba: Scene,
)
    requires
        s_ab.objects@ == seq![a, b],
        s_ba.objects@ == seq![b, a],
        a.hit_spec(r) is Some,
        b.hit_spec(r) is Some,
        v_dist2(a.hit_spec(r)->0, r.origin@) < v_dist2(b.hit_spec(r)->0, r.origin@),
    ensures
        trace_spec(r, s_ab) == a.color_spec(),
        trace_spec(r, s_ba) == a.color_spec(),
{
    let da = v_dist2(a.hit_spec(r)->0, r.origin@);
    let db = v_dist2(b.hit_spec(r)->0, r.origin@);
    let oab = s_ab.objects@;
    assert(oab.len() == 2 && oab[0] == a && oab[1] == b);
    assert(scan_from(oab, r, 2, Some(da), a.color_spec()) == a.color_spec());
    assert(scan_from(oab, r, 1, Some(da), a.color_spec()) == a.color_spec());
    assert(scan_from(oab, r, 0, Option::None, background_color()) == a.color_spec());
    let oba = s_ba.objects@;
    assert(oba.len() == 2 && oba[0] == b && oba[1] == a);
    assert(scan_from(oba, r, 2, Some(da), a.color_spec()) == a.color_spec());
    assert(scan_from(oba, r, 1, Some(db), b.color_spec()) == a.color_spec());
    assert(scan_from(oba, r, 0, Option::None, background_color()) == a.color_spec());
}

/// Determinism: tracing is a pure function of the ray and of the
/// scene's primitive sequence, so two traces of equal inputs return
/// the same color, bit for bit.
pub proof fn lemma_trace_deterministic(r1: Ray, r2: Ray, s1: Scene, s2: Scene)
    requires
        r1 == r2,
        s1.objects@ == s2.objects@,
    ensures
        trace_spec(r1, s1) == trace_spec(r2, s2),
{
}

} // verus!
