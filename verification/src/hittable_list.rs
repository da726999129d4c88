//! The scene aggregate: an unordered collection of spheres.
//!
//! `hit` scans every member and keeps the closest accepted intersection by
//! shrinking the upper bound to the best parameter found so far. The shrink
//! lemma justifies the trick: tightening the window keeps exactly the hits
//! that beat it, so one pass finds the globally nearest hit whatever the
//! insertion order.
use crate::fixed::{absi, lemma_fx_div_mono, lemma_sqrt_floor_is_sqrt, Fx, FX_SCALE};
use crate::hittable::HitRecord;
use crate::ray::{Ray, BOUNCE_STEP, DIR_MAX, ORIGIN_SAFE, T_MAX_BITS};
use crate::sphere::{
    hit_a, hit_disc, hit_half_b, hit_root1, hit_root2, sphere_hit_rec, sphere_hit_t, valid_sphere,
    Sphere,
};
use crate::vec3::{bounded, dot_bits};
use vstd::prelude::*;

verus! {

/// The scene: every sphere to test rays against.
pub struct HittableList {
    pub objects: Vec<Sphere>,
}

/// Every member sits in the ranges the intersection arithmetic is proved
/// for.
pub open spec fn valid_list(l: HittableList) -> bool {
    forall|i: int| 0 <= i < l.objects@.len() ==> valid_sphere(#[trigger] l.objects@[i])
}

/// The record the scan returns, as a function of the members: probe each
/// sphere left to right, shrinking the window's upper bound to the best
/// parameter found so far, and keep the record of the nearest accepted hit.
pub open spec fn list_hit_rec(objs: Seq<Sphere>, r: Ray, t_min: int, t_max: int) -> Option<
    HitRecord,
>
    decreases objs.len(),
{
    if objs.len() == 0 {
        None
    } else {
        let prev = list_hit_rec(objs.drop_last(), r, t_min, t_max);
        let closest = match prev {
            Some(h) => h.t.bits as int,
            None => t_max,
        };
        match sphere_hit_rec(objs.last(), r, t_min, closest) {
            Some(h2) => Some(h2),
            None => prev,
        }
    }
}

/// Tightening the upper bound of the search window keeps exactly the hits
/// that beat the new bound: the record is unchanged when its parameter is
/// below the bound, and disappears otherwise.
pub proof fn lemma_hit_shrink(s: Sphere, r: Ray, t_min: int, t2: int, t_max: int)
    requires
        t2 <= t_max,
        -T_MAX_BITS <= t_min,
        t_max <= T_MAX_BITS,
    ensures
        sphere_hit_rec(s, r, t_min, t2) == (match sphere_hit_rec(s, r, t_min, t_max) {
            Some(h) => if h.t.bits < t2 {
                Some(h)
            } else {
                None::<HitRecord>
            },
            None => None::<HitRecord>,
        }),
{
    if hit_a(r) > 0 && hit_disc(s, r) > 0 {
        lemma_sqrt_floor_is_sqrt(hit_disc(s, r) * FX_SCALE);
        let sd = crate::fixed::fx_sqrt_bits(hit_disc(s, r));
        assert(0 <= sd);
        lemma_fx_div_mono(-hit_half_b(s, r) - sd, -hit_half_b(s, r) + sd, hit_a(r));
        let r1 = hit_root1(s, r);
        let r2 = hit_root2(s, r);
        assert(r1 <= r2);
        assert(sphere_hit_t(s, r, t_min, t2) == (match sphere_hit_t(s, r, t_min, t_max) {
            Some(t) => if t < t2 {
                Some(t)
            } else {
                None::<int>
            },
            None => None::<int>,
        }));
    } else {
        assert(sphere_hit_t(s, r, t_min, t2) is None);
        assert(sphere_hit_t(s, r, t_min, t_max) is None);
    }
}

impl Default for HittableList {
    /// An empty scene.
    fn default() -> (r: HittableList)
        ensures
            r.objects@.len() == 0,
    {
        HittableList { objects: Vec::new() }
    }
}

impl HittableList {
    /// Removes every member.
    pub fn clear(&mut self)
        ensures
            final(self).objects@.len() == 0,
    {
        self.objects.clear();
    }

    /// Appends a sphere to the scene.
    pub fn add(&mut self, object: Sphere)
        ensures
            final(self).objects@ == old(self).objects@.push(object),
    {
        self.objects.push(object);
    }

    /// The nearest intersection across all members strictly inside
    /// `(t_min, t_max)`: some member reports the returned record under the
    /// full window, and no member reports anything nearer. `None` means no
    /// member intersects the window at all.
    #[verifier::loop_isolation(false)]
    #[verifier::rlimit(100)]
    pub fn hit(&self, r: &Ray, t_min: Fx, t_max: Fx) -> (res: Option<HitRecord>)
        requires
            valid_list(*self),
            bounded(r.origin, ORIGIN_SAFE as int),
            bounded(r.dir, DIR_MAX as int),
            -T_MAX_BITS <= t_min.bits,
            t_max.bits <= T_MAX_BITS,
        ensures
            res == list_hit_rec(self.objects@, *r, t_min.bits as int, t_max.bits as int),
            match res {
                Some(h) => (exists|i: int|
                    0 <= i < self.objects@.len() && sphere_hit_rec(
                        #[trigger] self.objects@[i],
                        *r,
                        t_min.bits as int,
                        t_max.bits as int,
                    ) == Some(h)) && (forall|j: int|
                    0 <= j < self.objects@.len() ==> match sphere_hit_rec(
                        #[trigger] self.objects@[j],
                        *r,
                        t_min.bits as int,
                        t_max.bits as int,
                    ) {
                        Some(g) => g.t.bits >= h.t.bits,
                        None => true,
                    }) && t_min.bits < h.t.bits < t_max.bits && bounded(
                    h.normal,
                    2 * FX_SCALE as int,
                ) && dot_bits(r.dir, h.normal) <= 0 && absi(h.point.x.bits as int) <= absi(
                    r.origin.x.bits as int,
                ) + BOUNCE_STEP && absi(h.point.y.bits as int) <= absi(r.origin.y.bits as int)
                    + BOUNCE_STEP && absi(h.point.z.bits as int) <= absi(r.origin.z.bits as int)
                    + BOUNCE_STEP,
                None => forall|i: int|
                    0 <= i < self.objects@.len() ==> sphere_hit_rec(
                        #[trigger] self.objects@[i],
                        *r,
                        t_min.bits as int,
                        t_max.bits as int,
                    ) is None,
            },
    {
        let ghost tmin = t_min.bits as int;
        let ghost tmax = t_max.bits as int;
        let mut res: Option<HitRecord> = None;
        let mut closest: Fx = t_max;
        let n = self.objects.len();
        let mut i: usize = 0;
        while i < n
            invariant
                i <= n,
                closest.bits <= t_max.bits,
                res == list_hit_rec(self.objects@.take(i as int), *r, tmin, tmax),
                match res {
                    Some(h) => closest == h.t && t_min.bits < h.t.bits < t_max.bits && (exists|j: int|
                        0 <= j < i && sphere_hit_rec(
                            #[trigger] self.objects@[j],
                            *r,
                            tmin,
                            tmax,
                        ) == Some(h)) && (forall|j: int|
                        0 <= j < i ==> match sphere_hit_rec(
                            #[trigger] self.objects@[j],
                            *r,
                            tmin,
                            tmax,
                        ) {
                            Some(g) => g.t.bits >= h.t.bits,
                            None => true,
                        }) && bounded(h.normal, 2 * FX_SCALE as int) && dot_bits(r.dir, h.normal)
                        <= 0 && absi(h.point.x.bits as int) <= absi(r.origin.x.bits as int)
                        + BOUNCE_STEP && absi(h.point.y.bits as int) <= absi(
                        r.origin.y.bits as int,
                    ) + BOUNCE_STEP && absi(h.point.z.bits as int) <= absi(r.origin.z.bits as int)
                        + BOUNCE_STEP,
                    None => closest == t_max && (forall|j: int|
                        0 <= j < i ==> sphere_hit_rec(
                            #[trigger] self.objects@[j],
                            *r,
                            tmin,
                            tmax,
                        ) is None),
                },
            decreases n - i,
        {
            let s = self.objects[i];
            let cand = s.hit(r, t_min, closest);
            proof {
                lemma_hit_shrink(self.objects@[i as int], *r, tmin, closest.bits as int, tmax);
                assert(self.objects@.take(i as int + 1).drop_last() =~= self.objects@.take(
                    i as int,
                ));
                assert(self.objects@.take(i as int + 1).last() == self.objects@[i as int]);
            }
            match cand {
                Some(h2) => {
                    res = Some(h2);
                    closest = h2.t;
                },
                None => {},
            }
            i = i + 1;
        }
        proof {
            assert(self.objects@.take(n as int) =~= self.objects@);
        }
        res
    }
}

} // verus!
