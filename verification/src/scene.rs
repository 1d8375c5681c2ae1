//! Scene resolution: nearest hit, shadow occlusion, light accumulation.

use vstd::prelude::*;
use crate::fixed::SCALE;
use crate::math::{Vector, V3, v3_add, v3_sub, v3_zero, v3_scale, v3_magnitude, v3_normalize,
    bounded};
use crate::util::{Ray, Color, v3_clamp_upper, POINT_MAX, CHAN_MAX};
use crate::light::Light;
use crate::object::{Object, Primitive, CONTRIB_MAX};

verus! {

/// Offset of a shadow ray's origin along its direction, in fixed-point
/// steps: the smallest positive step, to avoid immediate self-intersection.
pub const SHADOW_EPS: i128 = 1;

/// The nearest valid hit among the first `n` primitives: its index, point
/// and distance from the ray origin.  Ties keep the earliest index, as only
/// a strictly smaller distance replaces the running best.
pub open spec fn nearest_hit_prefix(objs: Seq<Primitive>, o: V3, d: V3, n: int) -> Option<
    (int, V3, int),
>
    decreases n,
{
    if n <= 0 {
        None
    } else {
        let prev = nearest_hit_prefix(objs, o, d, n - 1);
        match objs[n - 1].spec_hit(o, d) {
            Option::None => prev,
            Option::Some(p) => {
                let dist = v3_magnitude(v3_sub(p, o));
                match prev {
                    Option::None => Some((n - 1, p, dist)),
                    Option::Some(best) => if dist < best.2 {
                        Some((n - 1, p, dist))
                    } else {
                        prev
                    },
                }
            },
        }
    }
}

/// Direction of the shadow ray from a point toward a light.
pub open spec fn shadow_dir(light: Light, p: V3) -> V3 {
    v3_normalize(v3_sub(light.position@, p))
}

/// Origin of the shadow ray: the point, nudged one step toward the light.
pub open spec fn shadow_origin(light: Light, p: V3) -> V3 {
    v3_add(p, v3_scale(shadow_dir(light, p), SHADOW_EPS as int))
}

/// Some primitive blocks the ray.
pub open spec fn occluded(objs: Seq<Primitive>, o: V3, d: V3) -> bool {
    exists|k: int| 0 <= k < objs.len() && (#[trigger] objs[k]).spec_intersects(o, d)
}

/// Accumulated contributions of the first `n` lights whose shadow rays
/// reach their light unoccluded.
pub open spec fn light_sum_prefix(
    objs: Seq<Primitive>,
    lights: Seq<Light>,
    obj: Primitive,
    p: V3,
    d: V3,
    n: int,
) -> V3
    decreases n,
{
    if n <= 0 {
        v3_zero()
    } else {
        let prev = light_sum_prefix(objs, lights, obj, p, d, n - 1);
        let light = lights[n - 1];
        if occluded(objs, shadow_origin(light, p), shadow_dir(light, p)) {
            prev
        } else {
            v3_add(prev, obj.spec_shade(p, d, light))
        }
    }
}

/// Accumulated contributions of the first `n` lights with shadowing
/// disregarded: the hypothetical fully lit colour.
pub open spec fn lit_sum_prefix(
    lights: Seq<Light>,
    obj: Primitive,
    p: V3,
    d: V3,
    n: int,
) -> V3
    decreases n,
{
    if n <= 0 {
        v3_zero()
    } else {
        v3_add(lit_sum_prefix(lights, obj, p, d, n - 1), obj.spec_shade(p, d, lights[n - 1]))
    }
}

/// The colour a ray resolves to: black where nothing is hit, otherwise the
/// clamped sum of the unoccluded lights' contributions at the nearest hit.
pub open spec fn spec_scene_color(lights: Seq<Light>, objs: Seq<Primitive>, o: V3, d: V3) -> V3 {
    match nearest_hit_prefix(objs, o, d, objs.len() as int) {
        Option::None => v3_zero(),
        Option::Some(best) => v3_clamp_upper(
            light_sum_prefix(objs, lights, objs[best.0], best.1, d, lights.len() as int),
        ),
    }
}

/// The partial light sum is non-negative and grows at most by one bounded
/// contribution per light.
pub proof fn lemma_light_sum_bounds(
    objs: Seq<Primitive>,
    lights: Seq<Light>,
    obj: Primitive,
    p: V3,
    d: V3,
    n: int,
)
    requires
        obj.wf(),
        forall|k: int| 0 <= k < lights.len() ==> (#[trigger] lights[k]).wf(),
        0 <= n <= lights.len(),
    ensures
        0 <= light_sum_prefix(objs, lights, obj, p, d, n).x <= n * (CONTRIB_MAX as int),
        0 <= light_sum_prefix(objs, lights, obj, p, d, n).y <= n * (CONTRIB_MAX as int),
        0 <= light_sum_prefix(objs, lights, obj, p, d, n).z <= n * (CONTRIB_MAX as int),
    decreases n,
{
    if n > 0 {
        lemma_light_sum_bounds(objs, lights, obj, p, d, n - 1);
        obj.shade_bounds(p, d, lights[n - 1]);
        assert((n - 1) * (CONTRIB_MAX as int) + CONTRIB_MAX as int == n * (CONTRIB_MAX as int))
            by (nonlinear_arith);
    }
}

/// Shadow occlusion never increases the resolved colour: channel by
/// channel, the shadowed sum stays below the hypothetical fully lit sum,
/// and clamping preserves that order.
pub proof fn lemma_occlusion_monotone(
    objs: Seq<Primitive>,
    lights: Seq<Light>,
    obj: Primitive,
    p: V3,
    d: V3,
    n: int,
)
    requires
        obj.wf(),
        forall|k: int| 0 <= k < lights.len() ==> (#[trigger] lights[k]).wf(),
        0 <= n <= lights.len(),
    ensures
        light_sum_prefix(objs, lights, obj, p, d, n).x <= lit_sum_prefix(lights, obj, p, d, n).x,
        light_sum_prefix(objs, lights, obj, p, d, n).y <= lit_sum_prefix(lights, obj, p, d, n).y,
        light_sum_prefix(objs, lights, obj, p, d, n).z <= lit_sum_prefix(lights, obj, p, d, n).z,
        v3_clamp_upper(light_sum_prefix(objs, lights, obj, p, d, n)).x <= v3_clamp_upper(
            lit_sum_prefix(lights, obj, p, d, n),
        ).x,
        v3_clamp_upper(light_sum_prefix(objs, lights, obj, p, d, n)).y <= v3_clamp_upper(
            lit_sum_prefix(lights, obj, p, d, n),
        ).y,
        v3_clamp_upper(light_sum_prefix(objs, lights, obj, p, d, n)).z <= v3_clamp_upper(
            lit_sum_prefix(lights, obj, p, d, n),
        ).z,
    decreases n,
{
    if n > 0 {
        lemma_occlusion_monotone(objs, lights, obj, p, d, n - 1);
        obj.shade_bounds(p, d, lights[n - 1]);
    }
}

/// A scene with no primitives resolves every ray to the background colour.
pub proof fn lemma_empty_scene_black(lights: Seq<Light>, objs: Seq<Primitive>, o: V3, d: V3)
    requires
        objs.len() == 0,
    ensures
        spec_scene_color(lights, objs, o, d) == v3_zero(),
{
}

/// The scene: lights and primitives, each sequence in a fixed order.  The
/// primitives' order breaks distance ties; the lights' order fixes the
/// accumulation order.
pub struct Scene {
    pub lights: Vec<Light>,
    pub objects: Vec<Primitive>,
}

impl Scene {
    /// All lights and primitives are valid scene entries.
    pub open spec fn wf(self) -> bool {
        (forall|k: int| 0 <= k < self.objects@.len() ==> (#[trigger] self.objects@[k]).wf())
            && (forall|k: int| 0 <= k < self.lights@.len() ==> (#[trigger] self.lights@[k]).wf())
    }

    pub fn new(lights: Vec<Light>, objects: Vec<Primitive>) -> (s: Scene)
        requires
            forall|k: int| 0 <= k < objects@.len() ==> (#[trigger] objects@[k]).wf(),
            forall|k: int| 0 <= k < lights@.len() ==> (#[trigger] lights@[k]).wf(),
        ensures
            s.lights == lights,
            s.objects == objects,
            s.wf(),
    {
        Scene { lights, objects }
    }

    /// The shadow ray from a hit point toward a light, nudged off the
    /// surface by one fixed-point step.
    pub fn generate_shadow_ray(light: &Light, point: &Vector) -> (r: Ray)
        requires
            light.wf(),
            bounded(point@, POINT_MAX as int),
        ensures
            r.direction@ == shadow_dir(*light, point@),
            r.origin@ == shadow_origin(*light, point@),
            r.wf(),
    {
        let dir = light.position.sub(*point).normalize();
        proof {
            crate::fixed::lemma_tdiv_bound(dir@.x * SHADOW_EPS, SCALE as int);
            crate::fixed::lemma_tdiv_bound(dir@.y * SHADOW_EPS, SCALE as int);
            crate::fixed::lemma_tdiv_bound(dir@.z * SHADOW_EPS, SCALE as int);
        }
        Ray::new(point.add(dir.scale(SHADOW_EPS)), dir)
    }

    /// Resolve a ray to a colour: nearest hit, then per light a shadow test
    /// against every primitive, accumulating the unoccluded contributions,
    /// clamped at the end.  Black where nothing is hit.
    #[verifier::loop_isolation(false)]
    #[verifier::rlimit(100)]
    pub fn compute_color(&self, ray: &Ray) -> (c: Color)
        requires
            self.wf(),
            ray.wf(),
        ensures
            c@ == spec_scene_color(self.lights@, self.objects@, ray.origin@, ray.direction@),
            0 <= c@.x <= SCALE as int,
            0 <= c@.y <= SCALE as int,
            0 <= c@.z <= SCALE as int,
    {
        let ghost o = ray.origin@;
        let ghost d = ray.direction@;
        let mut color = Color::new(0, 0, 0);
        let mut shortest_distance: i128 = 0;
        let mut closest_intersection_point = Vector::new(0, 0, 0);
        let mut closest_object_index: usize = 0;
        let mut is_ray_intersecting_an_object = false;

        let mut i: usize = 0;
        while i < self.objects.len()
            invariant
                0 <= i <= self.objects@.len(),
                match nearest_hit_prefix(self.objects@, o, d, i as int) {
                    Option::None => !is_ray_intersecting_an_object,
                    Option::Some(best) => is_ray_intersecting_an_object && closest_object_index
                        == best.0 && closest_intersection_point@ == best.1 && shortest_distance
                        == best.2 && bounded(best.1, POINT_MAX as int) && 0 <= best.2 && 0 <= best.0
                        < i,
                },
            decreases self.objects@.len() - i,
        {
            let intersection_point = self.objects[i].get_point_intersected_by(ray);
            match intersection_point {
                Some(point) => {
                    let distance_to_intersection_point = point.sub(ray.origin).magnitude();
                    if !is_ray_intersecting_an_object || distance_to_intersection_point
                        < shortest_distance {
                        is_ray_intersecting_an_object = true;
                        shortest_distance = distance_to_intersection_point;
                        closest_intersection_point = point;
                        closest_object_index = i;
                    }
                },
                None => (),
            }
            i = i + 1;
        }

        if is_ray_intersecting_an_object {
            let ghost best = nearest_hit_prefix(
                self.objects@,
                o,
                d,
                self.objects@.len() as int,
            ).unwrap();
            let ghost hit_obj = self.objects@[best.0];
            let mut li: usize = 0;
            while li < self.lights.len()
                invariant
                    0 <= li <= self.lights@.len(),
                    closest_object_index == best.0,
                    closest_intersection_point@ == best.1,
                    0 <= closest_object_index < self.objects@.len(),
                    bounded(closest_intersection_point@, POINT_MAX as int),
                    color@ == light_sum_prefix(
                        self.objects@,
                        self.lights@,
                        hit_obj,
                        best.1,
                        d,
                        li as int,
                    ),
                    0 <= color@.x <= li * (CONTRIB_MAX as int),
                    0 <= color@.y <= li * (CONTRIB_MAX as int),
                    0 <= color@.z <= li * (CONTRIB_MAX as int),
                decreases self.lights@.len() - li,
            {
                let light = self.lights[li];
                let shadow_ray = Scene::generate_shadow_ray(&light, &closest_intersection_point);
                let mut is_shadow_ray_intersecting_object = false;
                let mut j: usize = 0;
                while j < self.objects.len() && !is_shadow_ray_intersecting_object
                    invariant
                        0 <= j <= self.objects@.len(),
                        is_shadow_ray_intersecting_object ==> occluded(
                            self.objects@,
                            shadow_ray.origin@,
                            shadow_ray.direction@,
                        ),
                        !is_shadow_ray_intersecting_object ==> forall|k: int|
                            0 <= k < j ==> !(#[trigger] self.objects@[k]).spec_intersects(
                                shadow_ray.origin@,
                                shadow_ray.direction@,
                            ),
                    decreases self.objects@.len() - j,
                {
                    if self.objects[j].is_intersected_by(&shadow_ray) {
                        is_shadow_ray_intersecting_object = true;
                    }
                    j = j + 1;
                }
                if !is_shadow_ray_intersecting_object {
                    let contribution = self.objects[closest_object_index].compute_color(
                        &closest_intersection_point,
                        ray,
                        &light,
                    );
                    proof {
                        hit_obj.shade_bounds(best.1, d, self.lights@[li as int]);
                        assert((li as int) * (CONTRIB_MAX as int) + CONTRIB_MAX as int == (li + 1)
                            * (CONTRIB_MAX as int)) by (nonlinear_arith);
                        assert((li + 1) * (CONTRIB_MAX as int) <= CHAN_MAX as int)
                            by (nonlinear_arith)
                            requires
                                0 <= li + 1 <= usize::MAX,
                        ;
                    }
                    color.add_assign(contribution);
                } else {
                    proof {
                        assert((li as int) * (CONTRIB_MAX as int) <= (li + 1) * (CONTRIB_MAX as int))
                            by (nonlinear_arith);
                    }
                }
                li = li + 1;
            }
        } else {
            color = Color::new(0, 0, 0);
        }
        proof {
            if is_ray_intersecting_an_object {
                lemma_light_sum_bounds(
                    self.objects@,
                    self.lights@,
                    self.objects@[closest_object_index as int],
                    closest_intersection_point@,
                    d,
                    self.lights@.len() as int,
                );
            }
        }
        color.clamp();
        color
    }
}

} // verus!
