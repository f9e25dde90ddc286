//! A scene to try the tracer on: three large balls on a chequered plate, with
//! small balls of random make strewn between them.

use vstd::prelude::*;
use crate::hittable::hittable::Hittable;
use crate::hittable::hittables::disk::Disk;
use crate::hittable::hittables::sphere::Sphere;
use crate::material::material::Material;
use crate::material::materials::checkerboard::Checkerboard;
use crate::material::materials::dielectric::Dielectric;
use crate::material::materials::lambertian::Lambertian;
use crate::material::materials::metal::Metal;
use crate::random::random_bits;
use crate::scalar::Scalar;
use crate::scalar::lt;
use crate::scalar::less;
use crate::vec3::Point3;
use crate::vec3::Vec3;

verus! {

/// The random bits that decide one small ball: its size, where it lies along
/// x and along z, what it is made of, and its colour.
pub type BallDraw = (u64, u64, u64, u64, u64, u64, u64);

/// The small balls are laid out on a grid of this many places a side.
pub const GRID: u32 = 22;

/// Where the three large balls lie.
pub open spec fn large_ball_spec<T: Scalar>(k: int) -> Point3<T> {
    if k == 0 {
        Vec3(T::ratio_spec(-4i64, 1), T::one_spec(), T::zero_spec())
    } else if k == 1 {
        Vec3(T::zero_spec(), T::one_spec(), T::zero_spec())
    } else {
        Vec3(T::ratio_spec(4, 1), T::one_spec(), T::zero_spec())
    }
}

/// The material of the plate: matte grey and dull metal in turn.
pub open spec fn plate_material_spec<T: Scalar>() -> Material<T> {
    Material::Checkerboard(
        Checkerboard {
            mat1: Box::new(
                Material::Lambertian(
                    Lambertian {
                        albedo: Vec3(
                            T::ratio_spec(7, 10),
                            T::ratio_spec(7, 10),
                            T::ratio_spec(7, 10),
                        ),
                    },
                ),
            ),
            mat2: Box::new(
                Material::Metal(
                    Metal {
                        albedo: Vec3(
                            T::ratio_spec(1, 10),
                            T::ratio_spec(1, 10),
                            T::ratio_spec(1, 10),
                        ),
                        fuzziness: T::ratio_spec(1, 2),
                    },
                ),
            ),
            scale: T::ratio_spec(1, 2),
        },
    )
}

/// The plate and the three large balls: one matte, one of glass, one of
/// polished metal.
pub open spec fn fixed_part_spec<T: Scalar>() -> Seq<Hittable<T>> {
    seq![
        Hittable::Disk(
            Disk {
                center: Vec3(T::zero_spec(), T::zero_spec(), T::zero_spec()),
                normal: Vec3(T::zero_spec(), T::one_spec(), T::zero_spec()),
                radius: T::ratio_spec(15, 1),
                material: plate_material_spec(),
            },
        ),
        Hittable::Sphere(
            Sphere {
                center: large_ball_spec(0),
                radius: T::one_spec(),
                material: Material::Lambertian(
                    Lambertian {
                        albedo: Vec3(
                            T::ratio_spec(4, 10),
                            T::ratio_spec(2, 10),
                            T::ratio_spec(1, 10),
                        ),
                    },
                ),
            },
        ),
        Hittable::Sphere(
            Sphere {
                center: large_ball_spec(1),
                radius: T::one_spec(),
                material: Material::Dielectric(
                    Dielectric { index_of_refraction: T::ratio_spec(3, 2) },
                ),
            },
        ),
        Hittable::Sphere(
            Sphere {
                center: large_ball_spec(2),
                radius: T::one_spec(),
                material: Material::Metal(
                    Metal {
                        albedo: Vec3(
                            T::ratio_spec(7, 10),
                            T::ratio_spec(6, 10),
                            T::ratio_spec(5, 10),
                        ),
                        fuzziness: T::zero_spec(),
                    },
                ),
            },
        ),
    ]
}

/// The radius of a small ball: between a tenth and nine fortieths.
pub open spec fn small_radius_spec<T: Scalar>(draw: BallDraw) -> T {
    T::ratio_spec(1, 10).sum(T::unit_sample_spec(draw.0).quotient(T::ratio_spec(8, 1)))
}

/// Where the small ball of grid place `(a, b)` rests on the plate.
pub open spec fn small_center_spec<T: Scalar>(a: i32, b: i32, draw: BallDraw) -> Point3<T> {
    Vec3(
        T::ratio_spec(a as i64, 1).sum(T::ratio_spec(9, 10).product(T::unit_sample_spec(draw.1))),
        small_radius_spec(draw),
        T::ratio_spec(b as i64, 1).sum(T::ratio_spec(9, 10).product(T::unit_sample_spec(draw.2))),
    )
}

/// Whether a small ball centred at `center` has no room: it lies off the
/// plate or too near one of the large balls.
pub open spec fn is_crowded<T: Scalar>(center: Point3<T>) -> bool {
    ||| lt(T::ratio_spec(15, 1), center.length_spec())
    ||| lt(center.difference(large_ball_spec(0)).length_spec(), T::ratio_spec(11, 10))
    ||| lt(center.difference(large_ball_spec(1)).length_spec(), T::ratio_spec(11, 10))
    ||| lt(center.difference(large_ball_spec(2)).length_spec(), T::ratio_spec(11, 10))
}

/// What a small ball is made of: matte for nine draws in ten, brushed metal
/// for one in twenty, glass for the rest.
pub open spec fn small_material_spec<T: Scalar>(draw: BallDraw) -> Material<T> {
    let choice = T::unit_sample_spec(draw.3);
    let albedo = Vec3::<T>::random_spec((draw.4, draw.5, draw.6));
    if lt(choice, T::ratio_spec(9, 10)) {
        Material::Lambertian(Lambertian { albedo })
    } else if lt(choice, T::ratio_spec(95, 100)) {
        Material::Metal(Metal { albedo, fuzziness: T::ratio_spec(2, 10) })
    } else {
        Material::Dielectric(Dielectric { index_of_refraction: T::ratio_spec(3, 2) })
    }
}

/// The small ball of grid place `(a, b)`, if it has room.
pub open spec fn small_ball_spec<T: Scalar>(a: i32, b: i32, draw: BallDraw) -> Option<Hittable<T>> {
    let center = small_center_spec::<T>(a, b, draw);
    if is_crowded(center) {
        None
    } else {
        Some(
            Hittable::Sphere(
                Sphere {
                    center,
                    radius: small_radius_spec(draw),
                    material: small_material_spec(draw),
                },
            ),
        )
    }
}

/// The draw for grid place `k`; zeros once the draws have run out.
pub open spec fn ball_draw(draws: Seq<BallDraw>, k: int) -> BallDraw {
    if 0 <= k < draws.len() {
        draws[k]
    } else {
        (0u64, 0u64, 0u64, 0u64, 0u64, 0u64, 0u64)
    }
}

/// The scene after the first `n` grid places have been gone through. The
/// places are taken row by row, from `(-11, -11)` to `(10, 10)`.
pub open spec fn world_upto<T: Scalar>(draws: Seq<BallDraw>, n: int) -> Seq<Hittable<T>>
    decreases n,
{
    if n <= 0 {
        fixed_part_spec()
    } else {
        let before = world_upto::<T>(draws, n - 1);
        match small_ball_spec::<T>(
            ((n - 1) / 22 - 11) as i32,
            ((n - 1) % 22 - 11) as i32,
            ball_draw(draws, n - 1),
        ) {
            Some(ball) => before.push(ball),
            None => before,
        }
    }
}

/// The whole scene for given draws.
pub open spec fn random_world_spec<T: Scalar>(draws: Seq<BallDraw>) -> Seq<Hittable<T>> {
    world_upto(draws, 484)
}

fn large_ball<T: Scalar>(k: usize) -> (r: Point3<T>)
    ensures
        r == large_ball_spec::<T>(k as int),
{
    if k == 0 {
        Vec3::new(T::ratio(-4, 1), T::one(), T::zero())
    } else if k == 1 {
        Vec3::new(T::zero(), T::one(), T::zero())
    } else {
        Vec3::new(T::ratio(4, 1), T::one(), T::zero())
    }
}

fn fixed_part<T: Scalar>() -> (r: Vec<Hittable<T>>)
    ensures
        r@ == fixed_part_spec::<T>(),
{
    let plate = Checkerboard::new(
        T::ratio(1, 2),
        Lambertian::new(Vec3::new(T::ratio(7, 10), T::ratio(7, 10), T::ratio(7, 10))).into(),
        Metal::new(Vec3::new(T::ratio(1, 10), T::ratio(1, 10), T::ratio(1, 10)), T::ratio(1, 2))
            .into(),
    ).into();
    let matte = Lambertian::new(Vec3::new(T::ratio(4, 10), T::ratio(2, 10), T::ratio(1, 10)))
        .into();
    let glass = Dielectric::new(T::ratio(3, 2)).into();
    let polished = Metal::new(
        Vec3::new(T::ratio(7, 10), T::ratio(6, 10), T::ratio(5, 10)),
        T::zero(),
    ).into();
    let mut world: Vec<Hittable<T>> = Vec::new();
    world.push(
        Disk::new(
            Vec3::new(T::zero(), T::zero(), T::zero()),
            Vec3::new(T::zero(), T::one(), T::zero()),
            T::ratio(15, 1),
            plate,
        ).into(),
    );
    world.push(Sphere::new(large_ball(0), T::one(), matte).into());
    world.push(Sphere::new(large_ball(1), T::one(), glass).into());
    world.push(Sphere::new(large_ball(2), T::one(), polished).into());
    assert(world@ =~= fixed_part_spec::<T>());
    world
}

/// The small ball of grid place `(a, b)` for a given draw, if it has room.
pub fn small_ball<T: Scalar>(a: i32, b: i32, draw: BallDraw) -> (r: Option<Hittable<T>>)
    ensures
        r == small_ball_spec::<T>(a, b, draw),
{
    let radius = T::ratio(1, 10).plus(T::unit_sample(draw.0).over(T::ratio(8, 1)));
    let center = Vec3::new(
        T::ratio(a as i64, 1).plus(T::ratio(9, 10).times(T::unit_sample(draw.1))),
        radius,
        T::ratio(b as i64, 1).plus(T::ratio(9, 10).times(T::unit_sample(draw.2))),
    );
    if less(T::ratio(15, 1), center.length()) {
        return None;
    }
    let reach = T::ratio(11, 10);
    if less(center.minus(large_ball(0)).length(), reach) || less(
        center.minus(large_ball(1)).length(),
        reach,
    ) || less(center.minus(large_ball(2)).length(), reach) {
        return None;
    }
    let choice = T::unit_sample(draw.3);
    let material = if less(choice, T::ratio(9, 10)) {
        Lambertian::new(Vec3::random_with((draw.4, draw.5, draw.6))).into()
    } else if less(choice, T::ratio(95, 100)) {
        Metal::new(Vec3::random_with((draw.4, draw.5, draw.6)), T::ratio(2, 10)).into()
    } else {
        Dielectric::new(T::ratio(3, 2)).into()
    };
    Some(Sphere::new(center, radius, material).into())
}

fn scene_from<T: Scalar>(draws: &Vec<BallDraw>, fresh: bool) -> (r: (Vec<Hittable<T>>, Ghost<Seq<BallDraw>>))
    ensures
        r.0@ == random_world_spec::<T>(r.1@),
        !fresh ==> r.1@ == draws@,
{
    let mut world = fixed_part::<T>();
    let ghost mut used: Seq<BallDraw> = if fresh {
        Seq::empty()
    } else {
        draws@
    };
    let mut n: u32 = 0;
    while n < 484
        invariant
            n <= 484,
            fresh ==> used.len() == n,
            !fresh ==> used == draws@,
            world@ == world_upto::<T>(used, n as int),
        decreases 484 - n,
    {
        let draw = if fresh {
            (
                random_bits(),
                random_bits(),
                random_bits(),
                random_bits(),
                random_bits(),
                random_bits(),
                random_bits(),
            )
        } else if (n as usize) < draws.len() {
            draws[n as usize]
        } else {
            (0, 0, 0, 0, 0, 0, 0)
        };
        proof {
            if fresh {
                let longer = used.push(draw);
                world_ignores_later_draws::<T>(used, longer, n as int);
                used = longer;
            }
        }
        let a: i32 = (n / GRID) as i32 - 11;
        let b: i32 = (n % GRID) as i32 - 11;
        match small_ball::<T>(a, b, draw) {
            Some(ball) => {
                world.push(ball);
            },
            None => {},
        }
        n += 1;
    }
    (world, Ghost(used))
}

/// The scene up to a grid place depends only on the draws for the places
/// before it.
pub proof fn world_ignores_later_draws<T: Scalar>(draws: Seq<BallDraw>, other: Seq<BallDraw>, n: int)
    requires
        forall|k: int| 0 <= k < n ==> #[trigger] ball_draw(draws, k) == ball_draw(other, k),
    ensures
        world_upto::<T>(draws, n) == world_upto::<T>(other, n),
    decreases n,
{
    if n > 0 {
        world_ignores_later_draws::<T>(draws, other, n - 1);
        assert(ball_draw(draws, n - 1) == ball_draw(other, n - 1));
    }
}

/// The scene for given draws, one for each place of the grid, row by row.
pub fn random_world_with<T: Scalar>(draws: &Vec<BallDraw>) -> (r: Vec<Hittable<T>>)
    ensures
        r@ == random_world_spec::<T>(draws@),
{
    scene_from(draws, false).0
}

/// A scene of random small balls about three large ones.
pub fn random_world<T: Scalar>() -> (r: Vec<Hittable<T>>)
    ensures
        exists|draws: Seq<BallDraw>| r@ == #[trigger] random_world_spec::<T>(draws),
{
    let none: Vec<BallDraw> = Vec::new();
    scene_from(&none, true).0
}

} // verus!
