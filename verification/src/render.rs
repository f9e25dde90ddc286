//! The path tracer: the colour a ray brings back, and pictures made of such
//! colours.
//!
//! Every random choice is made from a `Draw`. Each function that needs
//! randomness comes in two forms: one takes its draws as an argument and is
//! an exact function of them, the other fetches fresh draws as it goes and
//! promises that its result is what the first form gives for some draws.

use vstd::prelude::*;
use crate::camera::Camera;
use crate::fixed::Fixed;
use crate::fixed::units_change_nothing;
use crate::hittable::hittable::Hittable;
use crate::hittable::interval::Interval;
use crate::image_encoder::image_encoder::ImageEncoder;
use crate::hittable::world;
use crate::material::material::Draw;
use crate::material::material::fresh_draw;
use crate::ray::Ray;
use crate::scalar::Scalar;
use crate::vec3::Colour;
use crate::vec3::Vec3;

verus! {

#[derive(Debug, Clone, Copy)]
pub struct RenderOptions {
    pub image_width: u32,
    pub image_height: u32,
    pub samples: u32,
    pub max_bounces: u32,
    pub show_progress_bar: bool,
}

/// The draw at the head of a supply; zeros once the supply has run out.
pub open spec fn first_draw(draws: Seq<Draw>) -> Draw {
    if draws.len() > 0 {
        draws[0]
    } else {
        (0u64, 0u64, 0u64, 0u64)
    }
}

/// The supply without its head.
pub open spec fn later_draws(draws: Seq<Draw>) -> Seq<Draw> {
    if draws.len() > 0 {
        draws.drop_first()
    } else {
        draws
    }
}

/// Hits closer than this are passed over, so that a ray does not strike the
/// surface it has just left.
pub open spec fn visible_range<T: Scalar>() -> Interval<T> {
    Interval { min: T::ratio_spec(1, 1000), max: T::infinity_spec() }
}

/// The range of hits that count is well formed.
pub proof fn visible_range_is_ordered<T: Scalar>()
    ensures
        visible_range::<T>().wf(),
{
    T::ratio_is_number(1, 1000);
    T::infinity_is_greatest(T::ratio_spec(1, 1000));
}

/// The colour of the sky in the direction of a ray: a blend of the colour at
/// the horizon and the colour overhead, by how steeply the ray climbs.
pub open spec fn background<T: Scalar>(ray: Ray<T>) -> Colour<T> {
    let t = T::ratio_spec(1, 2).product(ray.direction.unit_vector_spec().1.sum(T::one_spec()));
    Vec3(T::ratio_spec(9, 10), T::ratio_spec(9, 10), T::ratio_spec(9, 10)).scale(
        T::one_spec().difference(t),
    ).sum(Vec3(T::ratio_spec(1, 2), T::ratio_spec(7, 10), T::one_spec()).scale(t))
}

/// The colour that a ray brings back from a scene when it may bounce `depth`
/// times and takes its random choices from `draws`, one draw a bounce.
///
/// With no bounces left the ray brings back nothing. A ray that misses the
/// scene brings back the sky. A ray that strikes a surface is scattered by
/// the surface's material: if it is absorbed it brings back nothing, else it
/// brings back what the scattered ray does, tinted by the attenuation.
pub open spec fn ray_colour_spec<T: Scalar>(
    ray: Ray<T>,
    world: &Vec<Hittable<T>>,
    depth: nat,
    draws: Seq<Draw>,
) -> Colour<T>
    decreases depth,
{
    if depth == 0 {
        Vec3::zero_spec()
    } else {
        match world::hit_spec(world, ray, visible_range()) {
            Some(h) => match h.material.scatter_spec(ray, h, first_draw(draws)) {
                Some(m) => m.attenuation.product(
                    ray_colour_spec(m.scattered, world, (depth - 1) as nat, later_draws(draws)),
                ),
                None => Vec3::zero_spec(),
            },
            None => background(ray),
        }
    }
}

/// The ray through pixel `(i, j)`, counted from the bottom left, for one
/// sample: the first two parts of the draw place the ray within the pixel,
/// the last two on the lens.
pub open spec fn sample_ray<T: Scalar>(
    options: RenderOptions,
    camera: Camera<T>,
    i: u32,
    j: u32,
    draw: Draw,
) -> Ray<T> {
    let u = T::ratio_spec(i as i64, 1).sum(T::unit_sample_spec(draw.0)).quotient(
        T::ratio_spec((options.image_width - 1) as i64, 1),
    );
    let v = T::ratio_spec(j as i64, 1).sum(T::unit_sample_spec(draw.1)).quotient(
        T::ratio_spec((options.image_height - 1) as i64, 1),
    );
    camera.get_ray_spec(u, v, (draw.2, draw.3))
}

/// What one sample adds to its pixel: the colour its ray brings back,
/// divided by the number of samples. The head of `draws` makes the ray, the
/// rest goes to the bounces.
pub open spec fn sample_colour_spec<T: Scalar>(
    options: RenderOptions,
    camera: Camera<T>,
    world: &Vec<Hittable<T>>,
    i: u32,
    j: u32,
    draws: Seq<Draw>,
) -> Colour<T> {
    ray_colour_spec(
        sample_ray(options, camera, i, j, first_draw(draws)),
        world,
        options.max_bounces as nat,
        later_draws(draws),
    ).scale(T::one_spec().quotient(T::ratio_spec(options.samples as i64, 1)))
}

/// The supply of draws for the sample `k` places after `first` in a pool;
/// empty beyond the pool's end.
pub open spec fn sample_draws(pool: Seq<Seq<Draw>>, first: int, k: int) -> Seq<Draw> {
    if 0 <= first + k < pool.len() {
        pool[first + k]
    } else {
        Seq::empty()
    }
}

/// The colour of pixel `(i, j)` after `n` samples, which take their draws
/// from the pool at `first` and onward: the sum of what the samples add,
/// starting from black.
pub open spec fn pixel_colour_spec<T: Scalar>(
    options: RenderOptions,
    camera: Camera<T>,
    world: &Vec<Hittable<T>>,
    i: u32,
    j: u32,
    pool: Seq<Seq<Draw>>,
    first: int,
    n: int,
) -> Colour<T>
    decreases n,
{
    if n <= 0 {
        Vec3::zero_spec()
    } else {
        pixel_colour_spec(options, camera, world, i, j, pool, first, n - 1).sum(
            sample_colour_spec(options, camera, world, i, j, sample_draws(pool, first, n - 1)),
        )
    }
}

/// The pool as sequences.
pub open spec fn pool_view(pool: Seq<Vec<Draw>>) -> Seq<Seq<Draw>> {
    Seq::new(pool.len(), |k: int| pool[k]@)
}

/// The colour of a pixel depends only on the draws of its own samples.
pub proof fn pixel_colour_agrees<T: Scalar>(
    options: RenderOptions,
    camera: Camera<T>,
    world: &Vec<Hittable<T>>,
    i: u32,
    j: u32,
    pool: Seq<Seq<Draw>>,
    first: int,
    other_pool: Seq<Seq<Draw>>,
    other_first: int,
    n: int,
)
    requires
        forall|k: int|
            0 <= k < n ==> #[trigger] sample_draws(pool, first, k) == sample_draws(
                other_pool,
                other_first,
                k,
            ),
    ensures
        pixel_colour_spec(options, camera, world, i, j, pool, first, n) == pixel_colour_spec(
            options,
            camera,
            world,
            i,
            j,
            other_pool,
            other_first,
            n,
        ),
    decreases n,
{
    if n > 0 {
        pixel_colour_agrees(options, camera, world, i, j, pool, first, other_pool, other_first, n - 1);
        assert(sample_draws(pool, first, n - 1) == sample_draws(other_pool, other_first, n - 1));
    }
}

fn sky<T: Scalar>(ray: &Ray<T>) -> (r: Colour<T>)
    ensures
        r == background(*ray),
{
    let unit_direction = ray.direction.unit_vector();
    let t = T::ratio(1, 2).times(unit_direction.y().plus(T::one()));
    Vec3::new(T::ratio(9, 10), T::ratio(9, 10), T::ratio(9, 10)).scaled(T::one().minus(t)).plus(
        Vec3::new(T::ratio(1, 2), T::ratio(7, 10), T::one()).scaled(t),
    )
}

fn ray_colour_from<T: Scalar>(
    ray: &Ray<T>,
    world: &Vec<Hittable<T>>,
    max_depth: u32,
    draws: &Vec<Draw>,
    start: usize,
) -> (r: Colour<T>)
    requires
        start <= draws@.len(),
    ensures
        r == ray_colour_spec(*ray, world, max_depth as nat, draws@.skip(start as int)),
    decreases max_depth,
{
    if max_depth == 0 {
        return Vec3::zero();
    }
    let range = Interval { min: T::ratio(1, 1000), max: T::infinity() };
    match world::hit(world, ray, &range) {
        Some(hit_record) => {
            let draw = if start < draws.len() {
                draws[start]
            } else {
                (0, 0, 0, 0)
            };
            let next = if start < draws.len() {
                start + 1
            } else {
                start
            };
            proof {
                assert(later_draws(draws@.skip(start as int)) =~= draws@.skip(next as int));
            }
            match hit_record.material.scatter_with(ray, &hit_record, draw) {
                Some(mat_record) => mat_record.attenuation.times(
                    ray_colour_from(&mat_record.scattered, world, max_depth - 1, draws, next),
                ),
                None => Vec3::zero(),
            }
        },
        None => sky(ray),
    }
}

/// The colour that a ray brings back when its random choices are the given
/// draws, one a bounce, and zeros once they run out.
pub fn ray_colour_with<T: Scalar>(
    ray: &Ray<T>,
    world: &Vec<Hittable<T>>,
    max_depth: u32,
    draws: &Vec<Draw>,
) -> (r: Colour<T>)
    ensures
        r == ray_colour_spec(*ray, world, max_depth as nat, draws@),
        max_depth == 0 ==> r == Vec3::<T>::zero_spec(),
{
    assert(draws@.skip(0) =~= draws@);
    ray_colour_from(ray, world, max_depth, draws, 0)
}

/// The colour that a ray brings back, its random choices made afresh.
pub fn ray_colour<T: Scalar>(ray: &Ray<T>, world: &Vec<Hittable<T>>, max_depth: u32) -> (r: Colour<
    T,
>)
    ensures
        exists|draws: Seq<Draw>| r == #[trigger] ray_colour_spec(*ray, world, max_depth as nat, draws),
        max_depth == 0 ==> r == Vec3::<T>::zero_spec(),
    decreases max_depth,
{
    if max_depth == 0 {
        assert(Vec3::<T>::zero_spec() == ray_colour_spec(*ray, world, 0, Seq::<Draw>::empty()));
        return Vec3::zero();
    }
    let range = Interval { min: T::ratio(1, 1000), max: T::infinity() };
    match world::hit(world, ray, &range) {
        Some(hit_record) => {
            let draw = fresh_draw();
            match hit_record.material.scatter_with(ray, &hit_record, draw) {
                Some(mat_record) => {
                    let onward = ray_colour(&mat_record.scattered, world, max_depth - 1);
                    let r = mat_record.attenuation.times(onward);
                    proof {
                        let rest = choose|rest: Seq<Draw>|
                            onward == #[trigger] ray_colour_spec(
                                mat_record.scattered,
                                world,
                                (max_depth - 1) as nat,
                                rest,
                            );
                        let all = seq![draw] + rest;
                        assert(first_draw(all) == draw);
                        assert(later_draws(all) =~= rest);
                        assert(r == ray_colour_spec(*ray, world, max_depth as nat, all));
                    }
                    r
                },
                None => {
                    assert(Vec3::<T>::zero_spec() == ray_colour_spec(
                        *ray,
                        world,
                        max_depth as nat,
                        seq![draw],
                    ));
                    Vec3::zero()
                },
            }
        },
        None => {
            assert(background(*ray) == ray_colour_spec(
                *ray,
                world,
                max_depth as nat,
                Seq::<Draw>::empty(),
            ));
            sky(ray)
        },
    }
}

/// Whether `c` is the colour of pixel `(i, j)` for some draws.
pub open spec fn is_pixel_colour<T: Scalar>(
    options: RenderOptions,
    camera: Camera<T>,
    world: &Vec<Hittable<T>>,
    i: u32,
    j: u32,
    c: Colour<T>,
) -> bool {
    exists|pool: Seq<Seq<Draw>>|
        c == #[trigger] pixel_colour_spec(
            options,
            camera,
            world,
            i,
            j,
            pool,
            0,
            options.samples as int,
        )
}

/// The colour at column `x` of row `y`, counted from the top left, of the
/// picture made from a pool of draws. The rows of the picture run from the
/// top down, those of the camera from the bottom up. The samples of the
/// picture take their draws from the pool in the order of the picture: row
/// by row, pixel by pixel, sample by sample.
pub open spec fn frame_pixel_spec<T: Scalar>(
    options: RenderOptions,
    camera: Camera<T>,
    world: &Vec<Hittable<T>>,
    pool: Seq<Seq<Draw>>,
    x: u32,
    y: u32,
) -> Colour<T> {
    pixel_colour_spec(
        options,
        camera,
        world,
        x,
        (options.image_height - 1 - y) as u32,
        pool,
        (y * options.image_width + x) * options.samples,
        options.samples as int,
    )
}

/// Whether `row` is row `y` of the picture made from a pool of draws.
pub open spec fn is_frame_row<T: Scalar>(
    options: RenderOptions,
    camera: Camera<T>,
    world: &Vec<Hittable<T>>,
    pool: Seq<Seq<Draw>>,
    y: u32,
    row: Seq<Colour<T>>,
) -> bool {
    &&& row.len() == options.image_width
    &&& forall|x: int|
        0 <= x < options.image_width ==> #[trigger] row[x] == frame_pixel_spec(
            options,
            camera,
            world,
            pool,
            x as u32,
            y,
        )
}

/// Whether `frame` is the picture made from a pool of draws.
pub open spec fn is_frame<T: Scalar>(
    options: RenderOptions,
    camera: Camera<T>,
    world: &Vec<Hittable<T>>,
    pool: Seq<Seq<Draw>>,
    frame: Seq<Vec<Colour<T>>>,
) -> bool {
    &&& frame.len() == options.image_height
    &&& forall|y: int|
        0 <= y < options.image_height ==> is_frame_row(
            options,
            camera,
            world,
            pool,
            y as u32,
            (#[trigger] frame[y])@,
        )
}

/// Whether `row` is a row of pixels of the camera's row `j`, each for some
/// draws.
pub open spec fn is_row<T: Scalar>(
    options: RenderOptions,
    camera: Camera<T>,
    world: &Vec<Hittable<T>>,
    j: u32,
    row: Seq<Colour<T>>,
) -> bool {
    &&& row.len() == options.image_width
    &&& forall|x: int|
        0 <= x < options.image_width ==> is_pixel_colour(
            options,
            camera,
            world,
            x as u32,
            j,
            #[trigger] row[x],
        )
}

impl RenderOptions {
    /// The row of the picture, counted from the top, that holds the camera's
    /// row `j`, counted from the bottom.
    pub fn row_from_top(&self, j: u32) -> (y: u32)
        requires
            j < self.image_height,
        ensures
            y == self.image_height - 1 - j,
    {
        self.image_height - (j + 1)
    }
}

fn place_in_picture<T: Scalar>(options: &RenderOptions, camera: &Camera<T>, i: u32, j: u32, draw: Draw)
    -> (r: Ray<T>)
    requires
        options.image_width >= 1,
        options.image_height >= 1,
    ensures
        r == sample_ray(*options, *camera, i, j, draw),
{
    let u = T::ratio(i as i64, 1).plus(T::unit_sample(draw.0)).over(
        T::ratio((options.image_width - 1) as i64, 1),
    );
    let v = T::ratio(j as i64, 1).plus(T::unit_sample(draw.1)).over(
        T::ratio((options.image_height - 1) as i64, 1),
    );
    camera.get_ray_with(u, v, (draw.2, draw.3))
}

fn sample_share<T: Scalar>(options: &RenderOptions) -> (r: T)
    ensures
        r == T::one_spec().quotient(T::ratio_spec(options.samples as i64, 1)),
{
    T::one().over(T::ratio(options.samples as i64, 1))
}

/// The colour of pixel `(i, j)`, counted from the bottom left, when its
/// samples take their draws from the pool at `first` and onward.
pub fn pixel_colour_with<T: Scalar>(
    options: &RenderOptions,
    camera: &Camera<T>,
    world: &Vec<Hittable<T>>,
    i: u32,
    j: u32,
    pool: &Vec<Vec<Draw>>,
    first: usize,
) -> (r: Colour<T>)
    requires
        options.image_width >= 1,
        options.image_height >= 1,
    ensures
        r == pixel_colour_spec(
            *options,
            *camera,
            world,
            i,
            j,
            pool_view(pool@),
            first as int,
            options.samples as int,
        ),
{
    let none: Vec<Draw> = Vec::new();
    let share = sample_share::<T>(options);
    let mut colour = Vec3::zero();
    let mut s: u32 = 0;
    while s < options.samples
        invariant
            s <= options.samples,
            options.image_width >= 1,
            options.image_height >= 1,
            none@.len() == 0,
            share == T::one_spec().quotient(T::ratio_spec(options.samples as i64, 1)),
            colour == pixel_colour_spec(
                *options,
                *camera,
                world,
                i,
                j,
                pool_view(pool@),
                first as int,
                s as int,
            ),
        decreases options.samples - s,
    {
        let index: u128 = first as u128 + s as u128;
        let draws = if index < pool.len() as u128 {
            &pool[index as usize]
        } else {
            &none
        };
        assert(draws@ =~= sample_draws(pool_view(pool@), first as int, s as int));
        let (draw, start): (Draw, usize) = if draws.len() > 0 {
            (draws[0], 1)
        } else {
            ((0, 0, 0, 0), 0)
        };
        assert(draws@.skip(start as int) =~= later_draws(draws@));
        let ray = place_in_picture(options, camera, i, j, draw);
        let c = ray_colour_from(&ray, world, options.max_bounces, draws, start);
        colour = colour.plus(c.scaled(share));
        s += 1;
    }
    colour
}

/// The colour of pixel `(i, j)`, counted from the bottom left, its random
/// choices made afresh.
pub fn pixel_colour<T: Scalar>(
    options: &RenderOptions,
    camera: &Camera<T>,
    world: &Vec<Hittable<T>>,
    i: u32,
    j: u32,
) -> (r: Colour<T>)
    requires
        options.image_width >= 1,
        options.image_height >= 1,
    ensures
        is_pixel_colour(*options, *camera, world, i, j, r),
{
    let share = sample_share::<T>(options);
    let mut colour = Vec3::zero();
    let ghost mut pool: Seq<Seq<Draw>> = Seq::empty();
    let mut s: u32 = 0;
    while s < options.samples
        invariant
            s <= options.samples,
            options.image_width >= 1,
            options.image_height >= 1,
            pool.len() == s,
            share == T::one_spec().quotient(T::ratio_spec(options.samples as i64, 1)),
            colour == pixel_colour_spec(*options, *camera, world, i, j, pool, 0, s as int),
        decreases options.samples - s,
    {
        let draw = fresh_draw();
        let ray = place_in_picture(options, camera, i, j, draw);
        let c = ray_colour(&ray, world, options.max_bounces);
        proof {
            let rest = choose|rest: Seq<Draw>|
                c == #[trigger] ray_colour_spec(ray, world, options.max_bounces as nat, rest);
            let all = seq![draw] + rest;
            assert(first_draw(all) == draw);
            assert(later_draws(all) =~= rest);
            let longer = pool.push(all);
            assert forall|k: int| 0 <= k < s implies #[trigger] sample_draws(pool, 0, k)
                == sample_draws(longer, 0, k) by {}
            pixel_colour_agrees(*options, *camera, world, i, j, pool, 0, longer, 0, s as int);
            assert(sample_draws(longer, 0, s as int) == all);
            pool = longer;
        }
        colour = colour.plus(c.scaled(share));
        s += 1;
    }
    colour
}

/// The pixels of the camera's row `j`, counted from the bottom, their random
/// choices made afresh.
pub fn render_row<T: Scalar>(
    options: &RenderOptions,
    camera: &Camera<T>,
    world: &Vec<Hittable<T>>,
    j: u32,
) -> (r: Vec<Colour<T>>)
    requires
        options.image_height >= 1,
    ensures
        is_row(*options, *camera, world, j, r@),
{
    let mut row: Vec<Colour<T>> = Vec::new();
    let mut i: u32 = 0;
    while i < options.image_width
        invariant
            i <= options.image_width,
            options.image_height >= 1,
            row@.len() == i,
            forall|x: int|
                0 <= x < i ==> is_pixel_colour(
                    *options,
                    *camera,
                    world,
                    x as u32,
                    j,
                    #[trigger] row@[x],
                ),
        decreases options.image_width - i,
    {
        let colour = pixel_colour(options, camera, world, i, j);
        row.push(colour);
        i += 1;
    }
    row
}

/// Row `y`, counted from the top, of the picture made from a pool of draws.
pub fn render_row_with<T: Scalar>(
    options: &RenderOptions,
    camera: &Camera<T>,
    world: &Vec<Hittable<T>>,
    y: u32,
    pool: &Vec<Vec<Draw>>,
) -> (r: Vec<Colour<T>>)
    requires
        y < options.image_height,
    ensures
        is_frame_row(*options, *camera, world, pool_view(pool@), y, r@),
{
    let j = options.row_from_top(y);
    let mut row: Vec<Colour<T>> = Vec::new();
    let mut x: u32 = 0;
    while x < options.image_width
        invariant
            x <= options.image_width,
            y < options.image_height,
            j == options.image_height - 1 - y,
            row@.len() == x,
            forall|k: int|
                0 <= k < x ==> #[trigger] row@[k] == frame_pixel_spec(
                    *options,
                    *camera,
                    world,
                    pool_view(pool@),
                    k as u32,
                    y,
                ),
        decreases options.image_width - x,
    {
        assert(y * options.image_width + x < 0x1_0000_0000 * 0x1_0000_0000) by (nonlinear_arith)
            requires
                y < 0x1_0000_0000,
                options.image_width <= 0xffff_ffff,
                x < options.image_width,
        ;
        let pixel: u128 = y as u128 * options.image_width as u128 + x as u128;
        assert(pixel * options.samples < 0x1_0000_0000_0000_0000 * 0x1_0000_0000)
            by (nonlinear_arith)
            requires
                pixel < 0x1_0000_0000_0000_0000,
                options.samples < 0x1_0000_0000,
        ;
        let first: u128 = pixel * options.samples as u128;
        let start: usize = if first < pool.len() as u128 {
            first as usize
        } else {
            pool.len()
        };
        proof {
            assert forall|k: int| 0 <= k < options.samples implies #[trigger] sample_draws(
                pool_view(pool@),
                start as int,
                k,
            ) == sample_draws(pool_view(pool@), first as int, k) by {}
            pixel_colour_agrees(
                *options,
                *camera,
                world,
                x,
                j,
                pool_view(pool@),
                start as int,
                pool_view(pool@),
                first as int,
                options.samples as int,
            );
        }
        let colour = pixel_colour_with(options, camera, world, x, j, pool, start);
        row.push(colour);
        x += 1;
    }
    row
}

/// The picture made from a pool of draws, as rows from the top down.
pub fn render_with<T: Scalar>(
    options: &RenderOptions,
    camera: &Camera<T>,
    world: &Vec<Hittable<T>>,
    pool: &Vec<Vec<Draw>>,
) -> (r: Vec<Vec<Colour<T>>>)
    ensures
        is_frame(*options, *camera, world, pool_view(pool@), r@),
{
    let mut frame: Vec<Vec<Colour<T>>> = Vec::new();
    let mut y: u32 = 0;
    while y < options.image_height
        invariant
            y <= options.image_height,
            frame@.len() == y,
            forall|k: int|
                0 <= k < y ==> is_frame_row(
                    *options,
                    *camera,
                    world,
                    pool_view(pool@),
                    k as u32,
                    (#[trigger] frame@[k])@,
                ),
        decreases options.image_height - y,
    {
        let row = render_row_with(options, camera, world, y, pool);
        frame.push(row);
        y += 1;
    }
    frame
}

/// Whether `kept` is what an encoder keeps of the colour of the pixel at
/// column `x` of row `y`, counted from the top left, for some draws. Row `y`
/// of the picture holds the camera's row `image_height - 1 - y`.
pub open spec fn is_stored_pixel<T: Scalar, O: ImageEncoder<T>>(
    options: RenderOptions,
    camera: Camera<T>,
    world: &Vec<Hittable<T>>,
    x: u32,
    y: u32,
    kept: Seq<u8>,
) -> bool {
    exists|c: Colour<T>|
        is_pixel_colour(options, camera, world, x, (options.image_height - 1 - y) as u32, c)
            && kept == #[trigger] O::encoding(c)
}

/// Writes a finished row of the camera, counted from the bottom, to its
/// place in a picture, whose rows are counted from the top: the camera's row
/// `j` becomes row `image_height - 1 - j`. Pixel `x` of the row goes to
/// column `x`. No other row of the picture changes.
pub fn write_row<T: Scalar, O: ImageEncoder<T>>(
    image: &mut O,
    options: &RenderOptions,
    j: u32,
    row: &Vec<Colour<T>>,
)
    requires
        old(image).wf(),
        old(image).width() == options.image_width,
        old(image).height() == options.image_height,
        j < options.image_height,
        row@.len() == options.image_width,
    ensures
        final(image).wf(),
        final(image).width() == options.image_width,
        final(image).height() == options.image_height,
        forall|x: u32|
            x < options.image_width ==> #[trigger] final(image).stored(
                x,
                (options.image_height - 1 - j) as u32,
            ) == O::encoding(row@[x as int]),
        forall|x: u32, y: u32|
            x < options.image_width && y < options.image_height && y != options.image_height - 1
                - j ==> #[trigger] final(image).stored(x, y) == old(image).stored(x, y),
{
    let y = options.row_from_top(j);
    let mut i: u32 = 0;
    while i < options.image_width
        invariant
            i <= options.image_width,
            y == options.image_height - 1 - j,
            y < options.image_height,
            row@.len() == options.image_width,
            image.wf(),
            image.width() == options.image_width,
            image.height() == options.image_height,
            forall|x: u32| x < i ==> #[trigger] image.stored(x, y) == O::encoding(row@[x as int]),
            forall|a: u32, b: u32|
                a < options.image_width && b < options.image_height && b != y
                    ==> #[trigger] image.stored(a, b) == old(image).stored(a, b),
        decreases options.image_width - i,
    {
        image.set_pixel(i, y, row[i as usize]);
        i += 1;
    }
}

/// Whether an encoder holds the picture made from a pool of draws: at every
/// place what it keeps of the colour that the pool gives that place.
pub open spec fn is_stored_frame<T: Scalar, O: ImageEncoder<T>>(
    options: RenderOptions,
    camera: Camera<T>,
    world: &Vec<Hittable<T>>,
    pool: Seq<Seq<Draw>>,
    image: O,
) -> bool {
    &&& image.width() == options.image_width
    &&& image.height() == options.image_height
    &&& forall|x: u32, y: u32|
        x < options.image_width && y < options.image_height ==> #[trigger] image.stored(x, y)
            == O::encoding(frame_pixel_spec(options, camera, world, pool, x, y))
}

/// A picture each of whose pixels holds the colour that some draws give it
/// is the picture made from one pool of draws: the pool that holds, in the
/// order of the picture, the draws of each pixel.
pub proof fn picture_has_a_pool<T: Scalar, O: ImageEncoder<T>>(
    options: RenderOptions,
    camera: Camera<T>,
    world: &Vec<Hittable<T>>,
    image: O,
)
    requires
        image.width() == options.image_width,
        image.height() == options.image_height,
        forall|x: u32, y: u32|
            x < options.image_width && y < options.image_height ==> is_stored_pixel::<T, O>(
                options,
                camera,
                world,
                x,
                y,
                #[trigger] image.stored(x, y),
            ),
    ensures
        exists|pool: Seq<Seq<Draw>>| #[trigger]
            is_stored_frame::<T, O>(options, camera, world, pool, image),
{
    let w = options.image_width as int;
    let h = options.image_height as int;
    let n = options.samples as int;
    let colour_at = |x: u32, y: u32|
        choose|c: Colour<T>|
            is_pixel_colour(options, camera, world, x, (h - 1 - y) as u32, c) && image.stored(x, y)
                == #[trigger] O::encoding(c);
    let pool_at = |x: u32, y: u32|
        choose|pool: Seq<Seq<Draw>>|
            colour_at(x, y) == #[trigger] pixel_colour_spec(
                options,
                camera,
                world,
                x,
                (h - 1 - y) as u32,
                pool,
                0,
                n,
            );
    let whole = Seq::new(
        (w * h * n) as nat,
        |at: int| sample_draws(pool_at(((at / n) % w) as u32, ((at / n) / w) as u32), 0, at % n),
    );
    assert forall|x: u32, y: u32| x < w && y < h implies #[trigger] image.stored(x, y)
        == O::encoding(frame_pixel_spec(options, camera, world, whole, x, y)) by {
        assert(is_stored_pixel::<T, O>(options, camera, world, x, y, image.stored(x, y)));
        let c = colour_at(x, y);
        assert(is_pixel_colour(options, camera, world, x, (h - 1 - y) as u32, c));
        let own = pool_at(x, y);
        let pixel = y * w + x;
        let first = pixel * n;
        assert forall|k: int| 0 <= k < n implies #[trigger] sample_draws(whole, first, k)
            == sample_draws(own, 0, k) by {
            let at = first + k;
            vstd::arithmetic::div_mod::lemma_fundamental_div_mod_converse(at, n, pixel, k);
            vstd::arithmetic::div_mod::lemma_fundamental_div_mod_converse(pixel, w, y as int, x as int);
            assert(pixel + 1 <= w * h) by (nonlinear_arith)
                requires
                    pixel == y * w + x,
                    0 <= x < w,
                    0 <= y < h,
            ;
            assert(at < w * h * n) by (nonlinear_arith)
                requires
                    at == pixel * n + k,
                    0 <= k < n,
                    pixel + 1 <= w * h,
            ;
            assert(0 <= at) by (nonlinear_arith)
                requires
                    at == pixel * n + k,
                    0 <= k,
                    0 <= n,
                    0 <= pixel,
            ;
            assert(whole[at] == sample_draws(own, 0, k));
        }
        pixel_colour_agrees(options, camera, world, x, (h - 1 - y) as u32, whole, first, own, 0, n);
    }
    assert(is_stored_frame::<T, O>(options, camera, world, whole, image));
}

/// The picture of a scene in an encoder, made from a pool of draws. The
/// samples take their draws from the pool in the order of the picture: row
/// by row from the top, pixel by pixel, sample by sample.
pub fn render_into_with<T: Scalar, O: ImageEncoder<T>>(
    options: &RenderOptions,
    camera: &Camera<T>,
    world: &Vec<Hittable<T>>,
    pool: &Vec<Vec<Draw>>,
) -> (image: O)
    requires
        O::can_hold(options.image_width, options.image_height),
    ensures
        image.wf(),
        is_stored_frame::<T, O>(*options, *camera, world, pool_view(pool@), image),
{
    let mut image = O::new(options.image_width, options.image_height);
    let mut j: u32 = 0;
    while j < options.image_height
        invariant
            j <= options.image_height,
            image.wf(),
            image.width() == options.image_width,
            image.height() == options.image_height,
            forall|x: u32, y: u32|
                x < options.image_width && y < options.image_height && y >= options.image_height
                    - j ==> #[trigger] image.stored(x, y) == O::encoding(
                    frame_pixel_spec(*options, *camera, world, pool_view(pool@), x, y),
                ),
        decreases options.image_height - j,
    {
        let y = options.row_from_top(j);
        let row = render_row_with(options, camera, world, y, pool);
        let ghost before = image;
        write_row(&mut image, options, j, &row);
        proof {
            assert forall|x: u32, b: u32|
                x < options.image_width && b < options.image_height && b >= options.image_height
                    - (j + 1) implies #[trigger] image.stored(x, b) == O::encoding(
                frame_pixel_spec(*options, *camera, world, pool_view(pool@), x, b),
            ) by {
                if b == y {
                    assert(y == (options.image_height - 1 - j) as u32);
                    assert(image.stored(x, y) == O::encoding(row@[x as int]));
                } else {
                    assert(image.stored(x, b) == before.stored(x, b));
                }
            }
        }
        j += 1;
    }
    image
}

/// Two pictures of one scene in encoders of one kind, made with the same
/// camera and options from the same pool of draws, hold the same at every
/// place.
pub proof fn stored_frame_is_repeatable<T: Scalar, O: ImageEncoder<T>>(
    options: RenderOptions,
    camera: Camera<T>,
    world: &Vec<Hittable<T>>,
    pool: Seq<Seq<Draw>>,
    first: O,
    second: O,
)
    requires
        is_stored_frame::<T, O>(options, camera, world, pool, first),
        is_stored_frame::<T, O>(options, camera, world, pool, second),
    ensures
        first.width() == second.width(),
        first.height() == second.height(),
        forall|x: u32, y: u32|
            x < options.image_width && y < options.image_height ==> #[trigger] first.stored(x, y)
                == second.stored(x, y),
{
    assert forall|x: u32, y: u32|
        x < options.image_width && y < options.image_height implies #[trigger] first.stored(x, y)
        == second.stored(x, y) by {
        assert(second.stored(x, y) == O::encoding(
            frame_pixel_spec(options, camera, world, pool, x, y),
        ));
    }
}

/// The picture of a scene in an encoder, its random choices made afresh: the
/// picture that `render_into_with` makes from some pool of draws. The rows of
/// the camera are worked out one after the other from the bottom up, and
/// each is written to its place in the picture.
pub fn render<T: Scalar, O: ImageEncoder<T>>(
    options: &RenderOptions,
    camera: &Camera<T>,
    world: &Vec<Hittable<T>>,
) -> (image: O)
    requires
        O::can_hold(options.image_width, options.image_height),
    ensures
        image.wf(),
        image.width() == options.image_width,
        image.height() == options.image_height,
        forall|x: u32, y: u32|
            x < options.image_width && y < options.image_height ==> is_stored_pixel::<T, O>(
                *options,
                *camera,
                world,
                x,
                y,
                #[trigger] image.stored(x, y),
            ),
        exists|pool: Seq<Seq<Draw>>| #[trigger]
            is_stored_frame::<T, O>(*options, *camera, world, pool, image),
{
    let mut image = O::new(options.image_width, options.image_height);
    let mut j: u32 = 0;
    while j < options.image_height
        invariant
            j <= options.image_height,
            image.wf(),
            image.width() == options.image_width,
            image.height() == options.image_height,
            forall|x: u32, y: u32|
                x < options.image_width && y < options.image_height && y >= options.image_height
                    - j ==> is_stored_pixel::<T, O>(
                    *options,
                    *camera,
                    world,
                    x,
                    y,
                    #[trigger] image.stored(x, y),
                ),
        decreases options.image_height - j,
    {
        let row = render_row(options, camera, world, j);
        let ghost before = image;
        write_row(&mut image, options, j, &row);
        proof {
            let y = (options.image_height - 1 - j) as u32;
            assert forall|x: u32, b: u32|
                x < options.image_width && b < options.image_height && b >= options.image_height
                    - (j + 1) implies is_stored_pixel::<T, O>(
                *options,
                *camera,
                world,
                x,
                b,
                #[trigger] image.stored(x, b),
            ) by {
                if b == y {
                    assert(image.stored(x, y) == O::encoding(row@[x as int]));
                    assert(is_pixel_colour(*options, *camera, world, x, j, row@[x as int]));
                } else {
                    assert(image.stored(x, b) == before.stored(x, b));
                }
            }
        }
        j += 1;
    }
    proof {
        picture_has_a_pool::<T, O>(*options, *camera, world, image);
    }
    image
}

/// Two pictures of one scene, made with the same camera and options from the
/// same pool of draws, are the same picture.
pub proof fn render_is_repeatable<T: Scalar>(
    options: RenderOptions,
    camera: Camera<T>,
    world: &Vec<Hittable<T>>,
    pool: Seq<Seq<Draw>>,
    first: Seq<Vec<Colour<T>>>,
    second: Seq<Vec<Colour<T>>>,
)
    requires
        is_frame(options, camera, world, pool, first),
        is_frame(options, camera, world, pool, second),
    ensures
        first.len() == second.len(),
        forall|y: int| 0 <= y < first.len() ==> (#[trigger] first[y])@ == second[y]@,
{
    assert forall|y: int| 0 <= y < first.len() implies (#[trigger] first[y])@ == second[y]@ by {
        let a = first[y]@;
        let b = second[y]@;
        assert(is_frame_row(options, camera, world, pool, y as u32, a));
        assert(is_frame_row(options, camera, world, pool, y as u32, b));
        assert forall|x: int| 0 <= x < a.len() implies a[x] == b[x] by {
            assert(a[x] == frame_pixel_spec(options, camera, world, pool, x as u32, y as u32));
            assert(b[x] == frame_pixel_spec(options, camera, world, pool, x as u32, y as u32));
        }
        assert(a =~= b);
    }
}

/// Whether a ray strikes the scene and is absorbed there, for a given draw.
pub open spec fn is_absorbed<T: Scalar>(ray: Ray<T>, world: &Vec<Hittable<T>>, draw: Draw) -> bool {
    match world::hit_spec(world, ray, visible_range()) {
        Some(h) => h.material.scatter_spec(ray, h, draw).is_none(),
        None => false,
    }
}

/// A ray that is absorbed where it first strikes the scene brings back
/// nothing, however many bounces it was allowed.
pub proof fn absorbed_ray_is_black<T: Scalar>(
    ray: Ray<T>,
    world: &Vec<Hittable<T>>,
    depth: nat,
    draws: Seq<Draw>,
)
    requires
        is_absorbed(ray, world, first_draw(draws)),
    ensures
        ray_colour_spec(ray, world, depth, draws) == Vec3::<T>::zero_spec(),
{
}

/// What `n` samples that bring back nothing add up to.
pub open spec fn black_sum<T: Scalar>(share: T, n: int) -> Colour<T>
    decreases n,
{
    if n <= 0 {
        Vec3::zero_spec()
    } else {
        black_sum(share, n - 1).sum(Vec3::<T>::zero_spec().scale(share))
    }
}

/// A pixel all of whose samples are absorbed where they first strike the
/// scene is the sum of as many blacks as it has samples.
pub proof fn absorbed_pixel_is_black_sum<T: Scalar>(
    options: RenderOptions,
    camera: Camera<T>,
    world: &Vec<Hittable<T>>,
    i: u32,
    j: u32,
    pool: Seq<Seq<Draw>>,
    first: int,
    n: int,
)
    requires
        forall|k: int|
            0 <= k < n ==> is_absorbed(
                sample_ray(options, camera, i, j, first_draw(#[trigger] sample_draws(pool, first, k))),
                world,
                first_draw(later_draws(sample_draws(pool, first, k))),
            ),
    ensures
        pixel_colour_spec(options, camera, world, i, j, pool, first, n) == black_sum(
            T::one_spec().quotient(T::ratio_spec(options.samples as i64, 1)),
            n,
        ),
    decreases n,
{
    if n > 0 {
        absorbed_pixel_is_black_sum(options, camera, world, i, j, pool, first, n - 1);
        let draws = sample_draws(pool, first, n - 1);
        absorbed_ray_is_black(
            sample_ray(options, camera, i, j, first_draw(draws)),
            world,
            options.max_bounces as nat,
            later_draws(draws),
        );
    }
}

/// In fixed-point numbers any number of blacks add up to black.
pub proof fn black_sum_is_black(share: Fixed, n: int)
    ensures
        black_sum(share, n) == Vec3::<Fixed>::zero_spec(),
    decreases n,
{
    if n > 0 {
        black_sum_is_black(share, n - 1);
        assert(Fixed { raw: 0 }.product(share) == Fixed { raw: 0 }) by {
            assert(0 * crate::fixed::magnitude_spec(share.raw as int) == 0);
            assert(0int / 65536 == 0);
        }
    }
}

/// In fixed-point numbers, the picture of a scene that absorbs every ray the
/// camera sends holds black at every place, whatever the number of samples:
/// what a fresh picture holds of a pixel is what the encoder keeps of black.
pub proof fn absorbing_scene_is_stored_black<O: ImageEncoder<Fixed>>(
    options: RenderOptions,
    camera: Camera<Fixed>,
    world: &Vec<Hittable<Fixed>>,
    x: u32,
    y: u32,
    kept: Seq<u8>,
)
    requires
        forall|i: u32, j: u32, aim: Draw, bounce: Draw| #[trigger]
            is_absorbed(sample_ray(options, camera, i, j, aim), world, bounce),
        is_stored_pixel::<Fixed, O>(options, camera, world, x, y, kept),
    ensures
        kept == O::encoding(Vec3::<Fixed>::zero_spec()),
{
    let j = (options.image_height - 1 - y) as u32;
    let c = choose|c: Colour<Fixed>|
        is_pixel_colour(options, camera, world, x, j, c) && kept == #[trigger] O::encoding(c);
    let pool = choose|pool: Seq<Seq<Draw>>|
        c == #[trigger] pixel_colour_spec(
            options,
            camera,
            world,
            x,
            j,
            pool,
            0,
            options.samples as int,
        );
    absorbed_pixel_is_black_sum(options, camera, world, x, j, pool, 0, options.samples as int);
    black_sum_is_black(
        Fixed::one_spec().quotient(Fixed::ratio_spec(options.samples as i64, 1)),
        options.samples as int,
    );
}

/// In fixed-point numbers, a pixel of an empty scene that is given one
/// sample and at least one bounce is the sky in the direction of that
/// sample's ray.
pub proof fn lone_sample_sees_the_sky(
    options: RenderOptions,
    camera: Camera<Fixed>,
    world: &Vec<Hittable<Fixed>>,
    i: u32,
    j: u32,
    pool: Seq<Seq<Draw>>,
    first: int,
)
    requires
        world@.len() == 0,
        options.samples == 1,
        options.max_bounces >= 1,
    ensures
        pixel_colour_spec(options, camera, world, i, j, pool, first, 1) == background(
            sample_ray(options, camera, i, j, first_draw(sample_draws(pool, first, 0))),
        ),
{
    let draws = sample_draws(pool, first, 0);
    let ray = sample_ray(options, camera, i, j, first_draw(draws));
    let sky = background(ray);
    assert(world::hit_among(world, ray, visible_range(), 0).is_none());
    assert(ray_colour_spec(ray, world, options.max_bounces as nat, later_draws(draws)) == sky);
    units_change_nothing(sky.0);
    units_change_nothing(sky.1);
    units_change_nothing(sky.2);
    let share = Fixed::one_spec().quotient(Fixed::ratio_spec(1, 1));
    assert(sample_colour_spec(options, camera, world, i, j, draws) == sky.scale(share));
    assert(pixel_colour_spec(options, camera, world, i, j, pool, first, 0)
        == Vec3::<Fixed>::zero_spec());
    assert(pixel_colour_spec(options, camera, world, i, j, pool, first, 1) == Vec3::<
        Fixed,
    >::zero_spec().sum(sky.scale(share)));
}

/// In fixed-point numbers, what a fresh picture of an empty scene with one
/// sample a pixel and at least one bounce holds at a place is what the
/// encoder keeps of the sky in the direction of a ray through that pixel.
pub proof fn empty_scene_is_stored_sky<O: ImageEncoder<Fixed>>(
    options: RenderOptions,
    camera: Camera<Fixed>,
    world: &Vec<Hittable<Fixed>>,
    x: u32,
    y: u32,
    kept: Seq<u8>,
)
    requires
        world@.len() == 0,
        options.samples == 1,
        options.max_bounces >= 1,
        is_stored_pixel::<Fixed, O>(options, camera, world, x, y, kept),
    ensures
        exists|aim: Draw|
            kept == O::encoding(
                background(
                    #[trigger] sample_ray(
                        options,
                        camera,
                        x,
                        (options.image_height - 1 - y) as u32,
                        aim,
                    ),
                ),
            ),
{
    let j = (options.image_height - 1 - y) as u32;
    let c = choose|c: Colour<Fixed>|
        is_pixel_colour(options, camera, world, x, j, c) && kept == #[trigger] O::encoding(c);
    let pool = choose|pool: Seq<Seq<Draw>>|
        c == #[trigger] pixel_colour_spec(options, camera, world, x, j, pool, 0, 1);
    lone_sample_sees_the_sky(options, camera, world, x, j, pool, 0);
    let aim = first_draw(sample_draws(pool, 0, 0));
    assert(kept == O::encoding(background(sample_ray(options, camera, x, j, aim))));
}

} // verus!
