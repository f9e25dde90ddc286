use magnetite::hittable::hittables::Disk;
use magnetite::hittable::hittables::Plane;
use magnetite::hittable::hittables::Sphere;
use magnetite::hittable::world;
use magnetite::hittable::BoundingBox;
use magnetite::hittable::BvhNode;
use magnetite::hittable::HitRecord;
use magnetite::hittable::Hittable;
use magnetite::hittable::Interval;
use magnetite::image_encoder::ImageCrateEncoder;
use magnetite::material::materials::Checkerboard;
use magnetite::material::materials::Lambertian;
use magnetite::material::materials::Metal;
use magnetite::material::Material;
use magnetite::random_world;
use magnetite::render::ray_colour;
use magnetite::render::ray_colour_with;
use magnetite::render::render;
use magnetite::render::render_row;
use magnetite::render::render_with;
use magnetite::scalar::max;
use magnetite::scalar::min;
use magnetite::scalar::Scalar;
use magnetite::Camera;
use magnetite::Ray;
use magnetite::RenderOptions;
use magnetite::Vec3;

/// Double-precision floating point as the tracer's scalar.
#[derive(Debug, Clone, Copy, PartialEq)]
struct Real(f64);

fn unit_sample_of(bits: u64) -> f64 {
    // The top 53 bits, as a multiple of 2^-53.
    (bits >> 11) as f64 * (1.0 / (1u64 << 53) as f64)
}

impl Scalar for Real {
    fn zero_spec() -> Self {
        Real(0.0)
    }

    fn one_spec() -> Self {
        Real(1.0)
    }

    fn infinity_spec() -> Self {
        Real(f64::INFINITY)
    }

    fn ratio_spec(num: i64, den: i64) -> Self {
        Real(num as f64 / den as f64)
    }

    fn unit_sample_spec(bits: u64) -> Self {
        Real(unit_sample_of(bits))
    }

    fn sum(self, rhs: Self) -> Self {
        Real(self.0 + rhs.0)
    }

    fn difference(self, rhs: Self) -> Self {
        Real(self.0 - rhs.0)
    }

    fn product(self, rhs: Self) -> Self {
        Real(self.0 * rhs.0)
    }

    fn quotient(self, rhs: Self) -> Self {
        Real(self.0 / rhs.0)
    }

    fn negation(self) -> Self {
        Real(-self.0)
    }

    fn absolute(self) -> Self {
        Real(self.0.abs())
    }

    fn square_root(self) -> Self {
        Real(self.0.sqrt())
    }

    fn cube_root(self) -> Self {
        Real(self.0.cbrt())
    }

    fn floor_spec(self) -> Self {
        Real(self.0.floor())
    }

    fn pi_spec() -> Self {
        Real(std::f64::consts::PI)
    }

    fn sine(self) -> Self {
        Real(self.0.sin())
    }

    fn cosine(self) -> Self {
        Real(self.0.cos())
    }

    fn tangent(self) -> Self {
        Real(self.0.tan())
    }

    fn remainder(self, rhs: Self) -> Self {
        Real(self.0 % rhs.0)
    }

    fn byte_spec(self) -> u8 {
        self.0 as u8
    }

    fn is_number(self) -> bool {
        !self.0.is_nan()
    }

    fn le(self, rhs: Self) -> bool {
        self.0 <= rhs.0
    }

    fn zero() -> Self {
        Self::zero_spec()
    }

    fn one() -> Self {
        Self::one_spec()
    }

    fn infinity() -> Self {
        Self::infinity_spec()
    }

    fn ratio(num: i64, den: i64) -> Self {
        Self::ratio_spec(num, den)
    }

    fn unit_sample(bits: u64) -> Self {
        Self::unit_sample_spec(bits)
    }

    fn plus(self, rhs: Self) -> Self {
        self.sum(rhs)
    }

    fn minus(self, rhs: Self) -> Self {
        self.difference(rhs)
    }

    fn times(self, rhs: Self) -> Self {
        self.product(rhs)
    }

    fn over(self, rhs: Self) -> Self {
        self.quotient(rhs)
    }

    fn neg(self) -> Self {
        self.negation()
    }

    fn abs(self) -> Self {
        self.absolute()
    }

    fn sqrt(self) -> Self {
        self.square_root()
    }

    fn cbrt(self) -> Self {
        self.cube_root()
    }

    fn floor(self) -> Self {
        self.floor_spec()
    }

    fn pi() -> Self {
        Self::pi_spec()
    }

    fn sin(self) -> Self {
        self.sine()
    }

    fn cos(self) -> Self {
        self.cosine()
    }

    fn tan(self) -> Self {
        self.tangent()
    }

    fn rem(self, rhs: Self) -> Self {
        self.remainder(rhs)
    }

    fn to_byte(self) -> u8 {
        self.byte_spec()
    }

    fn at_most(self, rhs: Self) -> bool {
        self.le(rhs)
    }

    // The laws of the order hold of the numbers among the doubles: `<=` is
    // false as soon as one side is not a number, it is total and transitive
    // on the rest, zero and the ratios of whole numbers are numbers, and
    // none of them exceeds infinity.

    fn le_numbers(_a: Self, _b: Self) {}

    fn le_total(_a: Self, _b: Self) {}

    fn le_transitive(_a: Self, _b: Self, _c: Self) {}

    fn zero_is_number() {}

    fn ratio_is_number(_num: i64, _den: i64) {}

    fn infinity_is_greatest(_a: Self) {}
}

fn iv(a: f64, b: f64) -> Interval<Real> {
    Interval::new(Real(a), Real(b))
}

fn v(x: f64, y: f64, z: f64) -> Vec3<Real> {
    Vec3::new(Real(x), Real(y), Real(z))
}

fn ahead() -> Interval<Real> {
    Interval { min: Real(0.001), max: Real(f64::INFINITY) }
}

fn grey() -> Material<Real> {
    Lambertian::new(v(0.5, 0.5, 0.5)).into()
}

#[test]
fn float_constants_are_the_nearest_doubles() {
    assert_eq!(Real::ratio(1, 1000), Real(0.001));
    assert_eq!(Real::ratio(1, 1_000_000), Real(1e-6));
    assert_eq!(Real::ratio(9, 10), Real(0.9));
    assert_eq!(Real::ratio(7, 10), Real(0.7));
    assert_eq!(Real::ratio(95, 100), Real(0.95));
    assert_eq!(Real::ratio(11, 10), Real(1.1));
    assert_eq!(Real::ratio(255_999, 1000), Real(255.999));
    assert_eq!(Real::ratio(3, 2), Real(1.5));
    assert_eq!(Real::pi().over(Real::ratio(180, 1)), Real(std::f64::consts::PI / 180.0));
}

#[test]
fn float_min_and_max_pass_over_what_is_no_number() {
    let nan = Real(f64::NAN);
    assert_eq!(min(Real(1.0), Real(2.0)), Real(1.0));
    assert_eq!(max(Real(1.0), Real(2.0)), Real(2.0));
    assert_eq!(min(nan, Real(2.0)), Real(2.0));
    assert_eq!(min(Real(2.0), nan), Real(2.0));
    assert_eq!(max(nan, Real(2.0)), Real(2.0));
    assert_eq!(max(Real(2.0), nan), Real(2.0));
    assert!(min(nan, nan).0.is_nan());
    for (a, b) in [(1.0, 2.0), (2.0, 1.0), (-3.0, f64::INFINITY), (0.5, 0.5)] {
        assert_eq!(min(Real(a), Real(b)).0, f64::min(a, b));
        assert_eq!(max(Real(a), Real(b)).0, f64::max(a, b));
    }
}

#[test]
fn float_intervals() {
    assert_eq!(iv(10.0, 5.0), iv(5.0, 10.0));
    assert_eq!(Interval::<Real>::empty(), iv(0.0, 0.0));
    assert!(iv(0.0, 0.0).is_empty());
    assert_eq!(iv(1.0, 5.0).size(), Real(4.0));
    assert_eq!(iv(1.0, 5.0).expand(Real(2.0)), iv(0.0, 6.0));
    assert_eq!(Interval::containing(iv(1.0, 3.0), iv(5.0, 8.0)), iv(1.0, 8.0));
    assert_eq!(Interval::overlap(iv(0.0, 1.0), iv(1.0, 3.0)), None);
    assert_eq!(Interval::overlap(iv(1.0, 3.0), iv(2.0, 4.0)), Some(iv(2.0, 3.0)));
}

#[test]
fn float_box_from_two_points() {
    let bb = BoundingBox::new(v(1.0, 3.0, 2.0), v(0.0, 5.0, 1.0));
    assert_eq!(bb.x, iv(0.0, 1.0));
    assert_eq!(bb.y, iv(3.0, 5.0));
    assert_eq!(bb.z, iv(1.0, 2.0));
    assert_eq!(bb.volume(), Real(2.0));
}

#[test]
fn float_ray_through_the_middle_of_a_box_hits() {
    let unit = BoundingBox::new(v(0.0, 0.0, 0.0), v(1.0, 1.0, 1.0));
    let range = Interval { min: Real(0.0), max: Real(f64::INFINITY) };
    let through = Ray::new(v(0.5, 0.5, -5.0), v(0.0, 0.0, 1.0));
    let t = unit.hit(&through, &range).expect("the ray passes through the box");
    assert_eq!(t, iv(5.0, 6.0));
    assert!(4.0 <= t.min.0 && t.max.0 <= 6.0);
    let beside = Ray::new(v(0.5, 0.5, -5.0), v(1.0, 0.0, 0.0));
    assert_eq!(unit.hit(&beside, &range), None);
}

#[test]
fn float_ray_along_a_face_of_a_box_misses() {
    // The ray runs in the plane of the top face: the division of zero by
    // zero gives no number, and the box is not entered.
    let unit = BoundingBox::new(v(0.0, 0.0, 0.0), v(1.0, 1.0, 1.0));
    let along = Ray::new(v(0.5, 1.0, -5.0), v(0.0, 0.0, 1.0));
    assert_eq!(unit.hit(&along, &ahead()), None);
    let along = Ray::new(v(0.5, 0.0, -5.0), v(0.0, 0.0, 1.0));
    assert_eq!(unit.hit(&along, &ahead()), None);
}

#[test]
fn float_sphere_hit_head_on() {
    let sphere = Sphere::new(v(0.0, 0.0, 0.0), Real(1.0), grey());
    let ray = Ray::new(v(0.0, 0.0, -5.0), v(0.0, 0.0, 1.0));
    let hit = sphere.hit(&ray, &ahead()).expect("the ray meets the sphere");
    assert_eq!(hit.t, Real(4.0));
    assert_eq!(hit.hit_location, v(0.0, 0.0, -1.0));
    assert_eq!(hit.normal, v(0.0, 0.0, -1.0));
    assert!(hit.front_face);
}

#[test]
fn float_disk_hit_from_above() {
    let disk = Disk::new(v(0.0, 0.0, 0.0), v(0.0, 1.0, 0.0), Real(2.0), grey());
    let hit = disk.hit(&Ray::new(v(1.0, 5.0, 0.0), v(0.0, -1.0, 0.0)), &ahead()).expect("a hit");
    assert_eq!(hit.t, Real(5.0));
    assert_eq!(hit.hit_location, v(1.0, 0.0, 0.0));
    assert!(disk.hit(&Ray::new(v(3.0, 5.0, 0.0), v(0.0, -1.0, 0.0)), &ahead()).is_none());
    assert!(disk.hit(&Ray::new(v(0.0, 5.0, 0.0), v(1.0, 1e-7, 0.0)), &ahead()).is_none());
}

#[test]
fn float_disk_and_plane_away_from_the_origin() {
    let disk = Disk::new(v(0.0, 1.0, 0.0), v(0.0, 1.0, 0.0), Real(1.0), grey());
    let ray = Ray::new(v(0.0, 5.0, 0.0), v(0.0, -1.0, 0.0));
    let hit = disk.hit(&ray, &ahead()).expect("the ray meets the disk");
    assert_eq!(hit.t, Real(4.0));
    assert_eq!(hit.hit_location, v(0.0, 1.0, 0.0));
    let plane = Plane::new(v(0.0, 1.0, 0.0), v(0.0, 1.0, 0.0), grey());
    let hit = plane.hit(&ray, &ahead()).expect("the ray meets the plane");
    assert_eq!(hit.t, Real(4.0));
    assert_eq!(hit.hit_location, v(0.0, 1.0, 0.0));
    assert!(disk.hit(&Ray::new(v(1.5, 5.0, 0.0), v(0.0, -1.0, 0.0)), &ahead()).is_none());
    assert!(plane.hit(&Ray::new(v(1.5, 5.0, 0.0), v(0.0, -1.0, 0.0)), &ahead()).is_some());
}

#[test]
fn float_flat_box_containing_an_empty_box_is_unchanged() {
    let e = BoundingBox::<Real>::empty();
    let a = BoundingBox::new(v(5.0, 5.0, 5.0), v(5.0, 5.0, 5.0));
    assert_eq!(BoundingBox::containing(&a, &e), a);
    assert_eq!(BoundingBox::containing(&e, &a), a);
    assert!(!iv(5.0, 5.0).is_empty());
    assert!(iv(0.0, -0.0).is_empty());
}

#[test]
fn float_checkerboard_bands() {
    let m = grey();
    let ray = Ray::new(v(1.0, 7.0, 3.0), v(0.0, -1.0, 0.0));
    let board = Checkerboard::new(
        Real(0.5),
        Lambertian::new(v(1.0, 1.0, 1.0)).into(),
        Lambertian::new(v(2.0, 2.0, 2.0)).into(),
    );
    let tint_at = |x: f64, y: f64, z: f64| {
        let hit = HitRecord::new(v(x, y, z), Real(5.0), &ray, v(0.0, 1.0, 0.0), &m);
        match board.pick(&hit) {
            Material::Lambertian(l) => l.albedo.0 .0,
            _ => panic!("not a matte surface"),
        }
    };
    assert_eq!(tint_at(0.0, 0.0, 0.0), 1.0);
    assert_eq!(tint_at(0.4, 0.1, 0.3), 1.0);
    assert_eq!(tint_at(0.6, 0.1, 0.3), 2.0);
    assert_eq!(tint_at(0.6, 0.7, 0.3), 1.0);
    assert_eq!(tint_at(-0.1, 0.1, 0.3), 2.0);
    assert_eq!(tint_at(-0.6, 0.1, 0.3), 1.0);
}

#[test]
fn float_tree_agrees_with_the_plain_scene() {
    let mut centres = Vec::new();
    for i in 0..5 {
        for j in 0..5 {
            centres.push((3.0 * i as f64 - 6.0, 2.5 * j as f64 - 5.0, ((i * 7 + j * 3) % 5) as f64));
        }
    }
    let ball = |c: &(f64, f64, f64)| -> Hittable<Real> {
        Sphere::new(v(c.0, c.1, c.2), Real(1.0), grey()).into()
    };
    let scene: Vec<Hittable<Real>> = centres.iter().map(ball).collect();
    let tree: Vec<Hittable<Real>> = vec![BvhNode::create(centres.iter().map(ball).collect()).into()];
    let mut hits = 0;
    let mut seed: u64 = 12345;
    let mut next = || {
        seed = seed.wrapping_mul(6364136223846793005).wrapping_add(1442695040888963407);
        ((seed >> 11) as f64 / (1u64 << 53) as f64) * 2.0 - 1.0
    };
    for _ in 0..2000 {
        let origin = v(8.0 * next(), 8.0 * next(), -20.0);
        let ray = Ray::new(origin, v(0.3 * next(), 0.3 * next(), 1.0));
        let plain = world::hit(&scene, &ray, &ahead());
        let pruned = world::hit(&tree, &ray, &ahead());
        assert_eq!(plain.is_some(), pruned.is_some());
        if let (Some(p), Some(q)) = (plain, pruned) {
            assert_eq!(p.t, q.t);
            assert_eq!(p.hit_location, q.hit_location);
            assert_eq!(p.normal, q.normal);
            hits += 1;
        }
    }
    assert!(hits > 200, "only {} rays hit", hits);
}

#[test]
fn float_sky() {
    let scene: Vec<Hittable<Real>> = Vec::new();
    assert_eq!(ray_colour(&Ray::new(v(0.0, 0.0, 0.0), v(0.0, 2.0, 0.0)), &scene, 3), v(0.5, 0.7, 1.0));
    let ray = Ray::new(v(0.0, 0.0, 0.0), v(1.0, 2.0, -2.0));
    let t = 0.5 * (2.0 / 3.0 + 1.0);
    let expected = v(0.9 * (1.0 - t) + 0.5 * t, 0.9 * (1.0 - t) + 0.7 * t, 0.9 * (1.0 - t) + 1.0 * t);
    assert_eq!(ray_colour(&ray, &scene, 3), expected);
    assert_eq!(ray_colour(&ray, &scene, 0), v(0.0, 0.0, 0.0));
}

#[test]
fn float_two_by_two_picture_of_the_sky() {
    let cam: Camera<Real> = Camera::new(
        v(0.0, 0.0, 0.0),
        v(0.0, 0.0, -1.0),
        v(0.0, 1.0, 0.0),
        Real(90.0),
        Real(1.0),
        Real(0.0),
        Real(1.0),
    );
    let scene: Vec<Hittable<Real>> = Vec::new();
    let opts = RenderOptions {
        image_width: 2,
        image_height: 2,
        samples: 1,
        max_bounces: 1,
        show_progress_bar: false,
    };
    let half = 1u64 << 63;
    let pool = vec![
        vec![(0, half, 0, 0)],
        vec![(half, 0, 0, 0)],
        vec![(0, 0, 0, 0)],
        vec![(half, half, 0, 0)],
    ];
    let frame = render_with(&opts, &cam, &scene, &pool);
    assert_eq!(frame, render_with(&opts, &cam, &scene, &pool));
    assert_eq!(frame.len(), 2);
    for y in 0..2 {
        assert_eq!(frame[y].len(), 2);
        for x in 0..2 {
            let draw = pool[y * 2 + x][0];
            let u = (x as f64 + unit_sample_of(draw.0)) / 1.0;
            let w = ((1 - y) as f64 + unit_sample_of(draw.1)) / 1.0;
            let llc = cam.lower_left_corner;
            let (h, up) = (cam.horizontal, cam.vertical);
            // The direction from the camera to the place (u, w) of the picture.
            let d = (
                llc.0 .0 + h.0 .0 * u + up.0 .0 * w - 0.0 - 0.0,
                llc.1 .0 + h.1 .0 * u + up.1 .0 * w - 0.0 - 0.0,
                llc.2 .0 + h.2 .0 * u + up.2 .0 * w - 0.0 - 0.0,
            );
            let length = (d.0 * d.0 + d.1 * d.1 + d.2 * d.2).sqrt();
            let t = 0.5 * (d.1 / length + 1.0);
            let part = |zenith: f64| 0.0 + (0.9 * (1.0 - t) + zenith * t) * (1.0 / 1.0);
            assert_eq!(frame[y][x], v(part(0.5), part(0.7), part(1.0)), "pixel {} {}", x, y);
        }
    }
    // A quarter turn of view and a square picture: the corners lie at 45 degrees.
    let llc = cam.lower_left_corner;
    assert!((llc.0 .0 + 1.0).abs() < 1e-12 && (llc.1 .0 + 1.0).abs() < 1e-12);
    assert_eq!(llc.2, Real(-1.0));
}

#[test]
fn float_colour_as_bytes() {
    assert_eq!(v(0.0, 0.25, 1.0).into_rgb(), [0, 127, 255]);
    assert_eq!(v(4.0, f64::NAN, -1.0).into_rgb(), [255, 0, 0]);
}

#[test]
fn float_absorbing_ball_is_black() {
    let scene: Vec<Hittable<Real>> =
        vec![Sphere::new(v(0.0, 0.0, 0.0), Real(1.0), Metal::new(v(1.0, 1.0, 1.0), Real(4.0)).into()).into()];
    let rising = Ray::new(v(0.0, -5.0, 0.0), v(0.0, 1.0, 0.0));
    // The draw pushes the mirrored ray by (0, 2, 0), back into the ball.
    let draw = (0, 1u64 << 63, 0, 1u64 << 61);
    for depth in 1..5 {
        assert_eq!(ray_colour_with(&rising, &scene, depth, &vec![draw]), v(0.0, 0.0, 0.0));
    }
}

#[test]
fn float_scene_and_picture_with_fresh_draws() {
    let scene: Vec<Hittable<Real>> = random_world();
    assert!(scene.len() >= 4 && scene.len() <= 488);
    let cam: Camera<Real> = Camera::new(
        v(13.0, 2.0, 3.0),
        v(0.0, 0.0, 0.0),
        v(0.0, 1.0, 0.0),
        Real(20.0),
        Real(1.5),
        Real(0.1),
        Real(10.0),
    );
    let opts = RenderOptions {
        image_width: 6,
        image_height: 4,
        samples: 2,
        max_bounces: 4,
        show_progress_bar: false,
    };
    let tree: Vec<Hittable<Real>> = vec![BvhNode::create(scene).into()];
    let picture: ImageCrateEncoder = render(&opts, &cam, &tree);
    assert_eq!(picture.dimensions(), (6, 4));
    assert_eq!(picture.as_raw().len(), 3 * 6 * 4);
    for j in 0..4 {
        let row = render_row(&opts, &cam, &tree, j);
        assert_eq!(row.len(), 6);
        for c in row {
            for part in [c.0, c.1, c.2] {
                assert!(0.0 <= part.0 && part.0 <= 1.0 + 1e-9, "{:?}", part);
            }
        }
    }
}
