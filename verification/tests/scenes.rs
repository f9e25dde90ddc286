use magnetite::fixed::Fixed;
use magnetite::hittable::Hittable;
use magnetite::material::Material;
use magnetite::random_world;
use magnetite::random_world::random_world_with;
use magnetite::random_world::small_ball;
use magnetite::scalar::Scalar;
use magnetite::Colour;
use magnetite::Vec3;

type BallDraw = (u64, u64, u64, u64, u64, u64, u64);

const HALF: u64 = 1 << 63;

fn fx(n: i32) -> Fixed {
    Fixed::from_int(n)
}

fn as_sphere(h: &Hittable<Fixed>) -> (Vec3<Fixed>, Fixed, &Material<Fixed>) {
    match h {
        Hittable::Sphere(s) => (s.center, s.radius, &s.material),
        _ => panic!("not a sphere"),
    }
}

/// How many grid places leave room for a ball of radius 1/10 at the place
/// itself: on the plate, and not where a large ball stands.
fn places_with_room() -> usize {
    let mut n = 0;
    for a in -11..11 {
        for b in -11..11 {
            let on_plate = a * a + b * b <= 224;
            let under_a_large_ball = b == 0 && (a == -4 || a == 0 || a == 4);
            if on_plate && !under_a_large_ball {
                n += 1;
            }
        }
    }
    n
}

#[test]
fn scene_starts_with_the_plate_and_three_large_balls() {
    let world: Vec<Hittable<Fixed>> = random_world_with(&Vec::new());
    match &world[0] {
        Hittable::Disk(d) => {
            assert_eq!(d.center, Vec3::new(fx(0), fx(0), fx(0)));
            assert_eq!(d.normal, Vec3::new(fx(0), fx(1), fx(0)));
            assert_eq!(d.radius, fx(15));
            match &d.material {
                Material::Checkerboard(c) => assert_eq!(c.scale, Fixed::ratio(1, 2)),
                _ => panic!("the plate is chequered"),
            }
        }
        _ => panic!("the plate comes first"),
    }
    let (c, r, m) = as_sphere(&world[1]);
    assert_eq!((c, r), (Vec3::new(fx(-4), fx(1), fx(0)), fx(1)));
    assert!(matches!(m, Material::Lambertian(_)));
    let (c, r, m) = as_sphere(&world[2]);
    assert_eq!((c, r), (Vec3::new(fx(0), fx(1), fx(0)), fx(1)));
    assert!(matches!(m, Material::Dielectric(_)));
    let (c, r, m) = as_sphere(&world[3]);
    assert_eq!((c, r), (Vec3::new(fx(4), fx(1), fx(0)), fx(1)));
    match m {
        Material::Metal(metal) => assert_eq!(metal.fuzziness, fx(0)),
        _ => panic!("the third large ball is of metal"),
    }
}

#[test]
fn scene_from_zeros_fills_every_place_with_room() {
    let world: Vec<Hittable<Fixed>> = random_world_with(&Vec::new());
    assert_eq!(world.len(), 4 + places_with_room());
    // The first small ball lies at the first place with room, row by row.
    let (c, r, m) = as_sphere(&world[4]);
    assert_eq!(r, Fixed::ratio(1, 10));
    assert_eq!(c, Vec3::new(fx(-11), Fixed::ratio(1, 10), fx(-10)));
    match m {
        Material::Lambertian(l) => assert_eq!(l.albedo, Vec3::new(fx(0), fx(0), fx(0))),
        _ => panic!("a zero draw makes a matte ball"),
    }
}

#[test]
fn scene_takes_its_draws_place_by_place() {
    let mut draws: Vec<BallDraw> = vec![(0, 0, 0, 0, 0, 0, 0); 484];
    // Place (-11, -10) is the second of the grid.
    draws[1] = (HALF, HALF, 0, u64::MAX, 0, 0, 0);
    let world: Vec<Hittable<Fixed>> = random_world_with(&draws);
    let (c, r, m) = as_sphere(&world[4]);
    let radius = Fixed::ratio(1, 10).plus(Fixed::ratio(1, 2).over(fx(8)));
    assert_eq!(r, radius);
    assert_eq!(
        c,
        Vec3::new(fx(-11).plus(Fixed::ratio(9, 10).times(Fixed::ratio(1, 2))), radius, fx(-10))
    );
    assert!(matches!(m, Material::Dielectric(_)));
    assert_eq!(Some(as_sphere(&world[4]).0), small_ball::<Fixed>(-11, -10, draws[1]).map(|h| as_sphere(&h).0));
}

#[test]
fn small_ball_needs_room() {
    let zeros: BallDraw = (0, 0, 0, 0, 0, 0, 0);
    assert!(small_ball::<Fixed>(-4, 0, zeros).is_none());
    assert!(small_ball::<Fixed>(0, 0, zeros).is_none());
    assert!(small_ball::<Fixed>(4, 0, zeros).is_none());
    assert!(small_ball::<Fixed>(-11, -11, zeros).is_none());
    assert!(small_ball::<Fixed>(10, 10, zeros).is_some());
    assert!(small_ball::<Fixed>(2, 0, zeros).is_some());
    // Shifted by 0.9 toward the large ball at (4, 1, 0), the ball at place
    // (3, 0) still keeps its distance; the one at place (4, -1) does not.
    assert!(small_ball::<Fixed>(2, 0, (0, u64::MAX, 0, 0, 0, 0, 0)).is_some());
    assert!(small_ball::<Fixed>(4, -1, (0, 0, u64::MAX, 0, 0, 0, 0)).is_none());
}

#[test]
fn small_ball_material_follows_the_draw() {
    let draw = |choice: u64| -> BallDraw { (0, 0, 0, choice, HALF, 0, u64::MAX) };
    let made_of = |choice: u64| small_ball::<Fixed>(8, 8, draw(choice)).expect("there is room");
    let tint = Vec3::new(Fixed::ratio(1, 2), fx(0), Fixed::from_raw(65535));
    // 0.5 is below 0.9.
    match as_sphere(&made_of(HALF)).2 {
        Material::Lambertian(l) => assert_eq!(l.albedo, tint),
        _ => panic!("expected a matte ball"),
    }
    // 0.9375 lies between 0.9 and 0.95.
    match as_sphere(&made_of(15 << 60)).2 {
        Material::Metal(m) => {
            assert_eq!(m.albedo, tint);
            assert_eq!(m.fuzziness, Fixed::ratio(2, 10));
        }
        _ => panic!("expected a metal ball"),
    }
    // 0.99.. is above 0.95.
    match as_sphere(&made_of(u64::MAX)).2 {
        Material::Dielectric(d) => assert_eq!(d.index_of_refraction, Fixed::ratio(3, 2)),
        _ => panic!("expected a glass ball"),
    }
}

#[test]
fn fresh_scenes_keep_their_balls_on_the_plate() {
    let world: Vec<Hittable<Fixed>> = random_world();
    assert!(world.len() >= 4);
    assert!(world.len() <= 4 + 484);
    for h in &world[4..] {
        let (c, r, _) = as_sphere(h);
        assert!(Fixed::ratio(1, 10).raw <= r.raw && r.raw <= Fixed::ratio(9, 40).raw + 1);
        assert_eq!(c.1, r);
        assert!(c.length().raw <= fx(15).raw);
    }
}

#[test]
fn colour_from_bits() {
    let c: Colour<Fixed> = Vec3::random_with((0, HALF, u64::MAX));
    assert_eq!(c, Vec3::new(fx(0), Fixed::ratio(1, 2), Fixed::from_raw(65535)));
    for _ in 0..20 {
        let c: Colour<Fixed> = Vec3::random();
        for part in [c.0, c.1, c.2] {
            assert!(0 <= part.raw && part.raw < 65536);
        }
    }
}

#[test]
fn colour_as_bytes() {
    let c: Colour<Fixed> = Vec3::new(fx(0), Fixed::ratio(1, 4), fx(1));
    // 255.999 times the square roots 0, 1/2 and 1.
    assert_eq!(c.into_rgb(), [0, 127, 255]);
    let bright: Colour<Fixed> = Vec3::new(fx(4), fx(100), fx(-1));
    assert_eq!(bright.into_rgb(), [255, 255, 0]);
}

#[test]
fn whole_part_as_a_byte() {
    assert_eq!(fx(0).to_byte(), 0);
    assert_eq!(fx(-3).to_byte(), 0);
    assert_eq!(Fixed::ratio(7, 2).to_byte(), 3);
    assert_eq!(fx(255).to_byte(), 255);
    assert_eq!(fx(256).to_byte(), 255);
    assert_eq!(Fixed::infinity().to_byte(), 255);
}
