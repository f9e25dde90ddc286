use magnetite::fixed::Fixed;
use magnetite::scalar::Scalar;
use magnetite::Vec3;

fn fx(n: i32) -> Fixed {
    Fixed::from_int(n)
}

fn v(x: i32, y: i32, z: i32) -> Vec3<Fixed> {
    Vec3::new(fx(x), fx(y), fx(z))
}

fn parts(a: Vec3<Fixed>) -> (Fixed, Fixed, Fixed) {
    (a.0, a.1, a.2)
}

#[test]
fn dot_of_two_vectors() {
    assert_eq!(v(1, 2, 3).dot(&v(4, -5, 6)), fx(12));
}

#[test]
fn cross_of_axes() {
    assert_eq!(parts(v(1, 0, 0).cross(&v(0, 1, 0))), parts(v(0, 0, 1)));
    assert_eq!(parts(v(0, 1, 0).cross(&v(1, 0, 0))), parts(v(0, 0, -1)));
}

#[test]
fn length_of_a_pythagorean_triple() {
    assert_eq!(v(3, 4, 0).length_squared(), fx(25));
    assert_eq!(v(3, 4, 0).length(), fx(5));
    assert_eq!(v(2, 3, 6).length(), fx(7));
}

#[test]
fn unit_vector_of_an_axis_multiple() {
    assert_eq!(parts(v(0, -7, 0).unit_vector()), parts(v(0, -1, 0)));
}

#[test]
fn reflect_off_a_floor() {
    // A ray falling at 45 degrees onto a surface whose normal points up.
    assert_eq!(parts(v(1, -1, 0).reflect(&v(0, 1, 0))), parts(v(1, 1, 0)));
}

#[test]
fn refract_straight_through() {
    // Head-on, with equal indices, the direction is unchanged.
    assert_eq!(parts(v(0, -1, 0).refract(&v(0, 1, 0), fx(1))), parts(v(0, -1, 0)));
}

#[test]
fn point_in_unit_sphere_from_bits() {
    // Samples 1/2, 0, 0 give the direction (1, 0, 0); the radius sample 1/8
    // has cube root 1/2.
    let half = 1u64 << 63;
    let eighth = 1u64 << 61;
    let p: Vec3<Fixed> = Vec3::in_unit_sphere((half, 0, 0, eighth));
    assert_eq!(parts(p), (Fixed::ratio(1, 2), fx(0), fx(0)));
}

#[test]
fn random_unit_vector_has_length_near_one() {
    for _ in 0..100 {
        let u: Vec3<Fixed> = Vec3::random_unit_vector();
        let len = u.length().raw;
        // A vector too short to normalise collapses to zero, and a short one
        // is normalised roughly.
        assert!(len == 0 || (len - 65536).abs() < 6554, "length {}", len);
    }
}

#[test]
fn random_points_lie_in_the_unit_sphere() {
    for _ in 0..100 {
        let p: Vec3<Fixed> = Vec3::random_in_unit_sphere();
        assert!(p.length_squared().raw <= 65536 + 6554);
    }
}
