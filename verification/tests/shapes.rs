use magnetite::fixed::Fixed;
use magnetite::hittable::hittables::Disk;
use magnetite::hittable::hittables::NotHittable;
use magnetite::hittable::hittables::Plane;
use magnetite::hittable::hittables::Sphere;
use magnetite::hittable::world;
use magnetite::hittable::BoundingBox;
use magnetite::hittable::HitRecord;
use magnetite::hittable::Hittable;
use magnetite::hittable::Interval;
use magnetite::material::materials::Lambertian;
use magnetite::material::Material;
use magnetite::scalar::Scalar;
use magnetite::Ray;
use magnetite::Vec3;

fn fx(n: i32) -> Fixed {
    Fixed::from_int(n)
}

fn v(x: i32, y: i32, z: i32) -> Vec3<Fixed> {
    Vec3::new(fx(x), fx(y), fx(z))
}

fn grey() -> Material<Fixed> {
    Lambertian::new(Vec3::new(Fixed::ratio(1, 2), Fixed::ratio(1, 2), Fixed::ratio(1, 2))).into()
}

fn tinted(n: i32) -> Material<Fixed> {
    Lambertian::new(v(n, n, n)).into()
}

fn albedo_of(m: &Material<Fixed>) -> Vec3<Fixed> {
    match m {
        Material::Lambertian(l) => l.albedo,
        _ => panic!("not a matte surface"),
    }
}

fn ahead() -> Interval<Fixed> {
    Interval { min: Fixed::ratio(1, 1000), max: Fixed::infinity() }
}

#[test]
fn sphere_hit_head_on() {
    let sphere = Sphere::new(v(0, 0, 0), fx(1), grey());
    let ray = Ray::new(v(0, 0, -5), v(0, 0, 1));
    let hit = sphere.hit(&ray, &ahead()).expect("the ray meets the sphere");
    assert_eq!(hit.t, fx(4));
    assert_eq!(hit.hit_location, v(0, 0, -1));
    assert_eq!(hit.normal, v(0, 0, -1));
    assert!(hit.front_face);
}

#[test]
fn sphere_missed() {
    let sphere = Sphere::new(v(0, 0, 0), fx(1), grey());
    assert!(sphere.hit(&Ray::new(v(0, 3, -5), v(0, 0, 1)), &ahead()).is_none());
    // The sphere lies behind the ray.
    assert!(sphere.hit(&Ray::new(v(0, 0, 5), v(0, 0, 1)), &ahead()).is_none());
}

#[test]
fn sphere_hit_from_inside_takes_the_far_crossing() {
    let sphere = Sphere::new(v(0, 0, 0), fx(1), grey());
    let ray = Ray::new(v(0, 0, 0), v(0, 0, 1));
    let hit = sphere.hit(&ray, &ahead()).expect("the ray leaves the sphere");
    assert_eq!(hit.t, fx(1));
    assert_eq!(hit.hit_location, v(0, 0, 1));
    assert_eq!(hit.normal, v(0, 0, -1));
    assert!(!hit.front_face);
}

#[test]
fn sphere_hit_respects_the_range() {
    let sphere = Sphere::new(v(0, 0, 0), fx(1), grey());
    let ray = Ray::new(v(0, 0, -5), v(0, 0, 1));
    let near_only = Interval::new(fx(0), fx(5));
    let far_only = Interval::new(fx(5), fx(7));
    let neither = Interval::new(fx(7), fx(9));
    assert_eq!(sphere.hit(&ray, &near_only).map(|h| h.t), Some(fx(4)));
    assert_eq!(sphere.hit(&ray, &far_only).map(|h| h.t), Some(fx(6)));
    assert!(sphere.hit(&ray, &neither).is_none());
    // The ends of the range belong to it.
    assert_eq!(sphere.hit(&ray, &Interval::new(fx(4), fx(4))).map(|h| h.t), Some(fx(4)));
}

#[test]
fn sphere_box_is_a_cube_about_the_centre() {
    let sphere = Sphere::new(v(1, 2, 3), fx(2), grey());
    assert_eq!(sphere.bounding_box(), BoundingBox::new(v(-1, 0, 1), v(3, 4, 5)));
}

#[test]
fn disk_hit_from_above() {
    let disk = Disk::new(v(0, 0, 0), v(0, 1, 0), fx(2), grey());
    let ray = Ray::new(v(1, 5, 0), v(0, -1, 0));
    let hit = disk.hit(&ray, &ahead()).expect("the ray meets the disk");
    assert_eq!(hit.t, fx(5));
    assert_eq!(hit.hit_location, v(1, 0, 0));
    assert_eq!(hit.normal, v(0, 1, 0));
    assert!(hit.front_face);
}

#[test]
fn disk_away_from_the_origin() {
    let disk = Disk::new(v(0, 1, 0), v(0, 1, 0), fx(1), grey());
    let ray = Ray::new(v(0, 5, 0), v(0, -1, 0));
    let hit = disk.hit(&ray, &ahead()).expect("the ray meets the disk");
    assert_eq!(hit.t, fx(4));
    assert_eq!(hit.hit_location, v(0, 1, 0));
    assert_eq!(hit.normal, v(0, 1, 0));
    assert!(hit.front_face);
    // A disk standing upright at x = 3, seen from the origin.
    let upright = Disk::new(v(3, 2, -1), v(1, 0, 0), fx(2), grey());
    let hit = upright.hit(&Ray::new(v(0, 2, 0), v(1, 0, 0)), &ahead()).expect("a hit");
    assert_eq!(hit.t, fx(3));
    assert_eq!(hit.hit_location, v(3, 2, 0));
    assert_eq!(hit.normal, v(-1, 0, 0));
    // Its rim is measured from its own centre.
    assert!(upright.hit(&Ray::new(v(0, 2, -3), v(1, 0, 0)), &ahead()).is_some());
    assert!(upright.hit(&Ray::new(v(0, 2, 2), v(1, 0, 0)), &ahead()).is_none());
    assert!(upright.hit(&Ray::new(v(0, 5, -1), v(1, 0, 0)), &ahead()).is_none());
    // From the far side the ray meets it coming back.
    let hit = upright.hit(&Ray::new(v(7, 2, -1), v(-2, 0, 0)), &ahead()).expect("a hit");
    assert_eq!(hit.t, fx(2));
    assert_eq!(hit.hit_location, v(3, 2, -1));
    assert_eq!(hit.normal, v(1, 0, 0));
}

#[test]
fn disk_missed_beyond_its_rim_or_along_it() {
    let disk = Disk::new(v(0, 0, 0), v(0, 1, 0), fx(2), grey());
    assert!(disk.hit(&Ray::new(v(3, 5, 0), v(0, -1, 0)), &ahead()).is_none());
    assert!(disk.hit(&Ray::new(v(0, 5, 0), v(1, 0, 0)), &ahead()).is_none());
    assert!(disk.hit(&Ray::new(v(0, 5, 0), v(0, 1, 0)), &ahead()).is_none());
    assert!(disk.hit(&Ray::new(v(0, 5, 0), v(0, -1, 0)), &Interval::new(fx(0), fx(4))).is_none());
    // On the rim counts as on the disk.
    assert!(disk.hit(&Ray::new(v(2, 5, 0), v(0, -1, 0)), &ahead()).is_some());
}

#[test]
fn disk_box_is_a_cube_about_the_centre() {
    let disk = Disk::new(v(1, 0, -1), v(0, 1, 0), fx(3), grey());
    assert_eq!(disk.bounding_box(), BoundingBox::new(v(-2, -3, -4), v(4, 3, 2)));
}

#[test]
fn plane_hit_anywhere() {
    let plane = Plane::new(v(0, 0, 0), v(0, 1, 0), grey());
    let ray = Ray::new(v(1000, 5, -1000), v(0, -1, 0));
    let hit = plane.hit(&ray, &ahead()).expect("the ray meets the plane");
    assert_eq!(hit.t, fx(5));
    assert_eq!(hit.hit_location, v(1000, 0, -1000));
    assert!(plane.hit(&Ray::new(v(0, 5, 0), v(1, 0, 0)), &ahead()).is_none());
    assert!(plane.hit(&Ray::new(v(0, 5, 0), v(0, 1, 0)), &ahead()).is_none());
}

#[test]
fn plane_away_from_the_origin() {
    let plane = Plane::new(v(0, 1, 0), v(0, 1, 0), grey());
    let hit = plane.hit(&Ray::new(v(0, 5, 0), v(0, -1, 0)), &ahead()).expect("a hit");
    assert_eq!(hit.t, fx(4));
    assert_eq!(hit.hit_location, v(0, 1, 0));
    // The plane lies behind a ray that starts below it and falls.
    assert!(plane.hit(&Ray::new(v(0, 0, 0), v(0, -1, 0)), &ahead()).is_none());
    let wall = Plane::new(v(-6, 4, 4), v(2, 0, 0), grey());
    let hit = wall.hit(&Ray::new(v(0, 0, 0), v(-3, 1, 0)), &ahead()).expect("a hit");
    assert_eq!(hit.t, fx(2));
    assert_eq!(hit.hit_location, v(-6, 2, 0));
    assert_eq!(hit.normal, v(2, 0, 0));
    assert!(hit.front_face);
}

#[test]
fn plane_from_below_turns_the_normal() {
    let plane = Plane::new(v(0, 0, 0), v(0, 1, 0), grey());
    let hit = plane.hit(&Ray::new(v(0, -2, 0), v(0, 1, 0)), &ahead()).expect("a hit");
    assert_eq!(hit.t, fx(2));
    assert_eq!(hit.normal, v(0, -1, 0));
    assert!(!hit.front_face);
}

#[test]
fn plane_box_is_all_of_space() {
    let plane = Plane::new(v(0, 0, 0), v(0, 1, 0), grey());
    let bb: BoundingBox<Fixed> = plane.bounding_box();
    let all = Interval { min: Fixed::infinity().neg(), max: Fixed::infinity() };
    assert_eq!(bb, BoundingBox { x: all, y: all, z: all });
    // Every ray passes through it.
    assert!(bb.hit(&Ray::new(v(5, 5, 5), v(1, 0, 0)), &ahead()).is_some());
    assert!(bb.hit(&Ray::new(v(-5, 0, 5), v(1, -2, 3)), &ahead()).is_some());
}

#[test]
fn nothing_is_never_hit() {
    let nothing = NotHittable;
    let ray: Ray<Fixed> = Ray::new(v(0, 0, -5), v(0, 0, 1));
    assert!(nothing.hit(&ray, &ahead()).is_none());
    assert_eq!(nothing.bounding_box::<Fixed>(), BoundingBox::empty());
    let as_shape: Hittable<Fixed> = nothing.into();
    assert!(as_shape.hit(&ray, &ahead()).is_none());
    assert!(as_shape.bounding_box().is_empty());
}

#[test]
fn hit_record_faces_the_ray() {
    let m = grey();
    let ray = Ray::new(v(0, 0, 0), v(0, 0, 1));
    let front = HitRecord::new(v(0, 0, 2), fx(2), &ray, v(0, 0, -1), &m);
    assert!(front.front_face);
    assert_eq!(front.normal, v(0, 0, -1));
    let back = HitRecord::new(v(0, 0, 2), fx(2), &ray, v(0, 0, 1), &m);
    assert!(!back.front_face);
    assert_eq!(back.normal, v(0, 0, -1));
    assert_eq!(back.t, fx(2));
    assert_eq!(back.hit_location, v(0, 0, 2));
}

#[test]
fn shapes_answer_through_the_family() {
    let shape: Hittable<Fixed> = Sphere::new(v(0, 0, 0), fx(1), grey()).into();
    let ray = Ray::new(v(0, 0, -5), v(0, 0, 1));
    assert_eq!(shape.hit(&ray, &ahead()).map(|h| h.t), Some(fx(4)));
    assert_eq!(shape.bounding_box(), BoundingBox::new(v(-1, -1, -1), v(1, 1, 1)));
    let flat: Hittable<Fixed> = Disk::new(v(0, 0, 0), v(0, 1, 0), fx(2), grey()).into();
    assert_eq!(flat.hit(&Ray::new(v(0, 3, 0), v(0, -1, 0)), &ahead()).map(|h| h.t), Some(fx(3)));
    let wide: Hittable<Fixed> = Plane::new(v(0, 0, 0), v(0, 1, 0), grey()).into();
    assert_eq!(wide.hit(&Ray::new(v(9, 3, 9), v(0, -1, 0)), &ahead()).map(|h| h.t), Some(fx(3)));
}

#[test]
fn scene_reports_the_closest_hit() {
    let scene: Vec<Hittable<Fixed>> = vec![
        Sphere::new(v(0, 0, 10), fx(1), tinted(1)).into(),
        Sphere::new(v(0, 0, 0), fx(1), tinted(2)).into(),
        Sphere::new(v(0, 0, 5), fx(1), tinted(3)).into(),
    ];
    let ray = Ray::new(v(0, 0, -5), v(0, 0, 1));
    let hit = world::hit(&scene, &ray, &ahead()).expect("a hit");
    assert_eq!(hit.t, fx(4));
    assert_eq!(albedo_of(hit.material), v(2, 2, 2));
    let back = Ray::new(v(0, 0, 15), v(0, 0, -1));
    let hit = world::hit(&scene, &back, &ahead()).expect("a hit");
    assert_eq!(hit.t, fx(4));
    assert_eq!(albedo_of(hit.material), v(1, 1, 1));
    assert!(world::hit(&scene, &Ray::new(v(0, 5, -5), v(0, 0, 1)), &ahead()).is_none());
}

#[test]
fn empty_scene_is_never_hit() {
    let scene: Vec<Hittable<Fixed>> = Vec::new();
    assert!(world::hit(&scene, &Ray::new(v(0, 0, -5), v(0, 0, 1)), &ahead()).is_none());
    assert!(world::bounding_box(&scene).is_empty());
}

#[test]
fn scene_box_spans_all_shapes() {
    let scene: Vec<Hittable<Fixed>> = vec![
        Sphere::new(v(0, 0, 10), fx(1), grey()).into(),
        NotHittable.into(),
        Sphere::new(v(-4, 2, 0), fx(2), grey()).into(),
    ];
    assert_eq!(world::bounding_box(&scene), BoundingBox::new(v(-6, -1, -2), v(1, 4, 11)));
}
