use magnetite::fixed::Fixed;
use magnetite::hittable::hittables::NotHittable;
use magnetite::hittable::hittables::Sphere;
use magnetite::hittable::world;
use magnetite::hittable::BoundingBox;
use magnetite::hittable::BvhNode;
use magnetite::hittable::Hittable;
use magnetite::hittable::Interval;
use magnetite::material::materials::Lambertian;
use magnetite::material::Material;
use magnetite::scalar::Scalar;
use magnetite::Ray;
use magnetite::Vec3;

fn fx(n: i32) -> Fixed {
    Fixed::from_int(n)
}

fn v(x: i32, y: i32, z: i32) -> Vec3<Fixed> {
    Vec3::new(fx(x), fx(y), fx(z))
}

fn tinted(n: i32) -> Material<Fixed> {
    Lambertian::new(v(n, n, n)).into()
}

fn albedo_of(m: &Material<Fixed>) -> Vec3<Fixed> {
    match m {
        Material::Lambertian(l) => l.albedo,
        _ => panic!("not a matte surface"),
    }
}

fn ahead() -> Interval<Fixed> {
    Interval { min: Fixed::ratio(1, 1000), max: Fixed::infinity() }
}

fn balls(centres: &[(i32, i32, i32)]) -> Vec<Hittable<Fixed>> {
    let mut scene = Vec::new();
    for (n, c) in centres.iter().enumerate() {
        scene.push(Sphere::new(v(c.0, c.1, c.2), fx(1), tinted(n as i32)).into());
    }
    scene
}

#[test]
fn closest_pair_has_the_smallest_joint_box() {
    let scene = balls(&[(0, 0, 0), (3, 0, 0), (20, 0, 0)]);
    assert_eq!(BvhNode::closest_pair(&scene), Some((0, 1)));
    let scene = balls(&[(0, 0, 0), (20, 0, 0), (3, 0, 0)]);
    assert_eq!(BvhNode::closest_pair(&scene), Some((0, 2)));
    let scene = balls(&[(20, 0, 0), (0, 0, 0), (3, 0, 0)]);
    assert_eq!(BvhNode::closest_pair(&scene), Some((1, 2)));
}

#[test]
fn closest_pair_takes_the_last_of_equals() {
    let scene = balls(&[(0, 0, 0), (3, 0, 0), (6, 0, 0)]);
    assert_eq!(BvhNode::closest_pair(&scene), Some((1, 2)));
    let scene = balls(&[(0, 0, 0), (3, 0, 0), (6, 0, 0), (9, 0, 0)]);
    assert_eq!(BvhNode::closest_pair(&scene), Some((2, 3)));
    let scene = balls(&[(0, 0, 0), (3, 0, 0)]);
    assert_eq!(BvhNode::closest_pair(&scene), Some((0, 1)));
    assert_eq!(BvhNode::closest_pair(&balls(&[(0, 0, 0)])), None);
    assert_eq!(BvhNode::closest_pair(&balls(&[])), None);
}

#[test]
fn node_box_contains_both_children() {
    let a: Hittable<Fixed> = Sphere::new(v(0, 0, 0), fx(1), tinted(1)).into();
    let b: Hittable<Fixed> = Sphere::new(v(5, 5, 5), fx(2), tinted(2)).into();
    let node = BvhNode::new(b, a);
    assert_eq!(node.bounding_box(), BoundingBox::new(v(-1, -1, -1), v(7, 7, 7)));
    let as_shape: Hittable<Fixed> = node.into();
    assert_eq!(as_shape.bounding_box(), BoundingBox::new(v(-1, -1, -1), v(7, 7, 7)));
}

#[test]
fn tree_over_nothing_is_never_hit() {
    let tree = BvhNode::<Fixed>::create(Vec::new());
    assert!(tree.bounding_box().is_empty());
    assert!(tree.hit(&Ray::new(v(0, 0, -5), v(0, 0, 1)), &ahead()).is_none());
}

#[test]
fn tree_over_one_shape() {
    let tree = BvhNode::create(balls(&[(0, 0, 0)]));
    assert_eq!(tree.bounding_box(), BoundingBox::new(v(-1, -1, -1), v(1, 1, 1)));
    let hit = tree.hit(&Ray::new(v(0, 0, -5), v(0, 0, 1)), &ahead()).expect("a hit");
    assert_eq!(hit.t, fx(4));
}

#[test]
fn tree_box_spans_the_scene() {
    let tree = BvhNode::create(balls(&[(0, 0, 0), (3, 7, 0), (-6, 0, 2), (20, 1, -9)]));
    assert_eq!(tree.bounding_box(), BoundingBox::new(v(-7, -1, -10), v(21, 8, 3)));
}

#[test]
fn tree_agrees_with_the_plain_scene() {
    let centres = [
        (0, 0, 0),
        (3, 0, 0),
        (6, 0, 0),
        (0, 4, 0),
        (3, 4, 7),
        (-5, -5, -5),
        (10, 10, 10),
        (0, 0, 12),
        (-8, 3, 1),
    ];
    let scene = balls(&centres);
    let tree: Vec<Hittable<Fixed>> = vec![BvhNode::create(balls(&centres)).into()];
    let mut hits = 0;
    for ox in -9..=11 {
        for oy in -6..=11 {
            for (dx, dy, dz) in [(0, 0, 1), (1, 0, 3), (-1, 2, 4), (0, -1, 2)] {
                // A quarter off the grid, so that no ray grazes a sphere.
                let origin = Vec3::new(
                    fx(ox).plus(Fixed::ratio(1, 4)),
                    fx(oy).plus(Fixed::ratio(1, 4)),
                    fx(-20),
                );
                let ray = Ray::new(origin, v(dx, dy, dz));
                let plain = world::hit(&scene, &ray, &ahead());
                let pruned = world::hit(&tree, &ray, &ahead());
                assert_eq!(plain.is_some(), pruned.is_some(), "ray from {} {}", ox, oy);
                if let (Some(p), Some(q)) = (plain, pruned) {
                    assert_eq!(p.t, q.t);
                    assert_eq!(p.hit_location, q.hit_location);
                    assert_eq!(p.normal, q.normal);
                    assert_eq!(p.front_face, q.front_face);
                    assert_eq!(albedo_of(p.material), albedo_of(q.material));
                    hits += 1;
                }
            }
        }
    }
    assert!(hits > 50, "only {} rays hit", hits);
}

#[test]
fn tree_misses_a_grazing_ray_in_the_plane_of_a_box_face() {
    // The ray touches the top of the sphere, and runs in the plane of the
    // top face of the sphere's box: the box is not entered, so the tree
    // reports nothing where the plain scene reports the touch.
    let scene = balls(&[(3, 4, 7)]);
    let tree = BvhNode::create(balls(&[(3, 4, 7)]));
    let ray = Ray::new(v(-6, 5, -20), v(1, 0, 3));
    assert_eq!(world::hit(&scene, &ray, &ahead()).map(|h| h.t), Some(fx(9)));
    assert!(tree.hit(&ray, &ahead()).is_none());
}

#[test]
fn tree_keeps_the_closer_of_two_hits() {
    let tree = BvhNode::create(balls(&[(0, 0, 10), (0, 0, 0), (0, 0, 5)]));
    let hit = tree.hit(&Ray::new(v(0, 0, -5), v(0, 0, 1)), &ahead()).expect("a hit");
    assert_eq!(hit.t, fx(4));
    assert_eq!(albedo_of(hit.material), v(1, 1, 1));
    let hit = tree.hit(&Ray::new(v(0, 0, 15), v(0, 0, -1)), &ahead()).expect("a hit");
    assert_eq!(hit.t, fx(4));
    assert_eq!(albedo_of(hit.material), v(0, 0, 0));
}

#[test]
fn node_over_a_missing_child() {
    let a: Hittable<Fixed> = Sphere::new(v(0, 0, 0), fx(1), tinted(1)).into();
    let node = BvhNode::new(a, NotHittable.into());
    assert_eq!(node.bounding_box(), BoundingBox::new(v(-1, -1, -1), v(1, 1, 1)));
    assert!(node.hit(&Ray::new(v(0, 0, -5), v(0, 0, 1)), &ahead()).is_some());
    assert!(node.hit(&Ray::new(v(0, 5, -5), v(0, 0, 1)), &ahead()).is_none());
}
