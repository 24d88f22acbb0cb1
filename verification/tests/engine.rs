//! End-to-end checks of the engine: slab tests, union laws, hierarchy
//! versus linear scan, sampling consistency, and whole renders.

use spt::aabb::AABB;
use spt::bvh::BVHNode;
use spt::camera::Camera;
use spt::hittable::{Hittable, Primitive};
use spt::hittable_list::HittableList;
use spt::interval::Interval;
use spt::lambertian::{Lambertian, Material, Metal};
use spt::pdf::PDF;
use spt::ray::Ray;
use spt::renderer::{FullRenderer, NormalRenderer, Renderer, SceneDetails};
use spt::scalar::{SCALAR_LIMIT, SCALE};
use spt::sphere::Sphere;
use spt::texture::{SolidColor, Texture};
use spt::utility::{make_prng_from, random_double_in_range, reflect};
use spt::vec3::Vec3;

fn gray() -> Vec3 {
    Vec3::new(SCALE / 2, SCALE / 2, SCALE / 2)
}

fn test_camera(width: usize, height: usize, samples: usize, depth: usize) -> Camera {
    // Looking down -z from (0, 0, 3), a square viewport two units wide at
    // unit focus distance (a 90 degree field of view).
    let du = 2 * SCALE / (width as i64);
    let dv = 2 * SCALE / (height as i64);
    Camera::from_parts(
        width,
        height,
        samples,
        depth,
        0,
        Vec3::new(0, 0, 3 * SCALE),
        Vec3::new(-SCALE + du / 2, SCALE - dv / 2, 2 * SCALE),
        Vec3::new(du, 0, 0),
        Vec3::new(0, -dv, 0),
        Vec3::new(0, 0, 0),
        Vec3::new(0, 0, 0),
        gray(),
    )
}

fn gray_scene_details() -> SceneDetails {
    let mut materials = Vec::new();
    materials.push(Material::Lambertian(Lambertian::from_color(gray())));
    SceneDetails { background: gray(), materials }
}

#[test]
fn check_unit_ray_unit_box() {
    let ray = Ray::from(
        &Vec3::new(-10 * SCALE, 0, 0),
        &Vec3::new(SCALE, 0, 0),
        0,
    );
    let one = Vec3::new(SCALE, SCALE, SCALE);
    let aabb = AABB::from_points(Vec3::new(-SCALE, -SCALE, -SCALE), one);
    let does_hit = aabb.hit(&ray, &Interval::from(-SCALAR_LIMIT, SCALAR_LIMIT));
    assert_eq!(does_hit, true);
}

#[test]
fn slab_test_rejects_ray_pointing_away() {
    let ray = Ray::from(
        &Vec3::new(-10 * SCALE, 0, 0),
        &Vec3::new(-SCALE, 0, 0),
        0,
    );
    let one = Vec3::new(SCALE, SCALE, SCALE);
    let aabb = AABB::from_points(Vec3::new(-SCALE, -SCALE, -SCALE), one);
    // Only non-negative parameters: the box lies behind the ray.
    assert!(!aabb.hit(&ray, &Interval::from(0, SCALAR_LIMIT)));
    // Over the whole line the slab is reached at negative parameters.
    assert!(aabb.hit(&ray, &Interval::from(-SCALAR_LIMIT, SCALAR_LIMIT)));
}

#[test]
fn slab_test_grazing_face_counts_as_hit() {
    // A ray sliding exactly along the box's top face: a zero-width
    // overlap still counts (closed boundary).
    let ray = Ray::from(
        &Vec3::new(-10 * SCALE, SCALE, 0),
        &Vec3::new(SCALE, 0, 0),
        0,
    );
    let aabb = AABB {
        min: Vec3::new(-SCALE, -SCALE, -SCALE),
        max: Vec3::new(SCALE, SCALE, SCALE),
    };
    assert!(aabb.hit(&ray, &Interval::from(-SCALAR_LIMIT, SCALAR_LIMIT)));
}

#[test]
fn union_laws_hold_on_values() {
    let a = AABB {
        min: Vec3::new(-SCALE, 0, 3),
        max: Vec3::new(SCALE, 5 * SCALE, 7),
    };
    let b = AABB {
        min: Vec3::new(-3 * SCALE, -2, 0),
        max: Vec3::new(0, SCALE, 9),
    };
    let c = AABB {
        min: Vec3::new(100, 200, 300),
        max: Vec3::new(400, 500, 600),
    };
    let ab = AABB::from_aabbs(&a, &b);
    let ba = AABB::from_aabbs(&b, &a);
    assert_eq!(ab, ba);
    let ab_c = AABB::from_aabbs(&AABB::from_aabbs(&a, &b), &c);
    let a_bc = AABB::from_aabbs(&a, &AABB::from_aabbs(&b, &c));
    assert_eq!(ab_c, a_bc);
    let a_empty = AABB::from_aabbs(&a, &AABB::empty());
    assert_eq!(a_empty, a);
}

fn random_sphere_scene(n: usize, seed: u64) -> Vec<Primitive> {
    let mut prng = make_prng_from(seed);
    let mut objs = Vec::new();
    for _ in 0..n {
        let x = random_double_in_range(&mut prng, -20 * SCALE, 20 * SCALE);
        let y = random_double_in_range(&mut prng, -20 * SCALE, 20 * SCALE);
        let z = random_double_in_range(&mut prng, -20 * SCALE, 20 * SCALE);
        let r = random_double_in_range(&mut prng, SCALE / 4, 3 * SCALE);
        objs.push(Primitive::Sphere(Sphere::static_sphere(Vec3::new(x, y, z), r, 0)));
    }
    objs
}

#[test]
fn hierarchy_matches_linear_scan_on_random_scenes() {
    for &(n, seed) in [(1usize, 7u64), (2, 8), (10, 9), (1000, 10)].iter() {
        let objs = random_sphere_scene(n, seed);
        let mut list = HittableList::new();
        for o in random_sphere_scene(n, seed) {
            list.add(o);
        }
        let bvh = BVHNode::from(objs);
        let mut prng = make_prng_from(99);
        for k in 0..200u64 {
            let mut ray_rng = make_prng_from(1000 + k);
            let ox = random_double_in_range(&mut ray_rng, -30 * SCALE, 30 * SCALE);
            let oy = random_double_in_range(&mut ray_rng, -30 * SCALE, 30 * SCALE);
            let oz = random_double_in_range(&mut ray_rng, -30 * SCALE, 30 * SCALE);
            let dx = random_double_in_range(&mut ray_rng, -SCALE, SCALE);
            let dy = random_double_in_range(&mut ray_rng, -SCALE, SCALE);
            let dz = random_double_in_range(&mut ray_rng, -SCALE, SCALE);
            let ray = Ray::from(&Vec3::new(ox, oy, oz), &Vec3::new(dx, dy, dz), 0);
            let gate = Interval::from(1, SCALAR_LIMIT);
            let hb = bvh.hit(&ray, &gate, &mut prng);
            let hl = list.hit(&ray, &gate, &mut prng);
            match (hb, hl) {
                (None, None) => {}
                (Some(b), Some(l)) => assert_eq!(b.t, l.t),
                (b, l) => panic!("hierarchy and scan disagree: {:?} vs {:?}", b.map(|h| h.t), l.map(|h| h.t)),
            }
        }
    }
}

#[test]
fn hierarchy_box_is_union_of_children() {
    let s1 = Primitive::Sphere(Sphere::static_sphere(Vec3::new(-5 * SCALE, 0, 0), SCALE, 0));
    let s2 = Primitive::Sphere(Sphere::static_sphere(Vec3::new(6 * SCALE, 0, 0), 2 * SCALE, 0));
    let b1 = s1.bounding_box();
    let b2 = s2.bounding_box();
    let bvh = BVHNode::from_two_hittables(s1, s2);
    assert_eq!(bvh.bounding_box(), AABB::from_aabbs(&b1, &b2));
}

#[test]
fn cosine_density_is_consistent_with_sampling() {
    // Draw many directions from the cosine distribution about +z and
    // average the reciprocal density: the estimate is the hemisphere's
    // solid angle (two pi).  Every sampled direction must carry a
    // strictly positive density.
    let pdf = PDF::cosine(&Vec3::new(0, 0, SCALE));
    let mut prng = make_prng_from(12345);
    let mut sum = 0.0f64;
    let n = 100000;
    for _ in 0..n {
        let dir = pdf.generate(0, &mut prng);
        let v = pdf.value(&dir, 0, &mut prng);
        assert!(v > 0, "sampled a direction of zero density");
        sum += (SCALE as f64) / (v as f64);
    }
    let estimate = sum / (n as f64);
    let two_pi = 2.0 * std::f64::consts::PI;
    assert!(
        (estimate - two_pi).abs() < 0.35,
        "hemisphere solid angle estimate {} too far from {}",
        estimate,
        two_pi
    );
}

#[test]
fn polished_metal_reflects_exactly() {
    let metal = Metal { albedo: gray(), fuzz: 0 };
    let mat = Material::Metal(metal);
    // A ray coming in diagonally onto an upward-facing surface.
    let incoming = Ray::from(&Vec3::new(0, 2 * SCALE, 0), &Vec3::new(SCALE, -SCALE, 0), 0);
    let rec = spt::hit_record::HitRecord::from(
        Vec3::new(SCALE, 0, 0),
        Vec3::new(0, SCALE, 0),
        SCALE,
        0,
        0,
        0,
        true,
    );
    let mut prng = make_prng_from(5);
    let out = mat.scatter(&incoming, &rec, &mut prng).unwrap();
    match out {
        spt::material::ScatterRay::Specular { specular_ray, attenuation } => {
            let unit_in = incoming.direction.normalize();
            let expected = reflect(&unit_in, &rec.normal).normalize().normalize();
            assert_eq!(specular_ray.direction, expected);
            assert_eq!(attenuation, gray());
            // The mirror image of a down-right ray about +y goes up-right.
            assert!(specular_ray.direction.x > 0 && specular_ray.direction.y > 0);
        }
        _ => panic!("polished metal must scatter specularly"),
    }
}

#[test]
fn empty_scene_returns_background_everywhere() {
    let cam = test_camera(5, 5, 1, 4);
    let details = gray_scene_details();
    let scene = HittableList::new();
    let screen = cam.render(&scene, &FullRenderer {}, &details);
    // Expected: the background, gamma corrected and quantized, at every
    // pixel; 0.5 maps through sqrt to ~0.7071 and quantizes to 181.
    for y in 0..5 {
        for x in 0..5 {
            let c = screen.get(x, y);
            assert_eq!((c.x, c.y, c.z), (181, 181, 181));
        }
    }
}

#[test]
fn lambertian_sphere_darkens_silhouette_only() {
    let cam = test_camera(9, 9, 1, 4);
    let details = gray_scene_details();
    let mut scene = HittableList::new();
    scene.add(Primitive::Sphere(Sphere::static_sphere(Vec3::new(0, 0, 0), SCALE, 0)));
    let screen = cam.render(&scene, &FullRenderer {}, &details);
    let background = (181, 181, 181);
    // The central pixel looks straight at the sphere.
    let center = screen.get(4, 4);
    assert_ne!((center.x, center.y, center.z), background);
    // The corners look past it.
    for &(x, y) in [(0usize, 0usize), (8, 0), (0, 8), (8, 8)].iter() {
        let c = screen.get(x, y);
        assert_eq!((c.x, c.y, c.z), background);
    }
}

#[test]
fn rendering_twice_is_bit_identical() {
    let cam = test_camera(7, 5, 4, 6);
    let details = gray_scene_details();
    let mut objs = Vec::new();
    objs.push(Primitive::Sphere(Sphere::static_sphere(Vec3::new(0, 0, 0), SCALE, 0)));
    objs.push(Primitive::Sphere(Sphere::static_sphere(
        Vec3::new(2 * SCALE, 0, -SCALE),
        SCALE / 2,
        0,
    )));
    objs.push(Primitive::Sphere(Sphere::static_sphere(
        Vec3::new(-2 * SCALE, SCALE, -2 * SCALE),
        SCALE,
        0,
    )));
    let scene = BVHNode::from(objs);
    let first = cam.render(&scene, &FullRenderer {}, &details);
    let second = cam.render(&scene, &FullRenderer {}, &details);
    assert_eq!(first.screen_data, second.screen_data);
    assert_eq!(first.screen_data.len(), 35);
}

#[test]
fn normal_renderer_shades_by_normal() {
    let cam = test_camera(9, 9, 1, 4);
    let details = gray_scene_details();
    let mut scene = HittableList::new();
    scene.add(Primitive::Sphere(Sphere::static_sphere(Vec3::new(0, 0, 0), SCALE, 0)));
    let screen = cam.render(&scene, &NormalRenderer {}, &details);
    // The center pixel's normal faces the camera (+z): the blue channel
    // dominates after shading by normal.
    let center = screen.get(4, 4);
    assert!(center.z > center.x && center.z > center.y);
}

#[test]
fn generator_streams_are_reproducible() {
    let mut a = make_prng_from(42);
    let mut b = make_prng_from(42);
    for _ in 0..100 {
        assert_eq!(a.next_u64(), b.next_u64());
    }
    let mut c = make_prng_from(43);
    let mut d = make_prng_from(42);
    let mut differs = false;
    for _ in 0..10 {
        if c.next_u64() != d.next_u64() {
            differs = true;
        }
    }
    assert!(differs);
}

#[test]
fn checker_texture_alternates_cells() {
    let even = Texture::Solid(SolidColor { albedo: Vec3::new(0, 0, 0) });
    let odd = Texture::Solid(SolidColor { albedo: Vec3::new(SCALE, SCALE, SCALE) });
    let tex = Texture::Checker(spt::texture::CheckerTexture {
        inv_scale: SCALE,
        even: Box::new(even),
        odd: Box::new(odd),
    });
    let a = tex.value(0, 0, &Vec3::new(SCALE / 2, SCALE / 2, SCALE / 2));
    let b = tex.value(0, 0, &Vec3::new(SCALE + SCALE / 2, SCALE / 2, SCALE / 2));
    assert_ne!(a, b);
}
