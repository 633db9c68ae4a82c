use raycaster::render::{build_scene, camera_ray, render, BACKGROUND};
use raycaster::sphere::Color;
use raycaster::vector::Vec3;

const SPHERE: [u8; 3] = [0, 123, 255];
const WHITE: [u8; 3] = [255, 255, 255];

fn pixel(img: &[u8], width: u32, x: u32, y: u32) -> [u8; 3] {
    let at = ((y * width + x) * 3) as usize;
    [img[at], img[at + 1], img[at + 2]]
}

/// The same procedure in single precision, with a normalised direction.
fn hit_in_single_precision(width: u32, height: u32, x: u32, y: u32) -> bool {
    let viewport_height: f32 = 2.0;
    let viewport_width: f32 = 2.0 * (width as f32 / height as f32);
    let u = (x as f32 + 0.5) / width as f32;
    let v = (y as f32 + 0.5) / height as f32;
    let dx = u * viewport_width - viewport_width / 2.0;
    let dy = v * viewport_height - viewport_height / 2.0;
    let dz: f32 = -1.0;
    let len = (dx * dx + dy * dy + dz * dz).sqrt();
    let (dx, dy, dz) = (dx / len, dy / len, dz / len);
    let (ox, oy, oz): (f32, f32, f32) = (0.0, 0.0, 5.0);
    let a = dx * dx + dy * dy + dz * dz;
    let b = 2.0 * (ox * dx + oy * dy + oz * dz);
    let c = (ox * ox + oy * oy + oz * oz) - 2.0 * 2.0;
    b * b - 4.0 * a * c >= 0.0
}

#[test]
fn scene_is_one_sphere_in_front_of_the_camera() {
    let sphere = build_scene();
    assert_eq!(sphere.center, Vec3::new(0, 0, -5));
    assert_eq!(sphere.radius, 2);
    assert_eq!(sphere.color, Color(0, 123, 255));
    assert_eq!(BACKGROUND, 255);
}

#[test]
fn camera_ray_starts_at_the_origin() {
    for (x, y) in [(0u32, 0u32), (400, 300), (799, 599)] {
        assert_eq!(camera_ray(800, 600, x, y).origin, Vec3::new(0, 0, 0));
    }
}

#[test]
fn camera_ray_passes_through_the_center_of_its_pixel() {
    assert_eq!(camera_ray(800, 600, 400, 300).direction, Vec3::new(1, 1, -600));
    assert_eq!(camera_ray(800, 600, 399, 299).direction, Vec3::new(-1, -1, -600));
    assert_eq!(camera_ray(800, 600, 0, 0).direction, Vec3::new(-799, -599, -600));
    assert_eq!(camera_ray(800, 600, 799, 599).direction, Vec3::new(799, 599, -600));
    assert_eq!(camera_ray(1, 1, 0, 0).direction, Vec3::new(0, 0, -1));
    assert_eq!(camera_ray(3, 5, 2, 1).direction, Vec3::new(2, -2, -5));
}

#[test]
fn camera_ray_direction_is_the_view_plane_offset_times_the_height() {
    for (w, h, x, y) in [(800u32, 600u32, 123u32, 456u32), (64, 48, 0, 47), (7, 3, 6, 0)] {
        let viewport_height = 2.0f64;
        let viewport_width = 2.0 * (w as f64 / h as f64);
        let u = (x as f64 + 0.5) / w as f64;
        let v = (y as f64 + 0.5) / h as f64;
        let dx = u * viewport_width - viewport_width / 2.0;
        let dy = v * viewport_height - viewport_height / 2.0;
        let d = camera_ray(w, h, x, y).direction;
        assert!((d.x as f64 - dx * h as f64).abs() < 1e-9);
        assert!((d.y as f64 - dy * h as f64).abs() < 1e-9);
        assert_eq!(d.z, -(h as i64));
    }
}

#[test]
fn camera_ray_at_the_largest_size() {
    let d = camera_ray(u32::MAX, u32::MAX, u32::MAX - 1, 0).direction;
    let m = u32::MAX as i64;
    assert_eq!(d, Vec3::new(m - 1, 1 - m, -m));
}

#[test]
fn center_of_the_image_shows_the_sphere_and_the_corner_does_not() {
    let img = render(800, 600);
    assert_eq!(img.len(), 800 * 600 * 3);
    assert_eq!(pixel(&img, 800, 400, 300), SPHERE);
    assert_eq!(pixel(&img, 800, 0, 0), WHITE);
    assert_eq!(pixel(&img, 800, 799, 599), WHITE);
    assert_eq!(pixel(&img, 800, 799, 0), WHITE);
    assert_eq!(pixel(&img, 800, 0, 599), WHITE);
}

#[test]
fn buffer_holds_three_bytes_per_pixel() {
    for (w, h) in [(1u32, 1u32), (2, 3), (3, 2), (16, 9), (64, 48), (1, 100), (100, 1)] {
        assert_eq!(render(w, h).len(), (w * h * 3) as usize);
    }
}

#[test]
fn image_without_pixels_is_empty() {
    assert!(render(0, 0).is_empty());
    assert!(render(0, 10).is_empty());
    assert!(render(10, 0).is_empty());
}

#[test]
fn rendering_twice_gives_the_same_bytes() {
    assert_eq!(render(80, 60), render(80, 60));
    assert_eq!(render(800, 600), render(800, 600));
}

#[test]
fn single_pixel_looks_straight_at_the_sphere() {
    assert_eq!(render(1, 1), vec![0, 123, 255]);
}

#[test]
fn two_by_two_image_misses_the_sphere() {
    assert_eq!(render(2, 2), vec![255; 12]);
}

#[test]
fn every_pixel_is_sphere_or_background() {
    let img = render(64, 48);
    for y in 0..48 {
        for x in 0..64 {
            let p = pixel(&img, 64, x, y);
            assert!(p == SPHERE || p == WHITE);
        }
    }
}

#[test]
fn rows_run_from_the_top_and_pixels_from_the_left() {
    // 1 column, 5 rows: directions (0, 2y - 4, -5); the three middle rows hit.
    assert_eq!(
        render(1, 5),
        vec![255, 255, 255, 0, 123, 255, 0, 123, 255, 0, 123, 255, 255, 255, 255]
    );
    // 5 columns, 1 row: directions (2x - 4, 0, -1); only the middle column hits.
    assert_eq!(
        render(5, 1),
        vec![255, 255, 255, 255, 255, 255, 0, 123, 255, 255, 255, 255, 255, 255, 255]
    );
    // 7 columns, 3 rows: only the pixel in the middle hits.
    let img = render(7, 3);
    for y in 0..3 {
        for x in 0..7 {
            let expected = if (x, y) == (3, 1) { SPHERE } else { WHITE };
            assert_eq!(pixel(&img, 7, x, y), expected);
        }
    }
}

#[test]
fn pixel_is_coloured_exactly_when_its_ray_hits() {
    let (w, h) = (40u32, 30u32);
    let img = render(w, h);
    let sphere = build_scene();
    let mut hits = 0;
    for y in 0..h {
        for x in 0..w {
            let hit = sphere.intersect(&camera_ray(w, h, x, y)).is_some();
            hits += hit as u32;
            assert_eq!(pixel(&img, w, x, y), if hit { SPHERE } else { WHITE });
        }
    }
    assert!(hits > 0 && hits < w * h);
}

#[test]
fn sphere_covers_the_disc_of_its_silhouette() {
    // The ray through (X, Y, -h) hits when 21 * (X^2 + Y^2) <= 4 * h^2.
    let (w, h) = (96u32, 64u32);
    let img = render(w, h);
    for y in 0..h {
        for x in 0..w {
            let xx = 2 * x as i64 + 1 - w as i64;
            let yy = 2 * y as i64 + 1 - h as i64;
            let inside = 21 * (xx * xx + yy * yy) <= 4 * (h as i64) * (h as i64);
            assert_eq!(pixel(&img, w, x, y) == SPHERE, inside);
        }
    }
}

#[test]
fn image_is_symmetric_about_both_axes() {
    let (w, h) = (50u32, 38u32);
    let img = render(w, h);
    for y in 0..h {
        for x in 0..w {
            assert_eq!(pixel(&img, w, x, y), pixel(&img, w, w - 1 - x, y));
            assert_eq!(pixel(&img, w, x, y), pixel(&img, w, x, h - 1 - y));
        }
    }
}

#[test]
fn number_of_sphere_pixels_at_full_size() {
    let img = render(800, 600);
    let count = img.chunks(3).filter(|p| *p == SPHERE).count();
    assert_eq!(count, 53884);
}

#[test]
fn agrees_with_ray_casting_in_single_precision() {
    for (w, h) in [(800u32, 600u32), (64, 48), (320, 200), (17, 31), (7, 3), (1, 1)] {
        let img = render(w, h);
        for y in 0..h {
            for x in 0..w {
                let expected = if hit_in_single_precision(w, h, x, y) { SPHERE } else { WHITE };
                assert_eq!(pixel(&img, w, x, y), expected);
            }
        }
    }
}
