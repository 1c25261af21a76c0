use runic::{
    create_path, crossing_sign, rasterize_each, Bounds, Colorspace, Curve, FillRect, Frame,
    Framebuffer, PathBuilder, RelativeBounds, UniformSampler,
};

fn box_cdf(x: f32) -> f32 {
    ((x - -0.5) / (0.5 - -0.5)).min(1.0).max(0.0)
}

fn box_pdf(x: f32) -> f32 {
    if x >= -0.5 && x <= 0.5 {
        1.0
    } else {
        0.0
    }
}

fn line_eval(p0: f32, p1: f32, t: f32) -> f32 {
    (1.0 - t) * p0 + t * p1
}

fn line_raycast(p0: f32, p1: f32, p: f32) -> f32 {
    (p - p0) / (p1 - p0)
}

/// Crossings along both axes, softened by the box kernel.
fn coarse_xy(path: &[Curve], pos_curve: glam::Vec2, dxdy: glam::Vec2) -> f32 {
    let mut coverage_x = 0.0;
    let mut coverage_y = 0.0;
    let mut nearest = 100000.0f32;

    for curve in path {
        let (p0, p1) = match curve {
            Curve::Line { p0, p1 } => (*p0 - pos_curve, *p1 - pos_curve),
            Curve::Quad { .. } => panic!("the scene has lines only"),
        };
        let mut a = 0.0;
        let mut b = 0.0;
        let xx = crossing_sign(p0.x() > 0.0, p1.x() > 0.0);
        let yy = crossing_sign(p0.y() > 0.0, p1.y() > 0.0);
        if yy != 0 {
            let t = line_raycast(p0.y(), p1.y(), 0.0);
            let d = line_eval(p0.x(), p1.x(), t) / dxdy.x();
            coverage_x -= yy as f32 * d.signum().min(0.0);
            a = d;
        }
        if xx != 0 {
            let t = line_raycast(p0.x(), p1.x(), 0.0);
            let d = line_eval(p0.y(), p1.y(), t) / dxdy.y();
            coverage_y += xx as f32 * d.signum().min(0.0);
            b = d;
        }
        let d = match (xx == 0, yy == 0) {
            (true, true) => nearest,
            (true, false) => a.abs(),
            (false, true) => b.abs(),
            (false, false) => (a * b).abs() / (2.0 * (a * a + b * b).sqrt()),
        };
        nearest = nearest.min(d);
    }

    box_cdf((coverage_y + coverage_x - 1.0) * nearest)
}

fn distance_to_segment(p: glam::Vec2, a: glam::Vec2, b: glam::Vec2) -> f32 {
    let dir = b - a;
    let t = ((p - a).dot(dir) / dir.dot(dir)).min(1.0).max(0.0);
    (p - (a + dir * t)).length()
}

fn cross(a: glam::Vec2, b: glam::Vec2) -> f32 {
    a.x() * b.y() - a.y() * b.x()
}

fn in_triangle(p: glam::Vec2, v: &[glam::Vec2; 3]) -> bool {
    let s0 = cross(v[1] - v[0], p - v[0]);
    let s1 = cross(v[2] - v[1], p - v[1]);
    let s2 = cross(v[0] - v[2], p - v[2]);
    (s0 > 0.0 && s1 > 0.0 && s2 > 0.0) || (s0 < 0.0 && s1 < 0.0 && s2 < 0.0)
}

fn draw_triangle() -> (Framebuffer<f32>, [glam::Vec2; 3]) {
    let corners = [glam::vec2(0.0, 0.0), glam::vec2(25.0, 100.0), glam::vec2(50.0, 80.0)];
    let segments = vec![PathBuilder::new()
        .move_to(corners[0])
        .line_to(corners[1])
        .line_to(corners[2])
        .close()
        .finish()];
    let path = create_path(&segments);
    assert_eq!(path.len(), 3);

    let mut fb: Framebuffer<f32> = Framebuffer::new(120, 110);
    let sampler = UniformSampler { nx: 1, ny: 1 };
    sampler.populate(&mut fb, |x, y| glam::vec2(x as f32 + 0.5, y as f32 + 0.5));
    assert!(fb.is_complete());

    // A destination of 100 by 100 pixels at the origin, shown at scale one.
    let rect = FillRect::new_with_bias((1, 1), 0, 0, 100, 100, fb.width, fb.height);
    let dxdy = glam::vec2(1.0, 1.0);
    rasterize_each(&mut fb, &rect, |x, y, sample_pos: glam::Vec2| {
        let pos_curve = glam::vec2(x as f32, y as f32) + sample_pos;
        coarse_xy(&path, pos_curve, dxdy)
    });
    (fb, corners)
}

#[test]
fn triangle_coverage_far_from_edges() {
    let (fb, corners) = draw_triangle();
    let at = |x: u32, y: u32| fb.samples[fb.sample_index(x, y, 0)];

    assert_eq!(at(25, 60), 1.0);
    assert_eq!(at(20, 50), 1.0);
    assert_eq!(at(80, 20), 0.0);
    assert_eq!(at(20, 90), 0.0);
    assert_eq!(at(40, 50), 0.0);

    let mut inside = 0;
    for y in 0..=101u32 {
        for x in 0..=101u32 {
            let centre = glam::vec2(x as f32 + 0.5, y as f32 + 0.5);
            let nearest = (0..3)
                .map(|k| distance_to_segment(centre, corners[k], corners[(k + 1) % 3]))
                .fold(f32::MAX, f32::min);
            let value = at(x, y);
            assert!((0.0..=1.0).contains(&value));
            if nearest > 1.5 {
                if in_triangle(centre, &corners) {
                    assert_eq!(value, 1.0, "pixel ({}, {})", x, y);
                    inside += 1;
                } else {
                    assert_eq!(value, 0.0, "pixel ({}, {})", x, y);
                }
            }
        }
    }
    assert!(inside > 1000);
}

#[test]
fn triangle_coverage_at_the_edges() {
    let (fb, _) = draw_triangle();
    let at = |x: u32, y: u32| fb.samples[fb.sample_index(x, y, 0)];

    // The edge from (50, 80) to (0, 0) passes 0.3 above the centre of pixel (25, 40).
    let below = at(25, 40);
    assert!(0.0 < below && below < 0.5, "{}", below);
    // The same edge passes 0.7 below the centre of pixel (25, 41).
    let above = at(25, 41);
    assert!(0.5 < above && above < 1.0, "{}", above);
    // The edge from (0, 0) to (25, 100) passes through pixel (12, 50).
    let left = at(12, 50);
    assert!(0.0 < left && left < 1.0, "{}", left);
}

#[test]
fn triangle_leaves_the_rest_of_the_raster_alone() {
    let (fb, _) = draw_triangle();
    for y in 0..110u32 {
        for x in 0..120u32 {
            if x > 101 || y > 101 {
                assert_eq!(fb.samples[fb.sample_index(x, y, 0)], 0.0);
            }
        }
    }
}

fn resolve_box(fb: &Framebuffer<f32>, x: u32, y: u32, b: &Bounds, cs: Colorspace) -> u8 {
    let mut acc_sample = 0.0;
    let mut acc_weight = 0.0;
    for iy in b.y.clone() {
        for ix in b.x.clone() {
            for (s, pos) in fb.sample_pos.iter().enumerate() {
                let sample = fb.samples[fb.sample_index(ix, iy, s)];
                let dx = ix as i32 - x as i32;
                let dy = iy as i32 - y as i32;
                let weight =
                    box_pdf(pos.x() - 0.5 + dx as f32) * box_pdf(pos.y() - 0.5 + dy as f32);
                acc_sample += sample * weight;
                acc_weight += weight;
            }
        }
    }
    let coverage = if acc_weight > 0.0 { acc_sample / acc_weight } else { 0.0 };
    let coverage = (0.5 * coverage + 0.5).min(1.0).max(0.0);
    assert!(matches!(cs, Colorspace::Linear));
    (255.0 * coverage as f64) as u8
}

#[test]
fn triangle_reconstructs_to_gray_and_white() {
    let (fb, _) = draw_triangle();
    let mut frame = Frame::new(120, 110);
    let window = RelativeBounds { x: 0..=1, y: 0..=1 };
    frame.reconstruct(&fb, &window, Colorspace::Linear, resolve_box);
    assert_eq!(frame.data.len(), 120 * 110);
    // coverage 1 is white, coverage 0 is mid gray
    assert_eq!(frame.data[60 * 120 + 25], 0xffff_ffff);
    assert_eq!(frame.data[20 * 120 + 80], 0xff7f_7f7f);
    assert_eq!(frame.data[105 * 120 + 110], 0xff7f_7f7f);
}
