use runic::{Framebuffer, UniformSampler};

fn centre(sampler: &UniformSampler) -> impl Fn(usize, usize) -> glam::Vec2 {
    let dx = 1.0 / sampler.nx as f32;
    let dy = 1.0 / sampler.ny as f32;
    move |x, y| glam::vec2((x as f32 + 0.5) * dx, (y as f32 + 0.5) * dy)
}

#[test]
fn populate_adds_one_layer_per_cell_row_by_row() {
    let sampler = UniformSampler { nx: 2, ny: 2 };
    let mut fb: Framebuffer<f32> = Framebuffer::new(3, 2);
    sampler.populate(&mut fb, centre(&sampler));
    assert_eq!(
        fb.sample_pos,
        vec![
            glam::vec2(0.25, 0.25),
            glam::vec2(0.75, 0.25),
            glam::vec2(0.25, 0.75),
            glam::vec2(0.75, 0.75),
        ]
    );
    assert_eq!(fb.samples, vec![0.0f32; 24]);
    assert!(fb.is_complete());
}

#[test]
fn populate_single_sample_sits_in_the_middle() {
    let sampler = UniformSampler { nx: 1, ny: 1 };
    let mut fb: Framebuffer<f32> = Framebuffer::new(4, 4);
    sampler.populate(&mut fb, centre(&sampler));
    assert_eq!(fb.sample_pos, vec![glam::vec2(0.5, 0.5)]);
    assert_eq!(fb.samples.len(), 16);
}

#[test]
fn populate_asks_for_every_cell_once() {
    let sampler = UniformSampler { nx: 3, ny: 2 };
    let mut fb: Framebuffer<u8> = Framebuffer::new(1, 1);
    let asked = std::cell::RefCell::new(Vec::new());
    sampler.populate(&mut fb, |x, y| {
        asked.borrow_mut().push((x, y));
        glam::vec2(x as f32, y as f32)
    });
    assert_eq!(asked.into_inner(), vec![(0, 0), (1, 0), (2, 0), (0, 1), (1, 1), (2, 1)]);
    for y in 0..2usize {
        for x in 0..3usize {
            assert_eq!(fb.sample_pos[y * 3 + x], glam::vec2(x as f32, y as f32));
        }
    }
    assert_eq!(fb.samples, vec![0u8; 6]);
}

#[test]
fn populate_appends_to_existing_layers() {
    let sampler = UniformSampler { nx: 2, ny: 1 };
    let mut fb: Framebuffer<f32> = Framebuffer::new(2, 2);
    fb.add_sample_pos(glam::vec2(0.5, 0.5));
    fb.samples[3] = 7.0;
    sampler.populate(&mut fb, centre(&sampler));
    assert_eq!(
        fb.sample_pos,
        vec![glam::vec2(0.5, 0.5), glam::vec2(0.25, 0.5), glam::vec2(0.75, 0.5)]
    );
    assert_eq!(fb.samples.len(), 12);
    assert_eq!(fb.samples[3], 7.0);
    assert!(fb.samples[4..].iter().all(|v| *v == 0.0));
    assert!(fb.is_complete());
}

#[test]
fn populate_with_empty_grid_adds_nothing() {
    let sampler = UniformSampler { nx: 0, ny: 4 };
    let mut fb: Framebuffer<f32> = Framebuffer::new(2, 2);
    sampler.populate(&mut fb, |_x, _y| glam::vec2(0.0, 0.0));
    assert!(fb.sample_pos.is_empty());
    assert!(fb.samples.is_empty());
}
