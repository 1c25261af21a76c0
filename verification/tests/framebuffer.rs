use runic::Framebuffer;

#[test]
fn new_framebuffer_is_empty() {
    let fb: Framebuffer<f32> = Framebuffer::new(7, 5);
    assert_eq!(fb.width, 7);
    assert_eq!(fb.height, 5);
    assert!(fb.sample_pos.is_empty());
    assert!(fb.samples.is_empty());
    assert_eq!(fb.num_texels(), 35);
}

#[test]
fn add_sample_pos_grows_store_by_one_texel_count_of_zeros() {
    let mut fb: Framebuffer<f32> = Framebuffer::new(3, 2);
    fb.add_sample_pos(glam::vec2(0.25, 0.75));
    assert_eq!(fb.sample_pos.len(), 1);
    assert_eq!(fb.sample_pos[0], glam::vec2(0.25, 0.75));
    assert_eq!(fb.samples, vec![0.0f32; 6]);
    fb.samples[4] = 0.5;
    fb.add_sample_pos(glam::vec2(0.75, 0.25));
    assert_eq!(fb.sample_pos.len(), 2);
    assert_eq!(fb.sample_pos[1], glam::vec2(0.75, 0.25));
    assert_eq!(fb.samples.len(), 12);
    assert_eq!(fb.samples[4], 0.5);
    assert!(fb.samples[6..].iter().all(|v| *v == 0.0));
}

#[test]
fn completeness_follows_the_store() {
    let mut fb: Framebuffer<f32> = Framebuffer::new(4, 3);
    assert!(fb.is_complete());
    fb.add_sample_pos(glam::vec2(0.5, 0.5));
    assert!(fb.is_complete());
    fb.add_sample_pos(glam::vec2(0.1, 0.9));
    assert!(fb.is_complete());
    fb.samples.pop();
    assert!(!fb.is_complete());
    fb.samples.push(0.0);
    assert!(fb.is_complete());
    fb.samples.push(0.0);
    assert!(!fb.is_complete());
}

#[test]
fn clear_keeps_layers_and_leaves_store_incomplete() {
    let mut fb: Framebuffer<f32> = Framebuffer::new(4, 3);
    fb.add_sample_pos(glam::vec2(0.5, 0.5));
    fb.clear();
    assert_eq!(fb.sample_pos.len(), 1);
    assert!(fb.samples.is_empty());
    assert!(!fb.is_complete());
}

#[test]
fn clear_of_raster_without_texels_is_complete() {
    let mut fb: Framebuffer<f32> = Framebuffer::new(0, 3);
    fb.add_sample_pos(glam::vec2(0.5, 0.5));
    assert!(fb.samples.is_empty());
    fb.clear();
    assert!(fb.is_complete());
}

#[test]
fn reset_drops_layers_and_values() {
    let mut fb: Framebuffer<f32> = Framebuffer::new(4, 3);
    fb.add_sample_pos(glam::vec2(0.5, 0.5));
    fb.samples[0] = 1.0;
    fb.reset();
    assert_eq!((fb.width, fb.height), (4, 3));
    assert!(fb.sample_pos.is_empty());
    assert!(fb.samples.is_empty());
    assert!(fb.is_complete());
    fb.add_sample_pos(glam::vec2(0.5, 0.5));
    assert!(fb.is_complete());
    assert_eq!(fb.samples[0], 0.0);
}

#[test]
fn sample_index_interleaves_layers() {
    let mut fb: Framebuffer<i32> = Framebuffer::new(5, 4);
    for _ in 0..3 {
        fb.add_sample_pos(glam::vec2(0.5, 0.5));
    }
    assert_eq!(fb.sample_index(0, 0, 0), 0);
    assert_eq!(fb.sample_index(0, 0, 2), 2);
    assert_eq!(fb.sample_index(1, 0, 0), 3);
    assert_eq!(fb.sample_index(2, 3, 1), 1 + 3 * (3 * 5 + 2));
    assert_eq!(fb.sample_index(4, 3, 2), fb.samples.len() - 1);
}

#[test]
fn sample_index_hits_every_slot_once() {
    let mut fb: Framebuffer<u8> = Framebuffer::new(3, 4);
    fb.add_sample_pos(glam::vec2(0.25, 0.25));
    fb.add_sample_pos(glam::vec2(0.75, 0.75));
    let mut seen = vec![false; fb.samples.len()];
    for y in 0..4 {
        for x in 0..3 {
            for s in 0..2 {
                let i = fb.sample_index(x, y, s);
                assert!(!seen[i]);
                seen[i] = true;
            }
        }
    }
    assert!(seen.iter().all(|b| *b));
}

#[test]
fn default_of_the_value_type_fills_new_layers() {
    let mut fb: Framebuffer<Option<u8>> = Framebuffer::new(2, 2);
    fb.add_sample_pos(glam::vec2(0.5, 0.5));
    assert_eq!(fb.samples, vec![None; 4]);
}
