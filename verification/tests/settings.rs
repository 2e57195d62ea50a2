use yuki::renderer::render_worker::WorkerInfo;
use yuki::renderer::RenderSettings;
use yuki::sampling::stratified::permutation_element;
use yuki::sampling::{SamplerType, StratifiedParams, UniformParams};
use yuki::scene::SceneLoadSettings;
use yuki::textures::{ConstantTexture, Texture};

#[test]
fn scene_load_defaults() {
    assert_eq!(SceneLoadSettings::default().max_shapes_in_node, 1);
}

#[test]
fn render_settings_default() {
    let s = RenderSettings::default();
    assert!(!s.mark_tiles && !s.use_single_render_thread);
    let w = WorkerInfo { render_id: 3, thread_id: 1 };
    let c = w;
    assert_eq!((c.render_id, c.thread_id), (3, 1));
}

#[test]
fn sampler_defaults() {
    match SamplerType::default() {
        SamplerType::Stratified(p) => {
            assert_eq!((p.pixel_samples.x, p.pixel_samples.y), (1, 1));
            assert!(p.symmetric_dimensions && p.jitter_samples);
        }
        SamplerType::Uniform(_) => panic!("expected the stratified sampler"),
    }
    assert_eq!(UniformParams::default().pixel_samples, 1);
    let s = StratifiedParams::default();
    assert_eq!(s.pixel_samples.x, 1);
}

#[test]
fn constant_texture_is_constant() {
    let t = ConstantTexture::new(0.25f32);
    assert_eq!(t.evaluate(&()), 0.25);
    assert_eq!(t.evaluate(&"anywhere"), 0.25);
}

#[test]
fn permutation_elements_are_in_range_and_distinct() {
    for &l in &[1u32, 2, 5, 16, 17, 100] {
        for &p in &[0u32, 12345, 0xdead_beef, 0x7fff_ffff] {
            let mut seen = vec![false; l as usize];
            for i in 0..l {
                let e = permutation_element(i, l, p);
                assert!(e < l);
                assert!(!seen[e as usize], "l {} p {} i {}", l, p, i);
                seen[e as usize] = true;
            }
        }
    }
}

#[test]
fn permutation_of_one_is_zero() {
    assert_eq!(permutation_element(0, 1, 99), 0);
}

#[test]
fn strata_fill_the_grid_row_by_row() {
    // 3 columns by 2 rows
    let cells: Vec<(u32, u32)> = (0..6).map(|s| yuki::sampling::stratified::stratum_cell(s, 3, 2)).collect();
    assert_eq!(cells, vec![(0, 0), (1, 0), (2, 0), (0, 1), (1, 1), (2, 1)]);
    // 2 columns by 3 rows: the last stratum is in the last row
    assert_eq!(yuki::sampling::stratified::stratum_cell(5, 2, 3), (1, 2));
}

#[test]
fn default_load_settings() {
    let s = SceneLoadSettings::default();
    assert!(s.path.is_empty());
    assert_eq!(s.split_method, yuki::scene::SplitMethod::SurfaceAreaHeuristic);
}

#[test]
fn fov_along_the_shorter_axis() {
    use_fov_axis();
}

fn use_fov_axis() {
    assert_eq!(yuki::scene::fov_axis(640, 480), yuki::scene::FovAxis::Y);
    assert_eq!(yuki::scene::fov_axis(480, 640), yuki::scene::FovAxis::X);
    assert_eq!(yuki::scene::fov_axis(512, 512), yuki::scene::FovAxis::X);
}
