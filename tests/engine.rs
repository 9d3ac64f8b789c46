use wayper::engine::{GpuBackend, ImageKey, RenderEngine, RenderError, TextureKey, TextureLoadResult};
use wayper::transition::Fraction;

#[derive(Default)]
struct FakeGpu {
    uploads: Vec<(String, u32, u32)>,
    blanks: u32,
    bind_groups: u32,
    draws: Vec<String>,
    fail_path: Option<String>,
}

impl GpuBackend for FakeGpu {
    type Texture = usize;
    type BindGroup = (usize, usize);

    fn load_image(&mut self, path: &String, width: u32, height: u32) -> Result<usize, String> {
        if self.fail_path.as_deref() == Some(path.as_str()) {
            return Err(format!("cannot decode {path}"));
        }
        self.uploads.push((path.clone(), width, height));
        Ok(self.uploads.len())
    }
    fn upload_pixels(&mut self, pixels: &Vec<u8>, width: u32, height: u32) -> Result<usize, String> {
        assert_eq!(pixels.len(), (width * height * 4) as usize);
        self.uploads.push(("<pixels>".to_string(), width, height));
        Ok(self.uploads.len())
    }
    fn create_blank(&mut self, _width: u32, _height: u32) -> Result<usize, String> {
        self.blanks += 1;
        Ok(1000 + self.blanks as usize)
    }
    fn create_bind_group(&mut self, previous: &usize, current: &usize) -> Result<(usize, usize), String> {
        self.bind_groups += 1;
        Ok((*previous, *current))
    }
    fn write_params(&mut self, _progress: Fraction, _kind: u32, _direction: (i32, i32)) -> Result<(), String> {
        Ok(())
    }
    fn draw(&mut self, output_name: &String, _bind_group: &(usize, usize)) -> Result<(), String> {
        self.draws.push(output_name.clone());
        Ok(())
    }
    fn configure_surface(&mut self, _output_name: &String, _width: u32, _height: u32) -> Result<u32, String> {
        Ok(7)
    }
    fn init_pipeline(&mut self, _format: u32) -> Result<(), String> {
        Ok(())
    }
}

fn ready_engine() -> RenderEngine<FakeGpu> {
    let mut e = RenderEngine::new(FakeGpu::default());
    let fmt = e.configure_surface(&"eDP-1".to_string(), (1920, 1080)).unwrap();
    e.init_image_pipeline(fmt).unwrap();
    e
}

#[test]
fn texture_cache_hits_once_after_miss() {
    let mut e = ready_engine();
    let p = "/w/a.png".to_string();
    e.load_image_texture(&p, (1920, 1080)).unwrap();
    assert_eq!(e.metrics.texture_cache_misses, 1);
    assert_eq!(e.metrics.texture_cache_hits, 0);
    e.load_image_texture(&p, (1920, 1080)).unwrap();
    assert_eq!(e.metrics.texture_cache_misses, 1);
    assert_eq!(e.metrics.texture_cache_hits, 1);
    // the same path at another size is a distinct entry
    e.load_image_texture(&p, (1280, 720)).unwrap();
    e.load_image_texture(&"/w/b.png".to_string(), (1920, 1080)).unwrap();
    e.load_image_texture(&p, (1280, 720)).unwrap();
    assert_eq!(e.gpu.uploads.len(), 3);
    assert_eq!(e.metrics.total_textures_loaded, 3);
    assert_eq!(e.texture_cache_size(), 3);
    assert_eq!(e.metrics.texture_cache_hits, 2);
    assert_eq!(e.metrics.texture_cache_misses, 3);
}

#[test]
fn failed_upload_is_not_cached() {
    let mut e = ready_engine();
    e.gpu.fail_path = Some("/w/bad.png".to_string());
    let r = e.load_image_texture(&"/w/bad.png".to_string(), (10, 10));
    assert!(matches!(r, Err(RenderError::Gpu(_))));
    assert_eq!(e.metrics.texture_cache_misses, 1);
    assert_eq!(e.metrics.total_textures_loaded, 0);
    assert!(!e.contains_texture(&ImageKey { path: "/w/bad.png".to_string(), width: 10, height: 10 }));
}

#[test]
fn static_render_counts_frame_and_upload() {
    let mut e = ready_engine();
    let before = e.get_metrics_data();
    assert_eq!(before.total_frames_rendered, 0);
    assert_eq!(before.total_textures_loaded, 0);
    e.render_frame(&"eDP-1".to_string(), None, &"/w/a.png".to_string(), Fraction { num: 1, den: 1 }, 0, (0, 0))
        .unwrap();
    let m = e.get_metrics_data();
    assert_eq!(m.total_frames_rendered, 1);
    assert!(m.total_textures_loaded >= 1);
    assert_eq!(m.texture_cache_size, 1);
    assert_eq!(m.bind_group_cache_size, 1);
    assert_eq!(m.bind_group_cache_misses, 1);
    assert_eq!(e.gpu.blanks, 1);
    assert_eq!(e.gpu.draws, vec!["eDP-1".to_string()]);
    // the same pair again hits both caches
    e.render_frame(&"eDP-1".to_string(), None, &"/w/a.png".to_string(), Fraction { num: 1, den: 1 }, 0, (0, 0))
        .unwrap();
    let m2 = e.get_metrics_data();
    assert_eq!(m2.bind_group_cache_hits, 1);
    assert_eq!(m2.texture_cache_hits, 1);
    assert_eq!(m2.total_frames_rendered, 2);
    assert_eq!(e.gpu.blanks, 1);
}

#[test]
fn bind_groups_are_directional() {
    let mut e = ready_engine();
    let a = "/w/a.png".to_string();
    let b = "/w/b.png".to_string();
    e.render_frame(&"eDP-1".to_string(), Some(&a), &b, Fraction { num: 1, den: 2 }, 0, (0, 0)).unwrap();
    e.render_frame(&"eDP-1".to_string(), Some(&b), &a, Fraction { num: 1, den: 2 }, 0, (0, 0)).unwrap();
    let m = e.get_metrics_data();
    assert_eq!(m.bind_group_cache_size, 2);
    assert_eq!(m.bind_group_cache_misses, 2);
    assert_eq!(m.total_textures_loaded, 2);
}

#[test]
fn render_needs_pipeline_and_surface() {
    let mut e = RenderEngine::new(FakeGpu::default());
    let r = e.render_frame(&"eDP-1".to_string(), None, &"/w/a.png".to_string(), Fraction { num: 1, den: 1 }, 0, (0, 0));
    assert_eq!(r, Err(RenderError::PipelineNotReady));
    e.init_image_pipeline(7).unwrap();
    let r = e.render_frame(&"HDMI-A-1".to_string(), None, &"/w/a.png".to_string(), Fraction { num: 1, den: 1 }, 0, (0, 0));
    assert_eq!(r, Err(RenderError::SurfaceNotConfigured));
    assert_eq!(e.get_metrics_data().total_frames_rendered, 0);
}

#[test]
fn bind_group_for_missing_texture_is_an_error() {
    let mut e = ready_engine();
    let a = TextureKey::Image(ImageKey { path: "/w/a.png".to_string(), width: 4, height: 4 });
    let blank = TextureKey::Blank(4, 4);
    assert_eq!(e.get_or_create_bind_group(&blank, &a), Err(RenderError::MissingTexture));
    assert_eq!(e.metrics.bind_group_cache_misses, 1);
    e.get_or_create_dummy_texture((4, 4)).unwrap();
    e.load_image_texture(&"/w/a.png".to_string(), (4, 4)).unwrap();
    assert_eq!(e.get_or_create_bind_group(&blank, &a), Ok(()));
    assert_eq!(e.get_or_create_bind_group(&blank, &a), Ok(()));
    assert_eq!(e.metrics.bind_group_cache_hits, 1);
    assert_eq!(e.gpu.bind_groups, 1);
}

#[test]
fn preload_requests_are_deduplicated() {
    let mut e = ready_engine();
    let a = "/w/a.png".to_string();
    assert!(e.request_texture_load(&a, (8, 8), "eDP-1".to_string()));
    assert!(!e.request_texture_load(&a, (8, 8), "eDP-1".to_string()));
    assert!(e.request_texture_load(&a, (16, 16), "eDP-1".to_string()));
    let reqs = e.take_requests();
    assert_eq!(reqs.len(), 2);
    assert_eq!(reqs[0].image_path, a);
    assert_eq!(reqs[0].target_size, (8, 8));
    assert!(e.take_requests().is_empty());
    let done = vec![TextureLoadResult {
        key: ImageKey { path: a.clone(), width: 8, height: 8 },
        decoded: Some((vec![0; 8 * 8 * 4], (8, 8))),
    }];
    assert_eq!(e.process_loaded_textures(done), 1);
    // decoded in the background: not counted until rendering asks for it
    assert_eq!(e.metrics.total_textures_loaded, 0);
    assert_eq!(e.in_flight.len(), 1);
    // resident now: neither requested again nor uploaded twice
    assert!(!e.request_texture_load(&a, (8, 8), "eDP-1".to_string()));
    e.load_image_texture(&a, (8, 8)).unwrap();
    assert_eq!(e.metrics.texture_cache_hits, 1);
    assert_eq!(e.metrics.texture_cache_misses, 0);
    assert_eq!(e.metrics.total_textures_loaded, 1);
    let uploads = e.gpu.uploads.len();
    let again = vec![TextureLoadResult {
        key: ImageKey { path: a.clone(), width: 8, height: 8 },
        decoded: Some((vec![0; 8 * 8 * 4], (8, 8))),
    }];
    assert_eq!(e.process_loaded_textures(again), 0);
    assert_eq!(e.gpu.uploads.len(), uploads);
}

#[test]
fn metrics_report_hit_rates() {
    let mut e = ready_engine();
    let p = "/w/a.png".to_string();
    e.load_image_texture(&p, (2, 2)).unwrap();
    e.load_image_texture(&p, (2, 2)).unwrap();
    e.load_image_texture(&p, (2, 2)).unwrap();
    e.load_image_texture(&p, (2, 2)).unwrap();
    let r = e.log_gpu_metrics();
    assert_eq!(r.texture_hit_rate_permille, 750);
    assert_eq!(r.bind_group_hit_rate_permille, 0);
    assert_eq!(r.texture_cache_size, 1);
}

#[test]
fn failed_decode_releases_the_key() {
    let mut e = ready_engine();
    let a = "/w/broken.png".to_string();
    assert!(e.request_texture_load(&a, (8, 8), "eDP-1".to_string()));
    let failed = vec![TextureLoadResult { key: ImageKey { path: a.clone(), width: 8, height: 8 }, decoded: None }];
    assert_eq!(e.process_loaded_textures(failed), 0);
    assert!(e.in_flight.is_empty());
    assert!(e.request_texture_load(&a, (8, 8), "eDP-1".to_string()));
}
