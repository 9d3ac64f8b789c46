use wayper::config::{Config, ConfigReader, OutputConfig, ProfileReader};
use wayper::daemon::{ConfigureOutcome, Wayper};
use wayper::engine::{GpuBackend, RenderError};
use wayper::files::{ImageSource, PathScan};
use wayper::socket::{SocketCommand, SocketError, SocketOutput};
use wayper::transition::Fraction;

#[derive(Default)]
struct Gpu {
    loads: u32,
    draws: u32,
}

impl GpuBackend for Gpu {
    type Texture = u32;
    type BindGroup = ();

    fn load_image(&mut self, _path: &String, _width: u32, _height: u32) -> Result<u32, String> {
        self.loads += 1;
        Ok(self.loads)
    }
    fn upload_pixels(&mut self, _pixels: &Vec<u8>, _width: u32, _height: u32) -> Result<u32, String> {
        self.loads += 1;
        Ok(self.loads)
    }
    fn create_blank(&mut self, _width: u32, _height: u32) -> Result<u32, String> {
        Ok(0)
    }
    fn create_bind_group(&mut self, _previous: &u32, _current: &u32) -> Result<(), String> {
        Ok(())
    }
    fn write_params(&mut self, _progress: Fraction, _kind: u32, _direction: (i32, i32)) -> Result<(), String> {
        Ok(())
    }
    fn draw(&mut self, _output_name: &String, _bind_group: &()) -> Result<(), String> {
        self.draws += 1;
        Ok(())
    }
    fn configure_surface(&mut self, _output_name: &String, _width: u32, _height: u32) -> Result<u32, String> {
        Ok(1)
    }
    fn init_pipeline(&mut self, _format: u32) -> Result<(), String> {
        Ok(())
    }
}

struct Files;

impl ImageSource for Files {
    fn scan(&mut self, path: &String) -> PathScan {
        match path.as_str() {
            "/walls" => PathScan::Dir(vec![
                "/walls".to_string(),
                "/walls/a.png".to_string(),
                "/walls/b.jpg".to_string(),
                "/walls/notes.txt".to_string(),
                "/walls/c.png".to_string(),
            ]),
            "/work/one.png" => PathScan::File,
            _ => PathScan::Missing,
        }
    }
}

fn output_config(path: &str, duration: u64, transitions: Option<bool>, run: Option<&str>) -> OutputConfig {
    OutputConfig {
        duration: Some(duration),
        path: path.to_string(),
        run_command: run.map(|s| s.to_string()),
        transition: None,
        transitions_enabled: transitions,
    }
}

fn daemon(transitions: Option<bool>) -> Wayper<Gpu, Files> {
    let reader = ConfigReader {
        default_profile: "home".to_string(),
        transition: None,
        transitions_enabled: None,
        outputs: vec![
            (
                "home".to_string(),
                ProfileReader::Profile(vec![(
                    "eDP-1".to_string(),
                    output_config("/walls", 5, transitions, Some("notify {image}")),
                )]),
            ),
            (
                "work".to_string(),
                ProfileReader::Profile(vec![("eDP-1".to_string(), output_config("/work/one.png", 10, Some(false), None))]),
            ),
        ],
    };
    Wayper::new(Config::new(reader), Gpu::default(), Files)
}

fn name() -> String {
    "eDP-1".to_string()
}

fn current(w: &Wayper<Gpu, Files>) -> String {
    w.outputs[0].current_img().unwrap()
}

/// Configure the output and let the initial transition finish.
fn start(w: &mut Wayper<Gpu, Files>) {
    assert!(w.add_output(name(), 0));
    assert!(!w.add_output(name(), 0));
    let out = w.configure(&name(), (1920, 1080), 0);
    assert_eq!(out, ConfigureOutcome::FirstConfigured { period_ms: 5000 });
    let f = w.frame(&name(), vec![], 0);
    assert!(f.request_frame);
    assert!(f.rendered.is_none());
    let f = w.frame(&name(), vec![], 3000);
    assert_eq!(f.rendered, Some(Ok(())));
    assert!(w.outputs[0].transition.is_none());
    assert!(!w.outputs[0].first_configure);
}

#[test]
fn three_images_without_transitions() {
    let mut w = daemon(Some(false));
    start(&mut w);
    let list = w.outputs[0].img_list.clone();
    assert_eq!(list.len(), 3);
    let mut sorted = list.clone();
    sorted.sort();
    assert_eq!(sorted, vec!["/walls/a.png", "/walls/b.jpg", "/walls/c.png"]);
    assert_eq!(current(&w), list[0]);

    assert!(w.on_timer(&name()));
    let f = w.frame(&name(), vec![], 5000);
    assert_eq!(f.rendered, Some(Ok(())));
    assert_eq!(f.request_frame, !w.wgpu.in_flight.is_empty());
    assert_eq!(current(&w), list[1]);
    assert_eq!(w.outputs[0].previous_img(), Some(list[0].clone()));
    assert_eq!(f.run_command, Some(vec!["notify".to_string(), list[1].clone()]));

    w.on_timer(&name());
    w.frame(&name(), vec![], 10_000);
    assert_eq!(current(&w), list[2]);
    w.on_timer(&name());
    w.frame(&name(), vec![], 15_000);
    assert_eq!(current(&w), list[0]);
    assert_eq!(w.outputs[0].frame_count, 4);
}

#[test]
fn advance_with_transition_enabled() {
    let mut w = daemon(None);
    start(&mut w);
    let list = w.outputs[0].img_list.clone();
    w.on_timer(&name());
    let f = w.frame(&name(), vec![], 5000);
    assert!(f.request_frame);
    assert!(f.rendered.is_none());
    assert!(f.run_command.is_none());
    assert_eq!(current(&w), list[1]);
    let t = w.outputs[0].transition.as_ref().unwrap();
    assert_eq!(t.duration_ms, 2000);
    assert_eq!(t.target_fps, 30);
    assert!(t.start_time.is_none());
    // first frame latches the start
    w.frame(&name(), vec![], 5040);
    assert_eq!(w.outputs[0].transition.as_ref().unwrap().start_time, Some(5040));
    let f = w.frame(&name(), vec![], 7100);
    assert_eq!(f.rendered, Some(Ok(())));
    assert!(w.outputs[0].transition.is_none());
}

#[test]
fn no_advance_without_timer() {
    let mut w = daemon(Some(false));
    start(&mut w);
    let before = w.outputs[0].index;
    let f = w.frame(&name(), vec![], 9000);
    assert!(f.request_frame);
    assert!(f.rendered.is_none());
    assert_eq!(w.outputs[0].index, before);
}

#[test]
fn unknown_surface_is_reported() {
    let mut w = daemon(Some(false));
    let f = w.frame(&"HDMI-A-1".to_string(), vec![], 0);
    assert!(!f.found);
    assert_eq!(w.configure(&"HDMI-A-1".to_string(), (10, 10), 0), ConfigureOutcome::UnknownOutput);
    assert!(!w.on_timer(&"HDMI-A-1".to_string()));
}

#[test]
fn resize_after_first_configure() {
    let mut w = daemon(Some(false));
    start(&mut w);
    assert_eq!(w.configure(&name(), (1920, 1080), 30), ConfigureOutcome::Unchanged);
    assert_eq!(w.configure(&name(), (2560, 1440), 40), ConfigureOutcome::Resized);
    assert_eq!(w.outputs[0].dimensions, Some((2560, 1440)));
    assert_eq!(w.configure(&name(), (2560, 1440), 50), ConfigureOutcome::Unchanged);
}

#[test]
fn output_without_settings() {
    let mut w = daemon(Some(false));
    assert!(w.add_output("HDMI-A-1".to_string(), 0));
    assert!(w.outputs[0].output_config.is_none());
    assert!(w.outputs[0].img_list.is_empty());
    assert_eq!(w.configure(&"HDMI-A-1".to_string(), (10, 10), 0), ConfigureOutcome::NoConfig);
    assert!(w.remove_output(&"HDMI-A-1".to_string()).is_some());
    assert!(w.remove_output(&"HDMI-A-1".to_string()).is_none());
}

#[test]
fn change_to_undefined_profile_is_refused() {
    let mut w = daemon(Some(false));
    start(&mut w);
    let index = w.outputs[0].index;
    let list = w.outputs[0].img_list.clone();
    let reply = w.handle_command(SocketCommand::ChangeProfile { profile_name: Some("school".to_string()) });
    assert_eq!(reply.len(), 2);
    assert_eq!(reply[0], SocketOutput::SingleError(SocketError::NoProfile("school".to_string())));
    assert_eq!(reply[1], SocketOutput::End("change-profile".to_string()));
    assert_eq!(w.current_profile, "home");
    assert_eq!(w.outputs[0].index, index);
    assert_eq!(w.outputs[0].img_list, list);
}

#[test]
fn change_profile_rebuilds_outputs() {
    let mut w = daemon(Some(false));
    start(&mut w);
    let reply = w.handle_command(SocketCommand::ChangeProfile { profile_name: Some("work".to_string()) });
    assert_eq!(reply[0], SocketOutput::Message("Changed profile to: work".to_string()));
    assert_eq!(w.current_profile, "work");
    assert_eq!(w.outputs[0].img_list, vec!["/work/one.png".to_string()]);
    assert_eq!(w.outputs[0].index, 0);
    assert!(w.outputs[0].should_next);
    assert_eq!(w.outputs[0].output_config.as_ref().unwrap().duration, Some(10));
    // back to the default profile
    assert_eq!(w.change_profile(None), Ok("home".to_string()));
    assert_eq!(w.change_profile(None), Ok("home".to_string()));
}

#[test]
fn gpu_metrics_before_and_after_render() {
    let mut w = daemon(Some(false));
    let reply = w.handle_command(SocketCommand::GpuMetrics);
    match &reply[0] {
        SocketOutput::GpuMetrics(m) => {
            assert_eq!(m.texture_cache_size, 0);
            assert_eq!(m.texture_cache_hits, 0);
            assert_eq!(m.texture_cache_misses, 0);
            assert_eq!(m.bind_group_cache_size, 0);
            assert_eq!(m.bind_group_cache_hits, 0);
            assert_eq!(m.bind_group_cache_misses, 0);
            assert_eq!(m.total_textures_loaded, 0);
            assert_eq!(m.total_frames_rendered, 0);
        }
        other => panic!("unexpected reply {other:?}"),
    }
    assert_eq!(reply[1], SocketOutput::End("gpu-metrics".to_string()));
    w.add_output(name(), 0);
    w.configure(&name(), (800, 600), 0);
    w.outputs[0].transition = None;
    w.on_timer(&name());
    let f = w.frame(&name(), vec![], 10);
    assert_eq!(f.rendered, Some(Ok(())));
    let reply = w.handle_command(SocketCommand::GpuMetrics);
    match &reply[0] {
        SocketOutput::GpuMetrics(m) => {
            assert_eq!(m.total_frames_rendered, 1);
            assert!(m.total_textures_loaded >= 1);
        }
        other => panic!("unexpected reply {other:?}"),
    }
}

#[test]
fn ping_profiles_current_toggle() {
    let mut w = daemon(Some(false));
    let r = w.handle_command(SocketCommand::Ping);
    assert_eq!(r, vec![SocketOutput::Message("pong".to_string()), SocketOutput::End("ping".to_string())]);
    let r = w.handle_command(SocketCommand::Profiles);
    match &r[0] {
        SocketOutput::Profiles(p) => {
            let mut p = p.clone();
            p.sort();
            assert_eq!(p, vec!["home".to_string(), "work".to_string()]);
        }
        other => panic!("unexpected reply {other:?}"),
    }
    let r = w.handle_command(SocketCommand::Current { output_name: Some(name()) });
    assert_eq!(r[0], SocketOutput::SingleError(SocketError::UnindentifiedOutput { output_name: name() }));
    start(&mut w);
    let first = current(&w);
    let r = w.handle_command(SocketCommand::Current { output_name: Some(name()) });
    match &r[0] {
        SocketOutput::CurrentWallpaper(cw) => {
            assert_eq!(cw.output_name, name());
            assert_eq!(cw.wallpaper, first);
        }
        other => panic!("unexpected reply {other:?}"),
    }
    let r = w.handle_command(SocketCommand::Current { output_name: None });
    assert_eq!(r.len(), 3);
    assert_eq!(r[2], SocketOutput::End("current".to_string()));
    let r = w.handle_command(SocketCommand::Toggle { output_name: None });
    assert_eq!(r[0], SocketOutput::Message("Toggled visibility for outputs eDP-1".to_string()));
    assert!(!w.outputs[0].visible);
    let r = w.handle_command(SocketCommand::Toggle { output_name: Some(name()) });
    assert_eq!(r[0], SocketOutput::Message("Toggled visibility for output eDP-1".to_string()));
    assert!(w.outputs[0].visible);
    let r = w.handle_command(SocketCommand::Hide { output_name: None });
    assert_eq!(r[0], SocketOutput::SingleError(SocketError::CommandUnimplemented { command: "hide".to_string() }));
    assert_eq!(w.socket_counter, 8);
}

#[test]
fn render_error_keeps_daemon_running() {
    let mut w = daemon(Some(false));
    w.add_output(name(), 0);
    w.outputs[0].first_configure = false;
    w.on_timer(&name());
    let f = w.frame(&name(), vec![], 10);
    assert_eq!(f.rendered, Some(Err(RenderError::PipelineNotReady)));
    assert!(f.run_command.is_none());
}

#[test]
fn profile_missing_an_output_still_switches_the_others() {
    let reader = ConfigReader {
        default_profile: "home".to_string(),
        transition: None,
        transitions_enabled: None,
        outputs: vec![
            (
                "home".to_string(),
                ProfileReader::Profile(vec![
                    ("eDP-1".to_string(), output_config("/walls", 5, Some(false), None)),
                    ("HDMI-A-1".to_string(), output_config("/walls", 5, Some(false), None)),
                ]),
            ),
            ("work".to_string(), ProfileReader::Profile(vec![("HDMI-A-1".to_string(), output_config("/work/one.png", 10, Some(false), None))])),
        ],
    };
    let mut w = Wayper::new(Config::new(reader), Gpu::default(), Files);
    w.add_output(name(), 0);
    w.add_output("HDMI-A-1".to_string(), 0);
    assert_eq!(w.change_profile(Some("work".to_string())), Ok("work".to_string()));
    assert!(w.outputs[0].output_config.is_none());
    assert!(w.outputs[0].img_list.is_empty());
    assert_eq!(w.outputs[1].img_list, vec!["/work/one.png".to_string()]);
    assert_eq!(w.current_profile, "work");
}

#[test]
fn decodes_queued_on_first_configure() {
    let mut w = daemon(Some(false));
    w.add_output(name(), 0);
    w.configure(&name(), (640, 480), 0);
    let reqs = w.wgpu.take_requests();
    assert_eq!(reqs.len(), 3);
    let list = w.outputs[0].img_list.clone();
    for (k, r) in reqs.iter().enumerate() {
        assert_eq!(r.image_path, list[k]);
        assert_eq!(r.target_size, (640, 480));
    }
}
