use wayper::config::{
    default_duration, default_fps, default_profile, Config, ConfigReader, OutputConfig, ProfileReader, SweepConfig,
    TransitionConfig, TransitionSelection,
};
use wayper::launcher::{CliLauncher, Launcher, PromptState};
use wayper::transition::{Direction, TransitionTypeEnum};

fn out(path: &str, duration: u64, run: Option<&str>) -> OutputConfig {
    OutputConfig {
        duration: Some(duration),
        path: path.to_string(),
        run_command: run.map(|s| s.to_string()),
        transition: None,
        transitions_enabled: None,
    }
}

fn sample() -> Config {
    Config::new(ConfigReader {
        default_profile: "home".to_string(),
        transition: None,
        transitions_enabled: None,
        outputs: vec![
            (
                "home".to_string(),
                ProfileReader::Profile(vec![
                    ("eDP-1".to_string(), out("/home/user/wallpapers/personal", 10, Some("matugen image {image}"))),
                    ("HDMI-A-1".to_string(), out("/home/user/wallpapers", 20, None)),
                ]),
            ),
            ("work".to_string(), ProfileReader::Profile(vec![("eDP-1".to_string(), out("/home/user/wallpapers/work", 10, None))])),
            ("school".to_string(), ProfileReader::Profile(vec![("eDP-1".to_string(), out("/home/user/wallpapers/school", 10, None))])),
            ("DP-2".to_string(), ProfileReader::Default(out("/srv/walls", 30, None))),
        ],
    })
}

#[test]
fn merged_profiles_lookup() {
    let config = sample();
    assert_eq!(config.default_profile, "home");
    assert_eq!(
        config.get_output_config(Some("home"), "eDP-1"),
        Some(out("/home/user/wallpapers/personal", 10, Some("matugen image {image}")))
    );
    assert_eq!(config.get_output_config(Some("work"), "eDP-1"), Some(out("/home/user/wallpapers/work", 10, None)));
    assert_eq!(config.get_output_config(Some("work"), "HDMI-A-1"), None);
    // a bare output table belongs to the default profile
    assert_eq!(config.get_output_config(Some("home"), "DP-2"), Some(out("/srv/walls", 30, None)));
    assert_eq!(config.get_output_config(None, "DP-2"), None);
    let mut names = config.profiles.profiles();
    names.sort();
    assert_eq!(names, vec!["home", "school", "work"]);
}

#[test]
fn later_table_overrides_earlier() {
    let config = Config::new(ConfigReader {
        default_profile: "default".to_string(),
        transition: None,
        transitions_enabled: None,
        outputs: vec![
            ("eDP-1".to_string(), ProfileReader::Default(out("/a", 1, None))),
            ("default".to_string(), ProfileReader::Profile(vec![("eDP-1".to_string(), out("/b", 2, None))])),
        ],
    });
    assert_eq!(config.get_output_config(None, "eDP-1"), Some(out("/b", 2, None)));
    assert_eq!(config.profiles.profiles(), vec!["default".to_string()]);
}

#[test]
fn transition_settings_fall_back() {
    let global = TransitionConfig {
        transition_type: TransitionSelection::Single(TransitionTypeEnum::Sweep),
        duration_ms: 1500,
        fps: 60,
        sweep: SweepConfig { direction: Direction::LeftToRight, edge_width_milli: 80 },
    };
    let mut config = sample();
    config.transition = Some(global.clone());
    let mut o = out("/x", 10, None);
    assert_eq!(o.get_transition_duration(&config), 1500);
    assert_eq!(o.get_transition_fps(&config), 60);
    assert_eq!(o.get_transition_type(&config), TransitionTypeEnum::Sweep);
    assert!(o.is_transitions_enabled(&config));
    o.transition = Some(TransitionConfig {
        transition_type: TransitionSelection::Random(vec![TransitionTypeEnum::Crossfade]),
        duration_ms: 1000,
        fps: 30,
        sweep: SweepConfig { direction: Direction::TopLeftToBottomRight, edge_width_milli: 50 },
    });
    assert_eq!(o.get_transition_duration(&config), 1000);
    assert_eq!(o.get_transition_type(&config), TransitionTypeEnum::Crossfade);
    assert_eq!(o.get_transition_direction(&config), Direction::TopLeftToBottomRight);
    config.transitions_enabled = Some(false);
    assert!(!o.is_transitions_enabled(&config));
    o.transitions_enabled = Some(true);
    assert!(o.is_transitions_enabled(&config));
    config.transition = None;
    let plain = out("/y", 1, None);
    assert_eq!(plain.get_transition_duration(&config), default_duration());
    assert_eq!(plain.get_transition_fps(&config), default_fps());
    assert_eq!(plain.get_transition_direction(&config), Direction::LeftToRight);
}

#[test]
fn random_selection_picks_a_listed_kind() {
    let one = TransitionConfig {
        transition_type: TransitionSelection::Random(vec![TransitionTypeEnum::Sweep]),
        duration_ms: 1,
        fps: 1,
        sweep: SweepConfig::new(),
    };
    assert_eq!(one.pick_random_type(), TransitionTypeEnum::Sweep);
    let both = TransitionConfig {
        transition_type: TransitionSelection::Random(vec![TransitionTypeEnum::Crossfade, TransitionTypeEnum::Sweep]),
        ..one.clone()
    };
    for _ in 0..20 {
        let k = both.pick_random_type();
        assert!(k == TransitionTypeEnum::Crossfade || k == TransitionTypeEnum::Sweep);
    }
    let none = TransitionConfig { transition_type: TransitionSelection::Random(vec![]), ..one.clone() };
    assert_eq!(none.pick_random_type(), TransitionTypeEnum::Crossfade);
}

#[test]
fn defaults() {
    assert_eq!(default_duration(), 2000);
    assert_eq!(default_fps(), 30);
    assert_eq!(default_profile(), "default");
    let s = SweepConfig::new();
    assert_eq!(s.direction, Direction::LeftToRight);
    assert_eq!(s.edge_width_milli, 50);
}

#[test]
fn launcher_choice() {
    assert_eq!(CliLauncher::Fuzzel.to_launcher(None), Launcher::Fuzzel);
    assert_eq!(CliLauncher::Custom.to_launcher(Some("rofi -dmenu".to_string())), Launcher::Custom("rofi -dmenu".to_string()));
    assert_eq!(PromptState::new(), PromptState::Main);
}
