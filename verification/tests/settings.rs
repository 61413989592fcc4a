use gamescope_gui::settings::{
    with_extra_words, Filter, GamescopeSettings, Resolution, Scaler, SettingsError, WindowMode,
};

fn render(settings: &GamescopeSettings) -> Result<Vec<String>, SettingsError> {
    settings.to_gamescope_args()
}

#[test]
fn builds_gamescope_arguments_in_expected_order() {
    let settings = GamescopeSettings {
        nested_resolution: Some(Resolution {
            width: 1280,
            height: 720,
        }),
        output_resolution: Some(Resolution {
            width: 1920,
            height: 1080,
        }),
        nested_refresh: Some(60),
        framerate_limit: Some(60),
        window_mode: WindowMode::Fullscreen,
        scaler: Scaler::Fit,
        filter: Filter::Fsr,
        hdr: true,
        adaptive_sync: true,
        mangoapp: true,
        steam: true,
        extra_args: "--sharpness 4 --prefer-output 'DP-1'".to_string(),
    };

    let rendered = settings.to_gamescope_args().unwrap();

    assert_eq!(
        rendered,
        vec![
            "-w",
            "1280",
            "-h",
            "720",
            "-W",
            "1920",
            "-H",
            "1080",
            "-r",
            "60",
            "--framerate-limit",
            "60",
            "-f",
            "-S",
            "fit",
            "-F",
            "fsr",
            "--hdr-enabled",
            "--adaptive-sync",
            "--mangoapp",
            "--steam",
            "--sharpness",
            "4",
            "--prefer-output",
            "DP-1",
        ]
    );
}

#[test]
fn rejects_invalid_extra_args() {
    let settings = GamescopeSettings {
        extra_args: "'unterminated".to_string(),
        ..Default::default()
    };

    assert!(matches!(
        settings.to_gamescope_args(),
        Err(SettingsError::InvalidExtraArgs(_))
    ));
}

#[test]
fn invalid_extra_args_carry_the_shell_words_message() {
    let settings = GamescopeSettings {
        extra_args: "--a \"open".to_string(),
        ..Default::default()
    };
    let error = render(&settings).unwrap_err();
    assert_eq!(
        error,
        SettingsError::InvalidExtraArgs("missing closing quote".to_string())
    );
    assert_eq!(
        error.message(),
        "extra Gamescope arguments are not valid shell words: missing closing quote"
    );
}

#[test]
fn default_settings_give_no_arguments() {
    assert_eq!(render(&GamescopeSettings::default()).unwrap(), Vec::<String>::new());
}

#[test]
fn blank_extra_args_are_ignored() {
    let settings = GamescopeSettings {
        extra_args: " \t\u{3000}\n".to_string(),
        ..Default::default()
    };
    assert_eq!(render(&settings).unwrap(), Vec::<String>::new());
}

#[test]
fn extra_args_are_split_like_a_shell() {
    let settings = GamescopeSettings {
        window_mode: WindowMode::Borderless,
        extra_args: "'a b' c\\ d \"e\"".to_string(),
        ..Default::default()
    };
    assert_eq!(render(&settings).unwrap(), vec!["-b", "a b", "c d", "e"]);
}

#[test]
fn zero_sizes_and_rates_are_refused_in_order() {
    let zero = Resolution { width: 0, height: 720 };
    let settings = GamescopeSettings {
        output_resolution: Some(zero),
        nested_refresh: Some(0),
        ..Default::default()
    };
    assert_eq!(render(&settings), Err(SettingsError::EmptyResolution));
    let settings = GamescopeSettings {
        nested_refresh: Some(0),
        framerate_limit: Some(0),
        ..Default::default()
    };
    assert_eq!(render(&settings), Err(SettingsError::EmptyRefresh));
    let settings = GamescopeSettings {
        framerate_limit: Some(0),
        extra_args: "'".to_string(),
        ..Default::default()
    };
    assert_eq!(render(&settings), Err(SettingsError::EmptyFramerateLimit));
    assert_eq!(
        SettingsError::EmptyFramerateLimit.message(),
        "FPS limit must be greater than zero"
    );
    assert_eq!(SettingsError::EmptyResolution.message(), "resolution must be greater than zero");
    assert_eq!(SettingsError::EmptyRefresh.message(), "refresh rate must be greater than zero");
}

#[test]
fn numbers_are_rendered_in_decimal() {
    let settings = GamescopeSettings {
        nested_resolution: Some(Resolution { width: 4294967295, height: 10 }),
        framerate_limit: Some(7),
        ..Default::default()
    };
    assert_eq!(
        render(&settings).unwrap(),
        vec!["-w", "4294967295", "-h", "10", "--framerate-limit", "7"]
    );
}

#[test]
fn indices_round_trip() {
    for i in 0..3u32 {
        assert_eq!(WindowMode::from_index(i).index(), i);
    }
    for i in 0..6u32 {
        assert_eq!(Scaler::from_index(i).index(), i);
        assert_eq!(Filter::from_index(i).index(), i);
    }
    assert_eq!(WindowMode::from_index(9), WindowMode::Windowed);
    assert_eq!(Scaler::from_index(6), Scaler::Default);
    assert_eq!(Filter::from_index(100), Filter::Default);
    assert_eq!(Scaler::LABELS[Scaler::Stretch.index() as usize], "Stretch");
    assert_eq!(Filter::LABELS[Filter::Fsr.index() as usize], "FSR");
    assert_eq!(WindowMode::LABELS[WindowMode::Borderless.index() as usize], "Borderless");
}

#[test]
fn scaler_and_filter_values() {
    let settings = GamescopeSettings {
        scaler: Scaler::Stretch,
        filter: Filter::Pixel,
        ..Default::default()
    };
    assert_eq!(render(&settings).unwrap(), vec!["-S", "stretch", "-F", "pixel"]);
}

#[test]
fn clone_keeps_every_field() {
    let settings = GamescopeSettings {
        nested_refresh: Some(144),
        extra_args: "--x".to_string(),
        ..Default::default()
    };
    assert_eq!(settings.clone(), settings);
}

#[test]
fn extra_words_follow_the_arguments() {
    let args = vec!["-f".to_string()];
    let words = Ok(vec!["--sharpness".to_string(), "4".to_string()]);
    assert_eq!(
        with_extra_words(args.clone(), words),
        Ok(vec!["-f".to_string(), "--sharpness".to_string(), "4".to_string()])
    );
    assert_eq!(
        with_extra_words(args, Err("missing closing quote".to_string())),
        Err(SettingsError::InvalidExtraArgs("missing closing quote".to_string()))
    );
}
