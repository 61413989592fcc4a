use gamescope_gui::display::DisplayDefaults;
use gamescope_gui::form::{configure, SettingsRows};
use gamescope_gui::profiles::ProfileIdentity;
use gamescope_gui::settings::{Filter, GamescopeSettings, Resolution, Scaler, WindowMode};

fn identity() -> ProfileIdentity {
    ProfileIdentity {
        key: "steam-42".to_string(),
        label: "Steam App 42".to_string(),
        command_hash: "abc".to_string(),
        is_steam_profile: true,
    }
}

#[test]
fn configure_shows_defaults_for_unsaved_settings() {
    let defaults = DisplayDefaults::new(Resolution { width: 3840, height: 2160 });
    let form = configure(&identity(), &GamescopeSettings::default(), &defaults);

    assert_eq!(form.subtitle, "Steam App 42");
    assert_eq!(form.output_hint, "Native monitor target: 3840x2160");
    assert_eq!(
        form.nested_hint,
        "Suggested from monitor: Native 3840x2160, 1.5x scale 2560x1440, 2x scale 1920x1080"
    );
    assert_eq!(
        form.preset_labels,
        vec![
            "Native - 3840x2160".to_string(),
            "1.5x scale - 2560x1440".to_string(),
            "2x scale - 1920x1080".to_string(),
        ]
    );
    let rows = &form.rows;
    assert!(rows.output_enabled);
    assert_eq!((rows.output_width, rows.output_height), (3840, 2160));
    assert!(rows.nested_enabled);
    assert_eq!(rows.nested_preset, 0);
    assert_eq!((rows.nested_width, rows.nested_height), (3840, 2160));
    assert!(!rows.refresh_enabled);
    assert_eq!(rows.refresh, 60);
    assert!(!rows.fps_enabled);
    assert_eq!(rows.fps, 60);
    assert_eq!((rows.window_mode, rows.scaler, rows.filter), (0, 0, 0));
    assert!(!rows.hdr && !rows.adaptive_sync && !rows.mangoapp && !rows.steam);
    assert_eq!(rows.extra_args, "");
}

#[test]
fn configure_shows_saved_settings() {
    let defaults = DisplayDefaults::new(Resolution { width: 3840, height: 2160 });
    let settings = GamescopeSettings {
        output_resolution: Some(Resolution { width: 2560, height: 1440 }),
        nested_resolution: Some(Resolution { width: 1920, height: 1080 }),
        nested_refresh: Some(144),
        framerate_limit: Some(90),
        window_mode: WindowMode::Borderless,
        scaler: Scaler::Fit,
        filter: Filter::Fsr,
        hdr: true,
        adaptive_sync: false,
        mangoapp: true,
        steam: true,
        extra_args: "--sharpness 4".to_string(),
    };
    let form = configure(&identity(), &settings, &defaults);
    let rows = &form.rows;
    assert_eq!((rows.output_width, rows.output_height), (2560, 1440));
    assert_eq!(rows.nested_preset, 2);
    assert_eq!((rows.nested_width, rows.nested_height), (1920, 1080));
    assert!(rows.refresh_enabled);
    assert_eq!(rows.refresh, 144);
    assert!(rows.fps_enabled);
    assert_eq!(rows.fps, 90);
    assert_eq!((rows.window_mode, rows.scaler, rows.filter), (2, 3, 3));
    assert!(rows.hdr && !rows.adaptive_sync && rows.mangoapp && rows.steam);
    assert_eq!(rows.extra_args, "--sharpness 4");

    // Nothing changed in the window: the settings come back as saved.
    assert_eq!(form.rows.to_settings(), settings);
}

#[test]
fn unsaved_resolutions_come_back_native() {
    let defaults = DisplayDefaults::new(Resolution { width: 1920, height: 1080 });
    let form = configure(&identity(), &GamescopeSettings::default(), &defaults);
    let back = form.rows.to_settings();
    assert_eq!(
        back,
        GamescopeSettings {
            output_resolution: Some(Resolution { width: 1920, height: 1080 }),
            nested_resolution: Some(Resolution { width: 1920, height: 1080 }),
            ..GamescopeSettings::default()
        }
    );
}

#[test]
fn unknown_game_resolution_selects_first_preset() {
    let defaults = DisplayDefaults::new(Resolution { width: 1920, height: 1080 });
    let settings = GamescopeSettings {
        nested_resolution: Some(Resolution { width: 1234, height: 777 }),
        ..GamescopeSettings::default()
    };
    let form = configure(&identity(), &settings, &defaults);
    assert_eq!(form.rows.nested_preset, 0);
    assert_eq!(form.preset_labels.len(), 3);
}

#[test]
fn small_monitors_offer_no_presets() {
    let defaults = DisplayDefaults::new(Resolution { width: 200, height: 100 });
    let form = configure(&identity(), &GamescopeSettings::default(), &defaults);
    assert!(form.preset_labels.is_empty());
    assert_eq!(form.nested_hint, "Suggested from monitor: ");
    assert_eq!(form.rows.nested_preset, 0);
}

#[test]
fn rows_switched_off_give_no_values() {
    let rows = SettingsRows {
        output_enabled: false,
        output_width: 1,
        output_height: 2,
        nested_enabled: false,
        nested_preset: 1,
        nested_width: 3,
        nested_height: 4,
        refresh_enabled: false,
        refresh: 5,
        fps_enabled: false,
        fps: 6,
        window_mode: 7,
        scaler: 8,
        filter: 9,
        hdr: false,
        adaptive_sync: true,
        mangoapp: false,
        steam: false,
        extra_args: "-e".to_string(),
    };
    let settings = rows.to_settings();
    assert_eq!(settings.output_resolution, None);
    assert_eq!(settings.nested_resolution, None);
    assert_eq!(settings.nested_refresh, None);
    assert_eq!(settings.framerate_limit, None);
    assert_eq!(settings.window_mode, WindowMode::Windowed);
    assert_eq!(settings.scaler, Scaler::Default);
    assert_eq!(settings.filter, Filter::Default);
    assert!(settings.adaptive_sync);
    assert_eq!(settings.extra_args, "-e");
}
