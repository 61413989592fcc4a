use gamescope_gui::display::{
    clamp_selection, format_resolution, parse_preset_resolution, preset_label, presets_summary,
    round_to_even, scaled_resolution, DisplayDefaults, ResolutionPreset,
};
use gamescope_gui::settings::Resolution;

#[test]
fn builds_unique_presets_from_native_resolution() {
    let defaults = DisplayDefaults::new(Resolution {
        width: 3840,
        height: 2160,
    });

    let rendered: Vec<_> = defaults
        .presets
        .iter()
        .map(|preset| {
            (
                preset.label,
                preset.resolution.width,
                preset.resolution.height,
            )
        })
        .collect();

    assert_eq!(
        rendered,
        vec![
            ("Native", 3840, 2160),
            ("1.5x scale", 2560, 1440),
            ("2x scale", 1920, 1080),
        ]
    );
}

#[test]
fn small_and_repeated_presets_are_dropped() {
    let defaults = DisplayDefaults::new(Resolution { width: 640, height: 480 });
    let rendered: Vec<_> = defaults
        .presets
        .iter()
        .map(|p| (p.label, p.resolution.width, p.resolution.height))
        .collect();
    // 640/1.5 = 426.67 -> 427 -> 426; 480/1.5 = 320; 640/2 = 320, 480/2 = 240.
    assert_eq!(
        rendered,
        vec![("Native", 640, 480), ("1.5x scale", 426, 320), ("2x scale", 320, 240)]
    );
    let tiny = DisplayDefaults::new(Resolution { width: 100, height: 100 });
    assert!(tiny.presets.is_empty());
    assert_eq!(tiny.preset_index_for(Resolution { width: 100, height: 100 }), 0);
}

#[test]
fn scaled_sizes_match_floating_point_rounding() {
    for w in [0u32, 1, 2, 3, 5, 1365, 1366, 1919, 2559, 3841, 7679, 4294967295] {
        let r = scaled_resolution(Resolution { width: w, height: w }, 3, 2);
        let expected = ((w as f64 / 1.5).round() as u32) - (((w as f64 / 1.5).round() as u32) % 2);
        assert_eq!(r.width, expected, "1.5x of {}", w);
        let r = scaled_resolution(Resolution { width: w, height: w }, 2, 1);
        let expected = ((w as f64 / 2.0).round() as u32) - (((w as f64 / 2.0).round() as u32) % 2);
        assert_eq!(r.height, expected, "2x of {}", w);
    }
}

#[test]
fn default_presets_are_for_full_hd() {
    let defaults = DisplayDefaults::default();
    assert_eq!(defaults.native, Resolution { width: 1920, height: 1080 });
    assert_eq!(defaults.presets.len(), 3);
    assert_eq!(defaults.presets[1].resolution, Resolution { width: 1280, height: 720 });
    assert_eq!(defaults.presets[2].resolution, Resolution { width: 960, height: 540 });
}

#[test]
fn preset_index_finds_each_preset() {
    let defaults = DisplayDefaults::default();
    for (i, preset) in defaults.presets.iter().enumerate() {
        assert_eq!(defaults.preset_index_for(preset.resolution), i as u32);
    }
    assert_eq!(defaults.preset_index_for(Resolution { width: 1, height: 2 }), 0);
}

#[test]
fn rounds_down_to_even() {
    assert_eq!(round_to_even(0), 0);
    assert_eq!(round_to_even(7), 6);
    assert_eq!(round_to_even(8), 8);
    assert_eq!(round_to_even(u32::MAX), u32::MAX - 1);
}

#[test]
fn preset_labels_round_trip() {
    let preset = ResolutionPreset {
        label: "2x scale",
        resolution: Resolution { width: 1920, height: 1080 },
    };
    let label = preset_label(&preset);
    assert_eq!(label, "2x scale - 1920x1080");
    assert_eq!(parse_preset_resolution(&label), Some(preset.resolution));
    assert_eq!(format_resolution(preset.resolution), "1920x1080");
}

#[test]
fn parses_preset_resolutions_edge_cases() {
    assert_eq!(parse_preset_resolution("no-space"), None);
    assert_eq!(parse_preset_resolution("a 12by4"), None);
    assert_eq!(parse_preset_resolution("a +12x+4"), Some(Resolution { width: 12, height: 4 }));
    assert_eq!(parse_preset_resolution("a 12x4x5"), None);
    assert_eq!(parse_preset_resolution("a 4294967296x1"), None);
    assert_eq!(parse_preset_resolution("a x1"), None);
    assert_eq!(parse_preset_resolution("a b 007x08"), Some(Resolution { width: 7, height: 8 }));
    assert_eq!(parse_preset_resolution("a 1x1 "), None);
    assert_eq!(parse_preset_resolution("a -1x1"), None);
}

#[test]
fn summary_lists_presets() {
    let defaults = DisplayDefaults::default();
    assert_eq!(
        presets_summary(&defaults.presets),
        "Native 1920x1080, 1.5x scale 1280x720, 2x scale 960x540"
    );
    assert_eq!(presets_summary(&Vec::new()), "");
}

#[test]
fn selection_is_clamped_to_the_list() {
    assert_eq!(clamp_selection(5, 3), 2);
    assert_eq!(clamp_selection(1, 3), 1);
    assert_eq!(clamp_selection(4, 0), 0);
}
