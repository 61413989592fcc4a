//! The settings window's rows as plain values: what the window shows for a
//! game's saved settings, and the settings its rows stand for.
use vstd::prelude::*;

use crate::display::{
    clamp_selection, clamped_selection, format_resolution, preset_brief_text, preset_choice_text,
    preset_index, preset_label, presets_summary, resolution_text, DisplayDefaults,
};
use crate::profiles::ProfileIdentity;
use crate::settings::{
    lemma_filter_index_round_trip, lemma_scaler_index_round_trip,
    lemma_window_mode_index_round_trip, Filter, GamescopeSettings, Resolution, Scaler, WindowMode,
};
use crate::text::joined;

verus! {

/// The values held by the rows of the settings window: switches, whole
/// numbers in the spin rows, positions in the choosers and the text entry.
#[derive(Debug, PartialEq, Eq)]
pub struct SettingsRows {
    pub output_enabled: bool,
    pub output_width: u32,
    pub output_height: u32,
    pub nested_enabled: bool,
    pub nested_preset: u32,
    pub nested_width: u32,
    pub nested_height: u32,
    pub refresh_enabled: bool,
    pub refresh: u32,
    pub fps_enabled: bool,
    pub fps: u32,
    pub window_mode: u32,
    pub scaler: u32,
    pub filter: u32,
    pub hdr: bool,
    pub adaptive_sync: bool,
    pub mangoapp: bool,
    pub steam: bool,
    pub extra_args: String,
}

/// What the settings window shows for a game: the game's name, the hints
/// beside the resolution switches, the entries of the preset chooser and
/// the values of the rows.
#[derive(Debug, PartialEq, Eq)]
pub struct SettingsForm {
    pub subtitle: String,
    pub output_hint: String,
    pub nested_hint: String,
    pub preset_labels: Vec<String>,
    pub rows: SettingsRows,
}

/// The resolution shown for a saved one: itself, or the native resolution
/// when none is saved.
pub open spec fn shown_resolution(saved: Option<Resolution>, native: Resolution) -> Resolution {
    match saved {
        Some(r) => r,
        None => native,
    }
}

/// The number shown for a saved rate: itself, or 60 when none is saved.
pub open spec fn shown_rate(saved: Option<u32>) -> u32 {
    match saved {
        Some(v) => v,
        None => 60,
    }
}

/// `rows` show the settings `s` on a monitor with defaults `d`: both
/// resolution switches on, with the saved resolutions or the native one,
/// the preset of the game resolution selected, the refresh rate and frame
/// limit switched on when saved (60 otherwise), and every other setting as
/// saved.
pub open spec fn shows(rows: SettingsRows, s: GamescopeSettings, d: DisplayDefaults) -> bool {
    let output = shown_resolution(s.output_resolution, d.native);
    let nested = shown_resolution(s.nested_resolution, d.native);
    &&& rows.output_enabled
    &&& rows.output_width == output.width
    &&& rows.output_height == output.height
    &&& rows.nested_enabled
    &&& rows.nested_preset == clamped_selection(
        preset_index(d.presets@, nested) as u32,
        d.presets@.len(),
    )
    &&& rows.nested_width == nested.width
    &&& rows.nested_height == nested.height
    &&& rows.refresh_enabled == s.nested_refresh is Some
    &&& rows.refresh == shown_rate(s.nested_refresh)
    &&& rows.fps_enabled == s.framerate_limit is Some
    &&& rows.fps == shown_rate(s.framerate_limit)
    &&& rows.window_mode == s.window_mode.index_spec()
    &&& rows.scaler == s.scaler.index_spec()
    &&& rows.filter == s.filter.index_spec()
    &&& rows.hdr == s.hdr
    &&& rows.adaptive_sync == s.adaptive_sync
    &&& rows.mangoapp == s.mangoapp
    &&& rows.steam == s.steam
    &&& rows.extra_args == s.extra_args
}

/// A resolution from a switch and two numbers: set only when switched on.
pub open spec fn switched_resolution(on: bool, width: u32, height: u32) -> Option<Resolution> {
    if on {
        Some(Resolution { width, height })
    } else {
        None
    }
}

/// A number from a switch: set only when switched on.
pub open spec fn switched_rate(on: bool, value: u32) -> Option<u32> {
    if on {
        Some(value)
    } else {
        None
    }
}

/// The settings that rows stand for.
pub open spec fn settings_of(rows: SettingsRows) -> GamescopeSettings {
    GamescopeSettings {
        output_resolution: switched_resolution(
            rows.output_enabled,
            rows.output_width,
            rows.output_height,
        ),
        nested_resolution: switched_resolution(
            rows.nested_enabled,
            rows.nested_width,
            rows.nested_height,
        ),
        nested_refresh: switched_rate(rows.refresh_enabled, rows.refresh),
        framerate_limit: switched_rate(rows.fps_enabled, rows.fps),
        window_mode: WindowMode::from_index_spec(rows.window_mode),
        scaler: Scaler::from_index_spec(rows.scaler),
        filter: Filter::from_index_spec(rows.filter),
        hdr: rows.hdr,
        adaptive_sync: rows.adaptive_sync,
        mangoapp: rows.mangoapp,
        steam: rows.steam,
        extra_args: rows.extra_args,
    }
}

/// What the settings window shows for the saved settings of a game, on a
/// monitor with the given defaults.
pub fn configure(
    identity: &ProfileIdentity,
    settings: &GamescopeSettings,
    defaults: &DisplayDefaults,
) -> (form: SettingsForm)
    ensures
        form.subtitle@ == identity.label@,
        form.output_hint@ == "Native monitor target: "@ + resolution_text(defaults.native),
        form.nested_hint@ == "Suggested from monitor: "@ + joined(
            defaults.presets@.map_values(|p| preset_brief_text(p)),
            ", "@,
        ),
        form.preset_labels.deep_view() == defaults.presets@.map_values(|p| preset_choice_text(p)),
        shows(form.rows, *settings, *defaults),
{
    let output_resolution = match settings.output_resolution {
        Some(r) => r,
        None => defaults.native,
    };
    let nested_resolution = match settings.nested_resolution {
        Some(r) => r,
        None => defaults.native,
    };

    let mut output_hint = "Native monitor target: ".to_owned();
    let native = format_resolution(defaults.native);
    output_hint.append(native.as_str());

    let mut nested_hint = "Suggested from monitor: ".to_owned();
    let summary = presets_summary(&defaults.presets);
    nested_hint.append(summary.as_str());

    let mut preset_labels: Vec<String> = Vec::new();
    let n = defaults.presets.len();
    let mut i: usize = 0;
    while i < n
        invariant
            n == defaults.presets@.len(),
            i <= n,
            preset_labels.deep_view() == defaults.presets@.subrange(0, i as int).map_values(
                |p| preset_choice_text(p),
            ),
        decreases n - i,
    {
        let ghost before = preset_labels.deep_view();
        let label = preset_label(&defaults.presets[i]);
        preset_labels.push(label);
        proof {
            let done = defaults.presets@.subrange(0, i + 1).map_values(|p| preset_choice_text(p));
            assert(preset_labels.deep_view() =~= before.push(label@));
            assert(done =~= before.push(preset_choice_text(defaults.presets@[i as int])));
        }
        i = i + 1;
    }
    assert(defaults.presets@.subrange(0, n as int) =~= defaults.presets@);

    let selected = clamp_selection(defaults.preset_index_for(nested_resolution), n);
    let rows = SettingsRows {
        output_enabled: true,
        output_width: output_resolution.width,
        output_height: output_resolution.height,
        nested_enabled: true,
        nested_preset: selected,
        nested_width: nested_resolution.width,
        nested_height: nested_resolution.height,
        refresh_enabled: settings.nested_refresh.is_some(),
        refresh: match settings.nested_refresh {
            Some(v) => v,
            None => 60,
        },
        fps_enabled: settings.framerate_limit.is_some(),
        fps: match settings.framerate_limit {
            Some(v) => v,
            None => 60,
        },
        window_mode: settings.window_mode.index(),
        scaler: settings.scaler.index(),
        filter: settings.filter.index(),
        hdr: settings.hdr,
        adaptive_sync: settings.adaptive_sync,
        mangoapp: settings.mangoapp,
        steam: settings.steam,
        extra_args: settings.extra_args.clone(),
    };
    SettingsForm {
        subtitle: identity.label.clone(),
        output_hint,
        nested_hint,
        preset_labels,
        rows,
    }
}

impl SettingsRows {
    /// The settings these rows stand for: each resolution, the refresh rate
    /// and the frame limit only when switched on, the choosers' positions
    /// read as window mode, scaler and filter.
    pub fn to_settings(&self) -> (s: GamescopeSettings)
        ensures
            s == settings_of(*self),
    {
        GamescopeSettings {
            output_resolution: if self.output_enabled {
                Some(Resolution { width: self.output_width, height: self.output_height })
            } else {
                None
            },
            nested_resolution: if self.nested_enabled {
                Some(Resolution { width: self.nested_width, height: self.nested_height })
            } else {
                None
            },
            nested_refresh: if self.refresh_enabled {
                Some(self.refresh)
            } else {
                None
            },
            framerate_limit: if self.fps_enabled {
                Some(self.fps)
            } else {
                None
            },
            window_mode: WindowMode::from_index(self.window_mode),
            scaler: Scaler::from_index(self.scaler),
            filter: Filter::from_index(self.filter),
            hdr: self.hdr,
            adaptive_sync: self.adaptive_sync,
            mangoapp: self.mangoapp,
            steam: self.steam,
            extra_args: self.extra_args.clone(),
        }
    }
}

/// Starting from the window as it first shows a game's settings, and
/// changing nothing, gives back the saved settings, except that a
/// resolution that was not saved becomes the native resolution; settings
/// with both resolutions saved come back unchanged.
pub proof fn lemma_unchanged_form_keeps_settings(
    s: GamescopeSettings,
    d: DisplayDefaults,
    rows: SettingsRows,
)
    requires
        shows(rows, s, d),
    ensures
        settings_of(rows) == (GamescopeSettings {
            output_resolution: Some(shown_resolution(s.output_resolution, d.native)),
            nested_resolution: Some(shown_resolution(s.nested_resolution, d.native)),
            ..s
        }),
        s.output_resolution is Some && s.nested_resolution is Some ==> settings_of(rows) == s,
{
    lemma_window_mode_index_round_trip(s.window_mode);
    lemma_scaler_index_round_trip(s.scaler);
    lemma_filter_index_round_trip(s.filter);
}

} // verus!
