//! Gamescope settings and the argument list they stand for.
use vstd::prelude::*;

use crate::text::{decimal, trim, trim_str, u32_to_decimal};

verus! {

/// A width and height in pixels.
#[derive(Debug, Clone, Copy, PartialEq, Eq, Structural)]
pub struct Resolution {
    pub width: u32,
    pub height: u32,
}

/// How Gamescope presents its window.
#[derive(Debug, Clone, Copy, PartialEq, Eq, Structural)]
pub enum WindowMode {
    Windowed,
    Fullscreen,
    Borderless,
}

/// Gamescope's upscaler (`-S`).
#[derive(Debug, Clone, Copy, PartialEq, Eq, Structural)]
pub enum Scaler {
    Default,
    Auto,
    Integer,
    Fit,
    Fill,
    Stretch,
}

/// Gamescope's upscaling filter (`-F`).
#[derive(Debug, Clone, Copy, PartialEq, Eq, Structural)]
pub enum Filter {
    Default,
    Linear,
    Nearest,
    Fsr,
    Nis,
    Pixel,
}

/// The Gamescope options saved for one game.
#[derive(Debug, PartialEq, Eq)]
pub struct GamescopeSettings {
    pub output_resolution: Option<Resolution>,
    pub nested_resolution: Option<Resolution>,
    pub nested_refresh: Option<u32>,
    pub framerate_limit: Option<u32>,
    pub window_mode: WindowMode,
    pub scaler: Scaler,
    pub filter: Filter,
    pub hdr: bool,
    pub adaptive_sync: bool,
    pub mangoapp: bool,
    pub steam: bool,
    pub extra_args: String,
}

/// Why a set of settings cannot be turned into Gamescope arguments.
#[derive(Debug, Clone, PartialEq, Eq)]
pub enum SettingsError {
    EmptyResolution,
    EmptyRefresh,
    EmptyFramerateLimit,
    InvalidExtraArgs(String),
}

/// The mathematical value of a [`SettingsError`].
pub enum SettingsErrorView {
    EmptyResolution,
    EmptyRefresh,
    EmptyFramerateLimit,
    InvalidExtraArgs(Seq<char>),
}

impl View for SettingsError {
    type V = SettingsErrorView;

    open spec fn view(&self) -> SettingsErrorView {
        match self {
            SettingsError::EmptyResolution => SettingsErrorView::EmptyResolution,
            SettingsError::EmptyRefresh => SettingsErrorView::EmptyRefresh,
            SettingsError::EmptyFramerateLimit => SettingsErrorView::EmptyFramerateLimit,
            SettingsError::InvalidExtraArgs(m) => SettingsErrorView::InvalidExtraArgs(m@),
        }
    }
}

/// The message of a [`SettingsError`].
pub open spec fn settings_error_text(e: SettingsErrorView) -> Seq<char> {
    match e {
        SettingsErrorView::EmptyResolution => "resolution must be greater than zero"@,
        SettingsErrorView::EmptyRefresh => "refresh rate must be greater than zero"@,
        SettingsErrorView::EmptyFramerateLimit => "FPS limit must be greater than zero"@,
        SettingsErrorView::InvalidExtraArgs(m) => "extra Gamescope arguments are not valid shell words: "@
            + m,
    }
}

impl SettingsError {
    /// The message shown for this error.
    pub fn message(&self) -> (text: String)
        ensures
            text@ == settings_error_text(self@),
    {
        match self {
            SettingsError::EmptyResolution => "resolution must be greater than zero".to_owned(),
            SettingsError::EmptyRefresh => "refresh rate must be greater than zero".to_owned(),
            SettingsError::EmptyFramerateLimit => "FPS limit must be greater than zero".to_owned(),
            SettingsError::InvalidExtraArgs(m) => {
                let mut text = "extra Gamescope arguments are not valid shell words: ".to_owned();
                text.append(m.as_str());
                text
            },
        }
    }
}

impl Clone for GamescopeSettings {
    fn clone(&self) -> (copy: Self)
        ensures
            copy == *self,
    {
        GamescopeSettings {
            output_resolution: self.output_resolution,
            nested_resolution: self.nested_resolution,
            nested_refresh: self.nested_refresh,
            framerate_limit: self.framerate_limit,
            window_mode: self.window_mode,
            scaler: self.scaler,
            filter: self.filter,
            hdr: self.hdr,
            adaptive_sync: self.adaptive_sync,
            mangoapp: self.mangoapp,
            steam: self.steam,
            extra_args: self.extra_args.clone(),
        }
    }
}

/// The settings a game gets before anything was saved for it: no
/// resolutions, refresh or frame limit, a plain window, default scaler and
/// filter, and every switch off.
pub open spec fn default_settings(s: GamescopeSettings) -> bool {
    &&& s.output_resolution is None
    &&& s.nested_resolution is None
    &&& s.nested_refresh is None
    &&& s.framerate_limit is None
    &&& s.window_mode == WindowMode::Windowed
    &&& s.scaler == Scaler::Default
    &&& s.filter == Filter::Default
    &&& !s.hdr
    &&& !s.adaptive_sync
    &&& !s.mangoapp
    &&& !s.steam
    &&& s.extra_args@.len() == 0
}

impl Default for GamescopeSettings {
    fn default() -> (s: Self)
        ensures
            default_settings(s),
    {
        GamescopeSettings {
            output_resolution: None,
            nested_resolution: None,
            nested_refresh: None,
            framerate_limit: None,
            window_mode: WindowMode::Windowed,
            scaler: Scaler::Default,
            filter: Filter::Default,
            hdr: false,
            adaptive_sync: false,
            mangoapp: false,
            steam: false,
            extra_args: String::new(),
        }
    }
}

/// Both sides of a resolution are non-zero.
pub open spec fn valid_resolution(r: Resolution) -> bool {
    r.width != 0 && r.height != 0
}

/// What `shell_words::split` makes of a text: `None` where a quote is left
/// open, else the words.
pub uninterp spec fn shell_words_split(text: Seq<char>) -> Option<Seq<Seq<char>>>;

/// Splits text into words by the rules of a POSIX shell.
///
/// Trusted: calls `shell_words::split`. Its contract claims that the words
/// are a function of the text alone, and that a failure is reported with
/// the text of `shell_words::ParseError`, which is always
/// "missing closing quote". Which words come out is left unsaid.
#[verifier::external_body]
fn split_shell_words(text: &str) -> (words: Result<Vec<String>, String>)
    ensures
        match words {
            Ok(w) => shell_words_split(text@) == Some(w.deep_view()),
            Err(m) => shell_words_split(text@) is None && m@ == "missing closing quote"@,
        },
{
    match shell_words::split(text) {
        Ok(words) => Ok(words),
        Err(error) => Err(error.to_string()),
    }
}

/// `[w_flag, width, h_flag, height]` for a resolution that is set.
pub open spec fn resolution_args(
    w_flag: Seq<char>,
    h_flag: Seq<char>,
    r: Option<Resolution>,
) -> Seq<Seq<char>> {
    match r {
        Some(r) => seq![w_flag, decimal(r.width as nat), h_flag, decimal(r.height as nat)],
        None => seq![],
    }
}

/// `[flag, value]` for a value that is set.
pub open spec fn value_args(flag: Seq<char>, v: Option<u32>) -> Seq<Seq<char>> {
    match v {
        Some(v) => seq![flag, decimal(v as nat)],
        None => seq![],
    }
}

/// `[flag]` for a switch that is on.
pub open spec fn switch_args(flag: Seq<char>, on: bool) -> Seq<Seq<char>> {
    if on {
        seq![flag]
    } else {
        seq![]
    }
}

/// `[flag, value]` for an option value that is given.
pub open spec fn choice_args(flag: Seq<char>, v: Option<Seq<char>>) -> Seq<Seq<char>> {
    match v {
        Some(v) => seq![flag, v],
        None => seq![],
    }
}

/// The words of the extra arguments; none for a blank text.
pub open spec fn extra_words(extra: Seq<char>) -> Seq<Seq<char>> {
    if trim(extra).len() == 0 {
        seq![]
    } else {
        shell_words_split(extra).unwrap()
    }
}

/// The resolution, refresh and frame-limit arguments.
pub open spec fn numeric_args(s: GamescopeSettings) -> Seq<Seq<char>> {
    resolution_args("-w"@, "-h"@, s.nested_resolution) + resolution_args(
        "-W"@,
        "-H"@,
        s.output_resolution,
    ) + value_args("-r"@, s.nested_refresh) + value_args("--framerate-limit"@, s.framerate_limit)
}

/// The window-mode, scaler, filter and switch arguments.
pub open spec fn presentation_args(s: GamescopeSettings) -> Seq<Seq<char>> {
    s.window_mode.args_spec() + choice_args("-S"@, s.scaler.value_spec()) + choice_args(
        "-F"@,
        s.filter.value_spec(),
    ) + switch_args("--hdr-enabled"@, s.hdr) + switch_args("--adaptive-sync"@, s.adaptive_sync)
        + switch_args("--mangoapp"@, s.mangoapp) + switch_args("--steam"@, s.steam)
}

/// The Gamescope arguments of valid settings, in Gamescope's order.
pub open spec fn settings_args(s: GamescopeSettings) -> Seq<Seq<char>> {
    numeric_args(s) + presentation_args(s) + extra_words(s.extra_args@)
}

/// The first fault among the resolutions, refresh rate and frame limit.
pub open spec fn numeric_fault(s: GamescopeSettings) -> Option<SettingsErrorView> {
    if s.nested_resolution matches Some(r) && !valid_resolution(r) {
        Some(SettingsErrorView::EmptyResolution)
    } else if s.output_resolution matches Some(r) && !valid_resolution(r) {
        Some(SettingsErrorView::EmptyResolution)
    } else if s.nested_refresh == Some(0u32) {
        Some(SettingsErrorView::EmptyRefresh)
    } else if s.framerate_limit == Some(0u32) {
        Some(SettingsErrorView::EmptyFramerateLimit)
    } else {
        None
    }
}

/// The first reason, in Gamescope's argument order, why the settings are
/// refused, if any.
pub open spec fn settings_fault(s: GamescopeSettings) -> Option<SettingsErrorView> {
    if numeric_fault(s) is Some {
        numeric_fault(s)
    } else if trim(s.extra_args@).len() != 0 && shell_words_split(s.extra_args@) is None {
        Some(SettingsErrorView::InvalidExtraArgs("missing closing quote"@))
    } else {
        None
    }
}

/// The argument list of the settings, or the first reason they are refused.
pub open spec fn gamescope_args(s: GamescopeSettings) -> Result<Seq<Seq<char>>, SettingsErrorView> {
    match settings_fault(s) {
        Some(e) => Err(e),
        None => Ok(settings_args(s)),
    }
}

/// Refuses a resolution with a zero side.
fn validate_resolution(resolution: Resolution) -> (r: Result<(), SettingsError>)
    ensures
        match r {
            Ok(()) => valid_resolution(resolution),
            Err(e) => !valid_resolution(resolution) && e@ == SettingsErrorView::EmptyResolution,
        },
{
    if resolution.width == 0 || resolution.height == 0 {
        return Err(SettingsError::EmptyResolution);
    }
    Ok(())
}

fn owned(text: &str) -> (s: String)
    ensures
        s@ == text@,
{
    text.to_owned()
}

fn push_resolution(args: &mut Vec<String>, w_flag: &str, h_flag: &str, r: Resolution)
    ensures
        final(args).deep_view() == old(args).deep_view() + resolution_args(
            w_flag@,
            h_flag@,
            Some(r),
        ),
{
    let ghost before = args.deep_view();
    args.push(owned(w_flag));
    args.push(u32_to_decimal(r.width));
    args.push(owned(h_flag));
    args.push(u32_to_decimal(r.height));
    assert(args.deep_view() =~= before + resolution_args(w_flag@, h_flag@, Some(r)));
}

fn push_value(args: &mut Vec<String>, flag: &str, v: u32)
    ensures
        final(args).deep_view() == old(args).deep_view() + value_args(flag@, Some(v)),
{
    let ghost before = args.deep_view();
    args.push(owned(flag));
    args.push(u32_to_decimal(v));
    assert(args.deep_view() =~= before + value_args(flag@, Some(v)));
}

fn push_switch(args: &mut Vec<String>, flag: &str, on: bool)
    ensures
        final(args).deep_view() == old(args).deep_view() + switch_args(flag@, on),
{
    let ghost before = args.deep_view();
    if on {
        args.push(owned(flag));
    }
    assert(args.deep_view() =~= before + switch_args(flag@, on));
}

fn push_choice(args: &mut Vec<String>, flag: &str, v: Option<&'static str>)
    ensures
        final(args).deep_view() == old(args).deep_view() + choice_args(
            flag@,
            match v {
                Some(t) => Some(t@),
                None => None,
            },
        ),
{
    let ghost before = args.deep_view();
    if let Some(value) = v {
        args.push(owned(flag));
        args.push(owned(value));
    }
    assert(args.deep_view() =~= before + choice_args(
        flag@,
        match v {
            Some(t) => Some(t@),
            None => None,
        },
    ));
}

impl GamescopeSettings {
    fn numeric_arg_list(&self) -> (r: Result<Vec<String>, SettingsError>)
        ensures
            match r {
                Ok(args) => numeric_fault(*self) is None && args.deep_view() == numeric_args(*self),
                Err(e) => numeric_fault(*self) == Some(e@),
            },
    {
        let mut args: Vec<String> = Vec::new();
        assert(args.deep_view() =~= Seq::<Seq<char>>::empty());
        if let Some(resolution) = self.nested_resolution {
            if let Err(e) = validate_resolution(resolution) {
                return Err(e);
            }
            push_resolution(&mut args, "-w", "-h", resolution);
        }
        if let Some(resolution) = self.output_resolution {
            if let Err(e) = validate_resolution(resolution) {
                return Err(e);
            }
            push_resolution(&mut args, "-W", "-H", resolution);
        }
        assert(args.deep_view() =~= resolution_args("-w"@, "-h"@, self.nested_resolution)
            + resolution_args("-W"@, "-H"@, self.output_resolution));
        if let Some(refresh) = self.nested_refresh {
            if refresh == 0 {
                return Err(SettingsError::EmptyRefresh);
            }
            push_value(&mut args, "-r", refresh);
        }
        if let Some(limit) = self.framerate_limit {
            if limit == 0 {
                return Err(SettingsError::EmptyFramerateLimit);
            }
            push_value(&mut args, "--framerate-limit", limit);
        }
        assert(args.deep_view() =~= numeric_args(*self));
        Ok(args)
    }

    fn presentation_arg_list(&self) -> (args: Vec<String>)
        ensures
            args.deep_view() == presentation_args(*self),
    {
        let mut args: Vec<String> = Vec::new();
        match self.window_mode {
            WindowMode::Windowed => {},
            WindowMode::Fullscreen => args.push(owned("-f")),
            WindowMode::Borderless => args.push(owned("-b")),
        }
        assert(args.deep_view() =~= self.window_mode.args_spec());
        push_choice(&mut args, "-S", self.scaler.gamescope_value());
        push_choice(&mut args, "-F", self.filter.gamescope_value());
        push_switch(&mut args, "--hdr-enabled", self.hdr);
        push_switch(&mut args, "--adaptive-sync", self.adaptive_sync);
        push_switch(&mut args, "--mangoapp", self.mangoapp);
        push_switch(&mut args, "--steam", self.steam);
        assert(args.deep_view() =~= presentation_args(*self));
        args
    }

    /// The Gamescope command-line options that these settings stand for.
    pub fn to_gamescope_args(&self) -> (r: Result<Vec<String>, SettingsError>)
        ensures
            match r {
                Ok(args) => gamescope_args(*self) == Ok::<Seq<Seq<char>>, SettingsErrorView>(
                    args.deep_view(),
                ),
                Err(e) => gamescope_args(*self) == Err::<Seq<Seq<char>>, SettingsErrorView>(e@),
            },
    {
        let mut args = match self.numeric_arg_list() {
            Ok(args) => args,
            Err(e) => return Err(e),
        };
        let mut presentation = self.presentation_arg_list();
        let ghost numeric = args.deep_view();
        let ghost shown = presentation.deep_view();
        args.append(&mut presentation);
        assert(args.deep_view() =~= numeric + shown);
        let extra = self.extra_args.as_str();
        if trim_str(extra).unicode_len() == 0 {
            assert(extra_words(self.extra_args@) =~= Seq::<Seq<char>>::empty());
            assert(args.deep_view() =~= numeric + shown + extra_words(self.extra_args@));
            return Ok(args);
        }
        with_extra_words(args, split_shell_words(extra))
    }
}

/// The arguments followed by the words of the extra arguments, or the
/// error that splitting them gave, as [`SettingsError::InvalidExtraArgs`].
pub fn with_extra_words(args: Vec<String>, words: Result<Vec<String>, String>) -> (r: Result<
    Vec<String>,
    SettingsError,
>)
    ensures
        match words {
            Ok(w) => r matches Ok(all) && all.deep_view() == args.deep_view() + w.deep_view(),
            Err(m) => r matches Err(e) && e@ == SettingsErrorView::InvalidExtraArgs(m@),
        },
{
    match words {
        Ok(w) => {
            let mut all = args;
            let mut w = w;
            let ghost before = all.deep_view();
            let ghost added = w.deep_view();
            all.append(&mut w);
            assert(all.deep_view() =~= before + added);
            Ok(all)
        },
        Err(m) => Err(SettingsError::InvalidExtraArgs(m)),
    }
}

impl WindowMode {
    /// Names of the window modes, in index order.
    pub const LABELS: [&'static str; 3] = ["Windowed", "Fullscreen", "Borderless"];

    /// The Gamescope switches for this window mode.
    pub open spec fn args_spec(self) -> Seq<Seq<char>> {
        match self {
            WindowMode::Windowed => seq![],
            WindowMode::Fullscreen => seq!["-f"@],
            WindowMode::Borderless => seq!["-b"@],
        }
    }

    /// The window mode at a position in [`WindowMode::LABELS`].
    pub open spec fn from_index_spec(index: u32) -> WindowMode {
        if index == 1 {
            WindowMode::Fullscreen
        } else if index == 2 {
            WindowMode::Borderless
        } else {
            WindowMode::Windowed
        }
    }

    /// The position of this window mode in [`WindowMode::LABELS`].
    pub open spec fn index_spec(self) -> u32 {
        match self {
            WindowMode::Windowed => 0,
            WindowMode::Fullscreen => 1,
            WindowMode::Borderless => 2,
        }
    }

    /// The window mode at a position in [`WindowMode::LABELS`]; windowed
    /// for any other index.
    pub fn from_index(index: u32) -> (m: Self)
        ensures
            m == Self::from_index_spec(index),
    {
        match index {
            1 => WindowMode::Fullscreen,
            2 => WindowMode::Borderless,
            _ => WindowMode::Windowed,
        }
    }

    /// The position of this window mode in [`WindowMode::LABELS`].
    pub fn index(self) -> (i: u32)
        ensures
            i == self.index_spec(),
    {
        match self {
            WindowMode::Windowed => 0,
            WindowMode::Fullscreen => 1,
            WindowMode::Borderless => 2,
        }
    }
}

impl Scaler {
    /// Names of the scalers, in index order.
    pub const LABELS: [&'static str; 6] = [
        "System default",
        "Auto",
        "Integer",
        "Fit",
        "Fill",
        "Stretch",
    ];

    /// Gamescope's name for this scaler; none for Gamescope's own default.
    pub open spec fn value_spec(self) -> Option<Seq<char>> {
        match self {
            Scaler::Default => None,
            Scaler::Auto => Some("auto"@),
            Scaler::Integer => Some("integer"@),
            Scaler::Fit => Some("fit"@),
            Scaler::Fill => Some("fill"@),
            Scaler::Stretch => Some("stretch"@),
        }
    }

    /// The scaler at a position in [`Scaler::LABELS`].
    pub open spec fn from_index_spec(index: u32) -> Scaler {
        if index == 1 {
            Scaler::Auto
        } else if index == 2 {
            Scaler::Integer
        } else if index == 3 {
            Scaler::Fit
        } else if index == 4 {
            Scaler::Fill
        } else if index == 5 {
            Scaler::Stretch
        } else {
            Scaler::Default
        }
    }

    /// The position of this scaler in [`Scaler::LABELS`].
    pub open spec fn index_spec(self) -> u32 {
        match self {
            Scaler::Default => 0,
            Scaler::Auto => 1,
            Scaler::Integer => 2,
            Scaler::Fit => 3,
            Scaler::Fill => 4,
            Scaler::Stretch => 5,
        }
    }

    /// The scaler at a position in [`Scaler::LABELS`]; the default for any
    /// other index.
    pub fn from_index(index: u32) -> (s: Self)
        ensures
            s == Self::from_index_spec(index),
    {
        match index {
            1 => Scaler::Auto,
            2 => Scaler::Integer,
            3 => Scaler::Fit,
            4 => Scaler::Fill,
            5 => Scaler::Stretch,
            _ => Scaler::Default,
        }
    }

    /// The position of this scaler in [`Scaler::LABELS`].
    pub fn index(self) -> (i: u32)
        ensures
            i == self.index_spec(),
    {
        match self {
            Scaler::Default => 0,
            Scaler::Auto => 1,
            Scaler::Integer => 2,
            Scaler::Fit => 3,
            Scaler::Fill => 4,
            Scaler::Stretch => 5,
        }
    }

    fn gamescope_value(self) -> (v: Option<&'static str>)
        ensures
            match v {
                Some(t) => self.value_spec() == Some(t@),
                None => self.value_spec() is None,
            },
    {
        match self {
            Scaler::Default => None,
            Scaler::Auto => Some("auto"),
            Scaler::Integer => Some("integer"),
            Scaler::Fit => Some("fit"),
            Scaler::Fill => Some("fill"),
            Scaler::Stretch => Some("stretch"),
        }
    }
}

impl Filter {
    /// Names of the filters, in index order.
    pub const LABELS: [&'static str; 6] = [
        "System default",
        "Linear",
        "Nearest",
        "FSR",
        "NIS",
        "Pixel",
    ];

    /// Gamescope's name for this filter; none for Gamescope's own default.
    pub open spec fn value_spec(self) -> Option<Seq<char>> {
        match self {
            Filter::Default => None,
            Filter::Linear => Some("linear"@),
            Filter::Nearest => Some("nearest"@),
            Filter::Fsr => Some("fsr"@),
            Filter::Nis => Some("nis"@),
            Filter::Pixel => Some("pixel"@),
        }
    }

    /// The filter at a position in [`Filter::LABELS`].
    pub open spec fn from_index_spec(index: u32) -> Filter {
        if index == 1 {
            Filter::Linear
        } else if index == 2 {
            Filter::Nearest
        } else if index == 3 {
            Filter::Fsr
        } else if index == 4 {
            Filter::Nis
        } else if index == 5 {
            Filter::Pixel
        } else {
            Filter::Default
        }
    }

    /// The position of this filter in [`Filter::LABELS`].
    pub open spec fn index_spec(self) -> u32 {
        match self {
            Filter::Default => 0,
            Filter::Linear => 1,
            Filter::Nearest => 2,
            Filter::Fsr => 3,
            Filter::Nis => 4,
            Filter::Pixel => 5,
        }
    }

    /// The filter at a position in [`Filter::LABELS`]; the default for any
    /// other index.
    pub fn from_index(index: u32) -> (f: Self)
        ensures
            f == Self::from_index_spec(index),
    {
        match index {
            1 => Filter::Linear,
            2 => Filter::Nearest,
            3 => Filter::Fsr,
            4 => Filter::Nis,
            5 => Filter::Pixel,
            _ => Filter::Default,
        }
    }

    /// The position of this filter in [`Filter::LABELS`].
    pub fn index(self) -> (i: u32)
        ensures
            i == self.index_spec(),
    {
        match self {
            Filter::Default => 0,
            Filter::Linear => 1,
            Filter::Nearest => 2,
            Filter::Fsr => 3,
            Filter::Nis => 4,
            Filter::Pixel => 5,
        }
    }

    fn gamescope_value(self) -> (v: Option<&'static str>)
        ensures
            match v {
                Some(t) => self.value_spec() == Some(t@),
                None => self.value_spec() is None,
            },
    {
        match self {
            Filter::Default => None,
            Filter::Linear => Some("linear"),
            Filter::Nearest => Some("nearest"),
            Filter::Fsr => Some("fsr"),
            Filter::Nis => Some("nis"),
            Filter::Pixel => Some("pixel"),
        }
    }
}

/// Every window mode sits at its own index among the labels, and reading
/// that index back gives the same mode.
pub proof fn lemma_window_mode_index_round_trip(m: WindowMode)
    ensures
        m.index_spec() < 3,
        WindowMode::from_index_spec(m.index_spec()) == m,
{
}

/// An index among the window-mode labels names the mode at that index;
/// any other index names the first one.
pub proof fn lemma_window_mode_from_index(i: u32)
    ensures
        WindowMode::from_index_spec(i).index_spec() == if i < 3 {
            i
        } else {
            0
        },
{
}

/// Every scaler sits at its own index among the labels, and reading that
/// index back gives the same scaler.
pub proof fn lemma_scaler_index_round_trip(s: Scaler)
    ensures
        s.index_spec() < 6,
        Scaler::from_index_spec(s.index_spec()) == s,
{
}

/// An index among the scaler labels names the scaler at that index; any
/// other index names the first one.
pub proof fn lemma_scaler_from_index(i: u32)
    ensures
        Scaler::from_index_spec(i).index_spec() == if i < 6 {
            i
        } else {
            0
        },
{
}

/// Every filter sits at its own index among the labels, and reading that
/// index back gives the same filter.
pub proof fn lemma_filter_index_round_trip(f: Filter)
    ensures
        f.index_spec() < 6,
        Filter::from_index_spec(f.index_spec()) == f,
{
}

/// An index among the filter labels names the filter at that index; any
/// other index names the first one.
pub proof fn lemma_filter_from_index(i: u32)
    ensures
        Filter::from_index_spec(i).index_spec() == if i < 6 {
            i
        } else {
            0
        },
{
}

/// The default settings are accepted and add no Gamescope option at all;
/// in particular they do not switch on Gamescope's Steam integration.
pub proof fn lemma_default_settings_add_nothing(s: GamescopeSettings)
    requires
        default_settings(s),
    ensures
        gamescope_args(s) == Ok::<Seq<Seq<char>>, SettingsErrorView>(Seq::empty()),
        !settings_args(s).contains("--steam"@),
{
    assert(s.extra_args@ =~= Seq::<char>::empty());
    assert(trim(s.extra_args@) =~= Seq::<char>::empty());
    assert(settings_args(s) =~= Seq::<Seq<char>>::empty());
}


/// `c` in lower case when it is an ASCII capital letter, else itself.
pub open spec fn ascii_lower(c: char) -> char {
    if 'A' <= c <= 'Z' {
        ((c as u32) + 32) as char
    } else {
        c
    }
}

/// `s` with its ASCII capital letters in lower case.
pub open spec fn ascii_lowercase(s: Seq<char>) -> Seq<char> {
    s.map_values(|c: char| ascii_lower(c))
}

/// The value of a scaler as the label at its chooser position names it:
/// none for Gamescope's own default (position 0), else the label in lower
/// case.
pub open spec fn scaler_label_value(index: u32) -> Option<Seq<char>> {
    if index == 0 {
        None
    } else {
        Some(ascii_lowercase(Scaler::LABELS[index as int]@))
    }
}

proof fn lemma_scaler_value_is_label(x: Scaler)
    ensures
        x.value_spec() == scaler_label_value(x.index_spec()),
{
    reveal_strlit("System default");
    reveal_strlit("Auto");
    reveal_strlit("auto");
    reveal_strlit("Integer");
    reveal_strlit("integer");
    reveal_strlit("Fit");
    reveal_strlit("fit");
    reveal_strlit("Fill");
    reveal_strlit("fill");
    reveal_strlit("Stretch");
    reveal_strlit("stretch");
    match x {
        Scaler::Default => {},
        Scaler::Auto => {
            assert(ascii_lowercase("Auto"@) =~= "auto"@);
        },
        Scaler::Integer => {
            assert(ascii_lowercase("Integer"@) =~= "integer"@);
        },
        Scaler::Fit => {
            assert(ascii_lowercase("Fit"@) =~= "fit"@);
        },
        Scaler::Fill => {
            assert(ascii_lowercase("Fill"@) =~= "fill"@);
        },
        Scaler::Stretch => {
            assert(ascii_lowercase("Stretch"@) =~= "stretch"@);
        },
    }
}

/// Each scaler reaches Gamescope under its own name: its value is the
/// label at its chooser position in lower case (none for the default), and
/// two scalers with the same value are the same scaler.
pub proof fn lemma_scaler_values_name_scalers(a: Scaler, b: Scaler)
    ensures
        a.value_spec() == scaler_label_value(a.index_spec()),
        a.value_spec() == b.value_spec() ==> a == b,
{
    lemma_scaler_value_is_label(a);
    lemma_scaler_value_is_label(b);
    if a.value_spec() == b.value_spec() && a.value_spec() is Some {
        let (x, y) = (a.value_spec()->0, b.value_spec()->0);
        assert(x.len() == y.len() && x[0] == y[0]);
    }
    reveal_strlit("System default");
    reveal_strlit("Auto");
    reveal_strlit("auto");
    reveal_strlit("Integer");
    reveal_strlit("integer");
    reveal_strlit("Fit");
    reveal_strlit("fit");
    reveal_strlit("Fill");
    reveal_strlit("fill");
    reveal_strlit("Stretch");
    reveal_strlit("stretch");
}

/// The chooser position names the scaler whose label sits there: for each
/// position among the labels, the scaler read from it has that label's
/// value and sits at that position.
pub proof fn lemma_scaler_position_names_label(i: u32)
    requires
        i < 6,
    ensures
        Scaler::from_index_spec(i).value_spec() == scaler_label_value(i),
        Scaler::from_index_spec(i).index_spec() == i,
{
    lemma_scaler_value_is_label(Scaler::from_index_spec(i));
    assert(Scaler::from_index_spec(i).index_spec() == i);
}

/// The value of a filter as the label at its chooser position names it:
/// none for Gamescope's own default (position 0), else the label in lower
/// case.
pub open spec fn filter_label_value(index: u32) -> Option<Seq<char>> {
    if index == 0 {
        None
    } else {
        Some(ascii_lowercase(Filter::LABELS[index as int]@))
    }
}

proof fn lemma_filter_value_is_label(x: Filter)
    ensures
        x.value_spec() == filter_label_value(x.index_spec()),
{
    reveal_strlit("System default");
    reveal_strlit("Linear");
    reveal_strlit("linear");
    reveal_strlit("Nearest");
    reveal_strlit("nearest");
    reveal_strlit("FSR");
    reveal_strlit("fsr");
    reveal_strlit("NIS");
    reveal_strlit("nis");
    reveal_strlit("Pixel");
    reveal_strlit("pixel");
    match x {
        Filter::Default => {},
        Filter::Linear => {
            assert(ascii_lowercase("Linear"@) =~= "linear"@);
        },
        Filter::Nearest => {
            assert(ascii_lowercase("Nearest"@) =~= "nearest"@);
        },
        Filter::Fsr => {
            assert(ascii_lowercase("FSR"@) =~= "fsr"@);
        },
        Filter::Nis => {
            assert(ascii_lowercase("NIS"@) =~= "nis"@);
        },
        Filter::Pixel => {
            assert(ascii_lowercase("Pixel"@) =~= "pixel"@);
        },
    }
}

/// Each filter reaches Gamescope under its own name: its value is the
/// label at its chooser position in lower case (none for the default), and
/// two filters with the same value are the same filter.
pub proof fn lemma_filter_values_name_filters(a: Filter, b: Filter)
    ensures
        a.value_spec() == filter_label_value(a.index_spec()),
        a.value_spec() == b.value_spec() ==> a == b,
{
    lemma_filter_value_is_label(a);
    lemma_filter_value_is_label(b);
    if a.value_spec() == b.value_spec() && a.value_spec() is Some {
        let (x, y) = (a.value_spec()->0, b.value_spec()->0);
        assert(x.len() == y.len() && x[0] == y[0]);
    }
    reveal_strlit("System default");
    reveal_strlit("Linear");
    reveal_strlit("linear");
    reveal_strlit("Nearest");
    reveal_strlit("nearest");
    reveal_strlit("FSR");
    reveal_strlit("fsr");
    reveal_strlit("NIS");
    reveal_strlit("nis");
    reveal_strlit("Pixel");
    reveal_strlit("pixel");
}

/// The chooser position names the filter whose label sits there: for each
/// position among the labels, the filter read from it has that label's
/// value and sits at that position.
pub proof fn lemma_filter_position_names_label(i: u32)
    requires
        i < 6,
    ensures
        Filter::from_index_spec(i).value_spec() == filter_label_value(i),
        Filter::from_index_spec(i).index_spec() == i,
{
    lemma_filter_value_is_label(Filter::from_index_spec(i));
    assert(Filter::from_index_spec(i).index_spec() == i);
}

} // verus!
