//! Typed contract for local terminal appearance profiles.
use vstd::prelude::*;
use crate::text::{chars_of, parse_u8, parse_unsigned};

verus! {

pub const WINDOW_OPACITY_KEY: &'static str = "appearance.windowOpacity";

pub const TERMINAL_BACKGROUND_OPACITY_KEY: &'static str = "appearance.terminalBackgroundOpacity";

pub const TERMINAL_APPEARANCE_PROFILES_KEY: &'static str = "appearance.terminalProfiles";

pub const ACTIVE_TERMINAL_APPEARANCE_PROFILE_KEY: &'static str = "appearance.activeTerminalProfile";

pub const DEFAULT_WINDOW_OPACITY: u8 = 92;

pub const MIN_WINDOW_OPACITY: u8 = 0;

pub const MAX_WINDOW_OPACITY: u8 = 100;

pub const DEFAULT_TERMINAL_BACKGROUND_OPACITY: u8 = 82;

pub const MIN_TERMINAL_BACKGROUND_OPACITY: u8 = 55;

pub const MAX_TERMINAL_BACKGROUND_OPACITY: u8 = 100;

/// Window and terminal background opacity, in percent.
#[derive(Clone, Copy, Debug, PartialEq, Eq, Structural)]
pub struct AppearanceSettings {
    pub window_opacity: u8,
    pub terminal_background_opacity: u8,
}

#[derive(Clone, Copy, Debug, PartialEq, Eq, Structural)]
pub struct AppearanceLoadResult {
    pub settings: AppearanceSettings,
    pub defaults_applied: bool,
}

#[derive(Clone, Copy, Debug, PartialEq, Eq, Structural)]
pub enum AppearanceSettingsError {
    WindowOpacityOutOfRange,
    TerminalBackgroundOpacityOutOfRange,
}

impl AppearanceSettingsError {
    pub fn message(&self) -> (s: &'static str)
        ensures
            s@ == match self {
                AppearanceSettingsError::WindowOpacityOutOfRange => "window opacity must be between 0 and 100"@,
                AppearanceSettingsError::TerminalBackgroundOpacityOutOfRange => "terminal background opacity must be between 55 and 100"@,
            },
    {
        match self {
            AppearanceSettingsError::WindowOpacityOutOfRange => "window opacity must be between 0 and 100",
            AppearanceSettingsError::TerminalBackgroundOpacityOutOfRange => "terminal background opacity must be between 55 and 100",
        }
    }
}

impl Default for AppearanceSettings {
    fn default() -> (s: Self)
        ensures
            s.window_opacity == DEFAULT_WINDOW_OPACITY,
            s.terminal_background_opacity == DEFAULT_TERMINAL_BACKGROUND_OPACITY,
    {
        AppearanceSettings {
            window_opacity: DEFAULT_WINDOW_OPACITY,
            terminal_background_opacity: DEFAULT_TERMINAL_BACKGROUND_OPACITY,
        }
    }
}

pub open spec fn window_opacity_valid(v: int) -> bool {
    MIN_WINDOW_OPACITY <= v <= MAX_WINDOW_OPACITY
}

pub open spec fn terminal_opacity_valid(v: int) -> bool {
    MIN_TERMINAL_BACKGROUND_OPACITY <= v <= MAX_TERMINAL_BACKGROUND_OPACITY
}

/// A stored opacity text read back: a `u8` in range, or nothing.
pub open spec fn stored_opacity(text: Option<Seq<char>>, valid: spec_fn(int) -> bool) -> Option<int> {
    match text {
        Some(t) => match parse_unsigned(t, 0xFF) {
            Some(v) => if valid(v) {
                Some(v)
            } else {
                None
            },
            None => None,
        },
        None => None,
    }
}

pub open spec fn opt_str_view(o: Option<&str>) -> Option<Seq<char>> {
    match o {
        Some(s) => Some(s@),
        None => None,
    }
}

/// What the stored texts of the two opacities load as: each valid one as stored, a
/// missing or invalid one as its default, and whether any default was used.
pub open spec fn loads_as(window: Option<Seq<char>>, terminal: Option<Seq<char>>, r: AppearanceLoadResult) -> bool {
    let w = stored_opacity(window, |v: int| window_opacity_valid(v));
    let t = stored_opacity(terminal, |v: int| terminal_opacity_valid(v));
    &&& r.settings.window_opacity == match w {
        Some(v) => v,
        None => DEFAULT_WINDOW_OPACITY as int,
    }
    &&& r.settings.terminal_background_opacity == match t {
        Some(v) => v,
        None => DEFAULT_TERMINAL_BACKGROUND_OPACITY as int,
    }
    &&& r.defaults_applied == (w is None || t is None)
}

/// Whatever the stored texts are, the settings they load as are in range: loading never
/// gives settings that `try_new` would refuse.
pub proof fn lemma_loaded_settings_valid(window: Option<Seq<char>>, terminal: Option<Seq<char>>, r: AppearanceLoadResult)
    requires
        loads_as(window, terminal, r),
    ensures
        window_opacity_valid(r.settings.window_opacity as int),
        terminal_opacity_valid(r.settings.terminal_background_opacity as int),
{
}

impl AppearanceSettings {
    pub fn try_new(window_opacity: u8, terminal_background_opacity: u8) -> (r: Result<
        Self,
        AppearanceSettingsError,
    >)
        ensures
            !window_opacity_valid(window_opacity as int) ==> r == Err::<Self, AppearanceSettingsError>(
                AppearanceSettingsError::WindowOpacityOutOfRange,
            ),
            window_opacity_valid(window_opacity as int) && !terminal_opacity_valid(
                terminal_background_opacity as int,
            ) ==> r == Err::<Self, AppearanceSettingsError>(
                AppearanceSettingsError::TerminalBackgroundOpacityOutOfRange,
            ),
            window_opacity_valid(window_opacity as int) && terminal_opacity_valid(
                terminal_background_opacity as int,
            ) ==> r == Ok::<Self, AppearanceSettingsError>(
                AppearanceSettings { window_opacity, terminal_background_opacity },
            ),
    {
        if !(MIN_WINDOW_OPACITY <= window_opacity && window_opacity <= MAX_WINDOW_OPACITY) {
            return Err(AppearanceSettingsError::WindowOpacityOutOfRange);
        }
        if !(MIN_TERMINAL_BACKGROUND_OPACITY <= terminal_background_opacity
            && terminal_background_opacity <= MAX_TERMINAL_BACKGROUND_OPACITY) {
            return Err(AppearanceSettingsError::TerminalBackgroundOpacityOutOfRange);
        }
        Ok(AppearanceSettings { window_opacity, terminal_background_opacity })
    }

    /// Reads stored values; an invalid or missing one falls back to its default and says so.
    pub fn from_storage(window: Option<&str>, terminal: Option<&str>) -> (r: AppearanceLoadResult)
        ensures
            loads_as(opt_str_view(window), opt_str_view(terminal), r),
    {
        let w = stored_window_opacity(window);
        let t = stored_terminal_opacity(terminal);
        AppearanceLoadResult {
            settings: AppearanceSettings {
                window_opacity: match w {
                    Some(v) => v,
                    None => DEFAULT_WINDOW_OPACITY,
                },
                terminal_background_opacity: match t {
                    Some(v) => v,
                    None => DEFAULT_TERMINAL_BACKGROUND_OPACITY,
                },
            },
            defaults_applied: w.is_none() || t.is_none(),
        }
    }
}

fn stored_window_opacity(text: Option<&str>) -> (r: Option<u8>)
    ensures
        match stored_opacity(opt_str_view(text), |v: int| window_opacity_valid(v)) {
            Some(v) => r == Some(v as u8),
            None => r is None,
        },
{
    match text {
        Some(t) => {
            let c = chars_of(t);
            match parse_u8(&c) {
                Some(v) => if MIN_WINDOW_OPACITY <= v && v <= MAX_WINDOW_OPACITY {
                    Some(v)
                } else {
                    None
                },
                None => None,
            }
        },
        None => None,
    }
}

fn stored_terminal_opacity(text: Option<&str>) -> (r: Option<u8>)
    ensures
        match stored_opacity(opt_str_view(text), |v: int| terminal_opacity_valid(v)) {
            Some(v) => r == Some(v as u8),
            None => r is None,
        },
{
    match text {
        Some(t) => {
            let c = chars_of(t);
            match parse_u8(&c) {
                Some(v) => if MIN_TERMINAL_BACKGROUND_OPACITY <= v && v
                    <= MAX_TERMINAL_BACKGROUND_OPACITY {
                    Some(v)
                } else {
                    None
                },
                None => None,
            }
        },
        None => None,
    }
}

} // verus!

verus! {

/// A colour scheme by its texts.
pub struct SchemeView {
    pub id: Seq<char>,
    pub name: Seq<char>,
    pub background: Seq<char>,
    pub foreground: Seq<char>,
    pub cursor: Seq<char>,
    pub selection_background: Seq<char>,
    pub ansi: Seq<Seq<char>>,
    pub built_in: bool,
}

/// A reusable xterm palette. Built-ins are copied to local storage on first load, so a
/// user can duplicate and change them without mutating the preset.
#[derive(Clone, Debug, PartialEq, Eq)]
pub struct TerminalColorScheme {
    pub id: String,
    pub name: String,
    pub background: String,
    pub foreground: String,
    pub cursor: String,
    pub selection_background: String,
    pub ansi: [String; 16],
    pub built_in: bool,
}

impl View for TerminalColorScheme {
    type V = SchemeView;

    open spec fn view(&self) -> SchemeView {
        SchemeView {
            id: self.id@,
            name: self.name@,
            background: self.background@,
            foreground: self.foreground@,
            cursor: self.cursor@,
            selection_background: self.selection_background@,
            ansi: self.ansi@.map_values(|s: String| s@),
            built_in: self.built_in,
        }
    }
}

pub open spec fn builtin_view(
    id: Seq<char>,
    name: Seq<char>,
    background: Seq<char>,
    foreground: Seq<char>,
    cursor: Seq<char>,
    selection_background: Seq<char>,
    ansi: Seq<Seq<char>>,
) -> SchemeView {
    SchemeView { id, name, background, foreground, cursor, selection_background, ansi, built_in: true }
}

/// The built-in colour schemes, in order.
pub open spec fn builtin_schemes() -> Seq<SchemeView> {
    seq![
        builtin_view(
            "ownterm-default"@,
            "OwnTerm Default"@,
            "#0c0f15"@,
            "#f4f2f8"@,
            "#b9a7ff"@,
            "#6750a455"@,
            seq!["#151820"@, "#ff6b81"@, "#50c878"@, "#f0c674"@, "#7aa2f7"@, "#b9a7ff"@, "#78dce8"@, "#d7dae0"@, "#4b5263"@, "#ff8294"@, "#70e1a8"@, "#ffe08a"@, "#94b6ff"@, "#d3bdff"@, "#9feaf9"@, "#ffffff"@],
        ),
        builtin_view(
            "dracula"@,
            "Dracula"@,
            "#1E1F29"@,
            "#F8F8F2"@,
            "#BBBBBB"@,
            "#44475A"@,
            seq!["#000000"@, "#FF5555"@, "#50FA7B"@, "#F1FA8C"@, "#BD93F9"@, "#FF79C6"@, "#8BE9FD"@, "#BBBBBB"@, "#555555"@, "#FF5555"@, "#50FA7B"@, "#F1FA8C"@, "#BD93F9"@, "#FF79C6"@, "#8BE9FD"@, "#FFFFFF"@],
        ),
        builtin_view(
            "material-ocean"@,
            "MaterialOcean"@,
            "#0F111A"@,
            "#8F93A2"@,
            "#FFCC00"@,
            "#1F2233"@,
            seq!["#546E7A"@, "#FF5370"@, "#C3E88D"@, "#FFCB6B"@, "#82AAFF"@, "#C792EA"@, "#89DDFF"@, "#FFFFFF"@, "#546E7A"@, "#FF5370"@, "#C3E88D"@, "#FFCB6B"@, "#82AAFF"@, "#C792EA"@, "#89DDFF"@, "#FFFFFF"@],
        ),
        builtin_view(
            "moonlight-ii"@,
            "Moonlight II"@,
            "#222436"@,
            "#C8D3F5"@,
            "#FFFFFF"@,
            "#FFFFFF"@,
            seq!["#191A2A"@, "#FF757F"@, "#C3E88D"@, "#FFC777"@, "#82AAFF"@, "#C099FF"@, "#86E1FC"@, "#C8D3F5"@, "#828BB8"@, "#FF757F"@, "#C3E88D"@, "#FFC777"@, "#82AAFF"@, "#C099FF"@, "#86E1FC"@, "#C8D3F5"@],
        ),
        builtin_view(
            "tokyo-night"@,
            "TokyoNight"@,
            "#16161E"@,
            "#787C99"@,
            "#FFFFFF"@,
            "#FFFFFF"@,
            seq!["#363B54"@, "#F7768E"@, "#41A6B5"@, "#E0AF68"@, "#7AA2F7"@, "#BB9AF7"@, "#7DCFFF"@, "#787C99"@, "#363B54"@, "#F7768E"@, "#41A6B5"@, "#E0AF68"@, "#7AA2F7"@, "#BB9AF7"@, "#7DCFFF"@, "#ACB0D0"@],
        ),
    ]
}

fn scheme(
    id: &str,
    name: &str,
    background: &str,
    foreground: &str,
    cursor: &str,
    selection_background: &str,
    ansi: [&str; 16],
) -> (s: TerminalColorScheme)
    ensures
        s@ == builtin_view(
            id@,
            name@,
            background@,
            foreground@,
            cursor@,
            selection_background@,
            ansi@.map_values(|a: &str| a@),
        ),
{
    let owned: [String; 16] = [
        ansi[0].to_owned(),
        ansi[1].to_owned(),
        ansi[2].to_owned(),
        ansi[3].to_owned(),
        ansi[4].to_owned(),
        ansi[5].to_owned(),
        ansi[6].to_owned(),
        ansi[7].to_owned(),
        ansi[8].to_owned(),
        ansi[9].to_owned(),
        ansi[10].to_owned(),
        ansi[11].to_owned(),
        ansi[12].to_owned(),
        ansi[13].to_owned(),
        ansi[14].to_owned(),
        ansi[15].to_owned(),
    ];
    let s = TerminalColorScheme {
        id: id.to_owned(),
        name: name.to_owned(),
        background: background.to_owned(),
        foreground: foreground.to_owned(),
        cursor: cursor.to_owned(),
        selection_background: selection_background.to_owned(),
        ansi: owned,
        built_in: true,
    };
    assert(s@.ansi =~= ansi@.map_values(|a: &str| a@));
    s
}

/// The product's immutable colour scheme presets.
pub fn built_in_color_schemes() -> (r: Vec<TerminalColorScheme>)
    ensures
        r@.map_values(|s: TerminalColorScheme| s@) == builtin_schemes(),
{
    let mut v: Vec<TerminalColorScheme> = Vec::new();
    v.push(scheme(
        "ownterm-default",
        "OwnTerm Default",
        "#0c0f15",
        "#f4f2f8",
        "#b9a7ff",
        "#6750a455",
        ["#151820", "#ff6b81", "#50c878", "#f0c674", "#7aa2f7", "#b9a7ff", "#78dce8", "#d7dae0", "#4b5263", "#ff8294", "#70e1a8", "#ffe08a", "#94b6ff", "#d3bdff", "#9feaf9", "#ffffff"],
    ));
    v.push(scheme(
        "dracula",
        "Dracula",
        "#1E1F29",
        "#F8F8F2",
        "#BBBBBB",
        "#44475A",
        ["#000000", "#FF5555", "#50FA7B", "#F1FA8C", "#BD93F9", "#FF79C6", "#8BE9FD", "#BBBBBB", "#555555", "#FF5555", "#50FA7B", "#F1FA8C", "#BD93F9", "#FF79C6", "#8BE9FD", "#FFFFFF"],
    ));
    v.push(scheme(
        "material-ocean",
        "MaterialOcean",
        "#0F111A",
        "#8F93A2",
        "#FFCC00",
        "#1F2233",
        ["#546E7A", "#FF5370", "#C3E88D", "#FFCB6B", "#82AAFF", "#C792EA", "#89DDFF", "#FFFFFF", "#546E7A", "#FF5370", "#C3E88D", "#FFCB6B", "#82AAFF", "#C792EA", "#89DDFF", "#FFFFFF"],
    ));
    v.push(scheme(
        "moonlight-ii",
        "Moonlight II",
        "#222436",
        "#C8D3F5",
        "#FFFFFF",
        "#FFFFFF",
        ["#191A2A", "#FF757F", "#C3E88D", "#FFC777", "#82AAFF", "#C099FF", "#86E1FC", "#C8D3F5", "#828BB8", "#FF757F", "#C3E88D", "#FFC777", "#82AAFF", "#C099FF", "#86E1FC", "#C8D3F5"],
    ));
    v.push(scheme(
        "tokyo-night",
        "TokyoNight",
        "#16161E",
        "#787C99",
        "#FFFFFF",
        "#FFFFFF",
        ["#363B54", "#F7768E", "#41A6B5", "#E0AF68", "#7AA2F7", "#BB9AF7", "#7DCFFF", "#787C99", "#363B54", "#F7768E", "#41A6B5", "#E0AF68", "#7AA2F7", "#BB9AF7", "#7DCFFF", "#ACB0D0"],
    ));
    proof {
        let b = builtin_schemes();
        assert forall|k: int| 0 <= k < 5 implies #[trigger] v@[k]@ == b[k] by {
            assert(v@[k]@.ansi =~= b[k].ansi);
        }
    }
    assert(v@.map_values(|s: TerminalColorScheme| s@) =~= builtin_schemes());
    v
}

} // verus!

verus! {

/// Whether two schemes hold the same texts and flag.
pub fn same_scheme(a: &TerminalColorScheme, b: &TerminalColorScheme) -> (r: bool)
    ensures
        r == (a@ == b@),
{
    if !(a.id == b.id && a.name == b.name && a.background == b.background && a.foreground
        == b.foreground && a.cursor == b.cursor && a.selection_background
        == b.selection_background && a.built_in == b.built_in) {
        return false;
    }
    let mut i: usize = 0;
    while i < 16
        invariant
            i <= 16,
            forall|j: int| 0 <= j < i ==> a.ansi@[j]@ == b.ansi@[j]@,
        decreases 16 - i,
    {
        if !(a.ansi[i] == b.ansi[i]) {
            assert(a@.ansi[i as int] != b@.ansi[i as int]);
            return false;
        }
        i += 1;
    }
    assert(a@.ansi =~= b@.ansi);
    true
}

/// Built-in schemes are immutable product defaults: a scheme that claims to be built in must
/// equal one of them in every field.
pub fn is_canonical_builtin_scheme(scheme: &TerminalColorScheme) -> (r: bool)
    ensures
        r == (!scheme.built_in || builtin_schemes().contains(scheme@)),
{
    if !scheme.built_in {
        return true;
    }
    let builtins = built_in_color_schemes();
    let ghost b = builtin_schemes();
    let mut i: usize = 0;
    while i < builtins.len()
        invariant
            i <= builtins@.len(),
            builtins@.map_values(|s: TerminalColorScheme| s@) == b,
            b == builtin_schemes(),
            scheme.built_in,
            forall|j: int| 0 <= j < i ==> b[j] != scheme@,
        decreases builtins@.len() - i,
    {
        if same_scheme(&builtins[i], scheme) {
            assert(builtins@[i as int]@ == b[i as int]);
            assert(b.contains(scheme@));
            return true;
        }
        assert(b[i as int] == builtins@[i as int]@);
        i += 1;
    }
    false
}

/// A terminal look: colour scheme, font and opacities.
#[derive(Clone, Debug, PartialEq, Eq)]
pub struct TerminalAppearanceProfile {
    pub id: String,
    pub name: String,
    pub color_scheme_id: String,
    pub font_family: String,
    pub font_size: u8,
    pub window_opacity: u8,
    pub terminal_background_opacity: u8,
    pub use_acrylic: bool,
    pub built_in: bool,
}

/// The stored profiles, the active one, and the colour schemes they use.
#[derive(Clone, Debug, PartialEq, Eq)]
pub struct TerminalAppearanceCatalog {
    pub active_profile_id: String,
    pub profiles: Vec<TerminalAppearanceProfile>,
    pub color_schemes: Vec<TerminalColorScheme>,
}

/// The catalog that carries settings saved before profiles existed, with the built-in schemes.
pub open spec fn is_migrated_catalog(settings: AppearanceSettings, c: TerminalAppearanceCatalog) -> bool {
    &&& c.active_profile_id@ == "migrated-appearance"@
    &&& c.profiles@.len() == 1
    &&& c.profiles@[0].id@ == "migrated-appearance"@
    &&& c.profiles@[0].name@ == "Migrated appearance"@
    &&& c.profiles@[0].color_scheme_id@ == "ownterm-default"@
    &&& c.profiles@[0].font_family@ == "JetBrains Mono, Cascadia Mono, Consolas, monospace"@
    &&& c.profiles@[0].font_size == 14
    &&& c.profiles@[0].window_opacity == settings.window_opacity
    &&& c.profiles@[0].terminal_background_opacity == settings.terminal_background_opacity
    &&& c.profiles@[0].use_acrylic
    &&& !c.profiles@[0].built_in
    &&& c.color_schemes@.map_values(|s: TerminalColorScheme| s@) == builtin_schemes()
}

pub fn default_terminal_appearance_catalog(settings: AppearanceSettings) -> (c: TerminalAppearanceCatalog)
    ensures
        is_migrated_catalog(settings, c),
{
    let mut profiles: Vec<TerminalAppearanceProfile> = Vec::new();
    profiles.push(
        TerminalAppearanceProfile {
            id: String::from_str("migrated-appearance"),
            name: String::from_str("Migrated appearance"),
            color_scheme_id: String::from_str("ownterm-default"),
            font_family: String::from_str("JetBrains Mono, Cascadia Mono, Consolas, monospace"),
            font_size: 14,
            window_opacity: settings.window_opacity,
            terminal_background_opacity: settings.terminal_background_opacity,
            use_acrylic: true,
            built_in: false,
        },
    );
    TerminalAppearanceCatalog {
        active_profile_id: String::from_str("migrated-appearance"),
        profiles,
        color_schemes: built_in_color_schemes(),
    }
}

} // verus!
