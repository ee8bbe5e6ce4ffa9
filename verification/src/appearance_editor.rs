//! Changing the appearance from the settings screen: which catalog is in force, the
//! checks an edited catalog must pass, and the data shown back to the screen.
use vstd::prelude::*;
use crate::appearance::{
    builtin_schemes, default_terminal_appearance_catalog, is_canonical_builtin_scheme,
    is_migrated_catalog, loads_as, opt_str_view, terminal_opacity_valid, window_opacity_valid,
    AppearanceLoadResult, AppearanceSettings,
    TerminalAppearanceCatalog, TerminalAppearanceProfile, TerminalColorScheme,
};
use crate::appearance::{stored_opacity, TERMINAL_BACKGROUND_OPACITY_KEY, WINDOW_OPACITY_KEY};
use crate::repositories::{repository_error_text, RepositoryError, Setting, SettingsRepository};
use crate::text::{dec_text, decimal_text, lemma_dec_text_reads_back, str_eq};
use crate::window_opacity::{support, WindowOpacitySupport};

verus! {

/// A profile with identifier `id` is in the list.
pub open spec fn has_profile(profiles: Seq<TerminalAppearanceProfile>, id: Seq<char>) -> bool {
    exists|i: int| 0 <= i < profiles.len() && (#[trigger] profiles[i]).id@ == id
}

/// A colour scheme with identifier `id` is in the list.
pub open spec fn has_scheme(schemes: Seq<TerminalColorScheme>, id: Seq<char>) -> bool {
    exists|i: int| 0 <= i < schemes.len() && (#[trigger] schemes[i]).id@ == id
}

/// The index of the first profile with identifier `id`.
pub open spec fn first_profile(profiles: Seq<TerminalAppearanceProfile>, id: Seq<char>, i: int) -> bool {
    0 <= i < profiles.len() && profiles[i].id@ == id && forall|j: int|
        0 <= j < i ==> (#[trigger] profiles[j]).id@ != id
}

/// The active profile of a catalog: the first with the active identifier.
pub fn active_profile(catalog: &TerminalAppearanceCatalog) -> (r: Result<&TerminalAppearanceProfile, String>)
    ensures
        r matches Ok(p) ==> exists|i: int|
            first_profile(catalog.profiles@, catalog.active_profile_id@, i) && catalog.profiles@[i]
                == *p,
        r matches Err(m) ==> m@ == "active appearance profile is missing"@ && !has_profile(
            catalog.profiles@,
            catalog.active_profile_id@,
        ),
        has_profile(catalog.profiles@, catalog.active_profile_id@) ==> r is Ok,
{
    let mut i: usize = 0;
    while i < catalog.profiles.len()
        invariant
            i <= catalog.profiles@.len(),
            forall|j: int| 0 <= j < i ==> (#[trigger] catalog.profiles@[j]).id@ != catalog.active_profile_id@,
        decreases catalog.profiles@.len() - i,
    {
        if str_eq(catalog.profiles[i].id.as_str(), catalog.active_profile_id.as_str()) {
            assert(first_profile(catalog.profiles@, catalog.active_profile_id@, i as int));
            return Ok(&catalog.profiles[i]);
        }
        i += 1;
    }
    Err(String::from_str("active appearance profile is missing"))
}

fn find_profile(profiles: &Vec<TerminalAppearanceProfile>, id: &str) -> (r: bool)
    ensures
        r == has_profile(profiles@, id@),
{
    let mut i: usize = 0;
    while i < profiles.len()
        invariant
            i <= profiles@.len(),
            forall|j: int| 0 <= j < i ==> (#[trigger] profiles@[j]).id@ != id@,
        decreases profiles@.len() - i,
    {
        if str_eq(profiles[i].id.as_str(), id) {
            return true;
        }
        i += 1;
    }
    false
}

fn find_scheme(schemes: &Vec<TerminalColorScheme>, id: &str) -> (r: bool)
    ensures
        r == has_scheme(schemes@, id@),
{
    let mut i: usize = 0;
    while i < schemes.len()
        invariant
            i <= schemes@.len(),
            forall|j: int| 0 <= j < i ==> (#[trigger] schemes@[j]).id@ != id@,
        decreases schemes@.len() - i,
    {
        if str_eq(schemes[i].id.as_str(), id) {
            return true;
        }
        i += 1;
    }
    false
}

/// The catalog in force: the stored one (`None` when absent or unreadable, then the
/// catalog migrated from `settings`), with the stored active identifier if any; a catalog
/// whose active profile is missing is replaced by the migrated one.
pub fn resolve_catalog(
    stored: Option<TerminalAppearanceCatalog>,
    active: Option<String>,
    settings: AppearanceSettings,
) -> (c: TerminalAppearanceCatalog)
    ensures
        ({
            let active_id = match active {
                Some(a) => a@,
                None => match stored {
                    Some(s) => s.active_profile_id@,
                    None => "migrated-appearance"@,
                },
            };
            if stored is Some && has_profile(stored->0.profiles@, active_id) {
                c.active_profile_id@ == active_id && c.profiles == stored->0.profiles
                    && c.color_schemes == stored->0.color_schemes
            } else {
                is_migrated_catalog(settings, c)
            }
        }),
        has_profile(c.profiles@, c.active_profile_id@),
{
    proof {
        reveal_strlit("migrated-appearance");
    }
    let mut catalog = match stored {
        Some(s) => s,
        None => default_terminal_appearance_catalog(settings),
    };
    match active {
        Some(a) => {
            catalog.active_profile_id = a;
        },
        None => {},
    }
    if !find_profile(&catalog.profiles, catalog.active_profile_id.as_str()) {
        let migrated = default_terminal_appearance_catalog(settings);
        assert(migrated.profiles@[0].id@ == migrated.active_profile_id@);
        return migrated;
    }
    catalog
}

/// What the settings screen sends when the appearance is saved.
#[derive(Clone, Debug)]
pub struct SaveAppearanceSettingsRequest {
    pub window_opacity: u8,
    pub terminal_background_opacity: u8,
    pub active_profile_id: Option<String>,
    pub profiles: Option<Vec<TerminalAppearanceProfile>>,
    pub color_schemes: Option<Vec<TerminalColorScheme>>,
}

/// A profile's values are in range and its colour scheme is in the catalog.
pub open spec fn profile_valid(p: TerminalAppearanceProfile, schemes: Seq<TerminalColorScheme>) -> bool {
    &&& window_opacity_valid(p.window_opacity as int)
    &&& terminal_opacity_valid(p.terminal_background_opacity as int)
    &&& 6 <= p.font_size <= 32
    &&& has_scheme(schemes, p.color_scheme_id@)
}

/// The check an edited catalog must pass, in order.
pub open spec fn edited_catalog_error(active: Seq<char>, profiles: Seq<TerminalAppearanceProfile>, schemes: Seq<TerminalColorScheme>) -> Option<Seq<char>> {
    if profiles.len() == 0 || !has_profile(profiles, active) {
        Some("an active appearance profile is required"@)
    } else if exists|i: int| 0 <= i < schemes.len() && !(!(#[trigger] schemes[i]).built_in || builtin_schemes().contains(schemes[i]@)) {
        Some("built-in color schemes are immutable; duplicate a scheme before editing"@)
    } else if exists|i: int| 0 <= i < profiles.len() && !profile_valid(#[trigger] profiles[i], schemes) {
        Some("appearance profile contains invalid values"@)
    } else {
        None
    }
}

fn check_edited_catalog(active: &String, profiles: &Vec<TerminalAppearanceProfile>, schemes: &Vec<TerminalColorScheme>) -> (r: Result<(), String>)
    ensures
        match edited_catalog_error(active@, profiles@, schemes@) {
            Some(m) => r matches Err(e) && e@ == m,
            None => r is Ok,
        },
{
    if profiles.len() == 0 || !find_profile(profiles, active.as_str()) {
        return Err(String::from_str("an active appearance profile is required"));
    }
    let mut i: usize = 0;
    while i < schemes.len()
        invariant
            i <= schemes@.len(),
            profiles@.len() > 0 && has_profile(profiles@, active@),
            forall|j: int| 0 <= j < i ==> (!(#[trigger] schemes@[j]).built_in || builtin_schemes().contains(schemes@[j]@)),
        decreases schemes@.len() - i,
    {
        if !is_canonical_builtin_scheme(&schemes[i]) {
            assert(!(!schemes@[i as int].built_in || builtin_schemes().contains(schemes@[i as int]@)));
            return Err(String::from_str("built-in color schemes are immutable; duplicate a scheme before editing"));
        }
        i += 1;
    }
    let mut k: usize = 0;
    while k < profiles.len()
        invariant
            k <= profiles@.len(),
            profiles@.len() > 0 && has_profile(profiles@, active@),
            forall|j: int| 0 <= j < schemes@.len() ==> (!(#[trigger] schemes@[j]).built_in || builtin_schemes().contains(schemes@[j]@)),
            forall|j: int| 0 <= j < k ==> profile_valid(#[trigger] profiles@[j], schemes@),
        decreases profiles@.len() - k,
    {
        let p = &profiles[k];
        let opacities_ok = AppearanceSettings::try_new(p.window_opacity, p.terminal_background_opacity).is_ok();
        if !opacities_ok || !(6 <= p.font_size && p.font_size <= 32) || !find_scheme(schemes, p.color_scheme_id.as_str()) {
            assert(!profile_valid(profiles@[k as int], schemes@));
            return Err(String::from_str("appearance profile contains invalid values"));
        }
        k += 1;
    }
    Ok(())
}

/// The request's own opacities, checked before anything else.
pub fn request_fallback(request: &SaveAppearanceSettingsRequest) -> (r: Result<AppearanceSettings, String>)
    ensures
        window_opacity_valid(request.window_opacity as int) && terminal_opacity_valid(
            request.terminal_background_opacity as int,
        ) ==> r == Ok::<AppearanceSettings, String>(
            AppearanceSettings {
                window_opacity: request.window_opacity,
                terminal_background_opacity: request.terminal_background_opacity,
            },
        ),
        !window_opacity_valid(request.window_opacity as int) ==> (r matches Err(m) && m@
            == "window opacity must be between 0 and 100"@),
        window_opacity_valid(request.window_opacity as int) && !terminal_opacity_valid(
            request.terminal_background_opacity as int,
        ) ==> (r matches Err(m) && m@ == "terminal background opacity must be between 55 and 100"@),
{
    match AppearanceSettings::try_new(request.window_opacity, request.terminal_background_opacity) {
        Ok(s) => Ok(s),
        Err(e) => Err(String::from_str(e.message())),
    }
}

/// The catalog a save request leaves in force: a complete edited catalog, else the
/// current one.
pub open spec fn requested_catalog(request: SaveAppearanceSettingsRequest, current: TerminalAppearanceCatalog) -> TerminalAppearanceCatalog {
    if request.active_profile_id is Some && request.profiles is Some && request.color_schemes is Some {
        TerminalAppearanceCatalog {
            active_profile_id: request.active_profile_id->0,
            profiles: request.profiles->0,
            color_schemes: request.color_schemes->0,
        }
    } else {
        current
    }
}

pub open spec fn edit_error(request: SaveAppearanceSettingsRequest) -> Option<Seq<char>> {
    if request.active_profile_id is Some && request.profiles is Some && request.color_schemes is Some {
        edited_catalog_error(request.active_profile_id->0@, request.profiles->0@, request.color_schemes->0@)
    } else {
        None
    }
}

/// Applies a save request to the catalog in force: a complete edited catalog replaces it
/// once it passes the checks; the settings in force are those of its active profile,
/// whose opacities must be in range.
pub fn apply_appearance_request(request: SaveAppearanceSettingsRequest, current: TerminalAppearanceCatalog) -> (r: Result<
    (AppearanceSettings, TerminalAppearanceCatalog),
    String,
>)
    ensures
        edit_error(request) matches Some(m) ==> (r matches Err(e) && e@ == m),
        ({
            let c = requested_catalog(request, current);
            edit_error(request) is None ==> if !has_profile(c.profiles@, c.active_profile_id@) {
                r matches Err(e) && e@ == "active appearance profile is missing"@
            } else {
                exists|i: int|
                    first_profile(c.profiles@, c.active_profile_id@, i) && if !window_opacity_valid(
                        c.profiles@[i].window_opacity as int,
                    ) {
                        r matches Err(e) && e@ == "window opacity must be between 0 and 100"@
                    } else if !terminal_opacity_valid(c.profiles@[i].terminal_background_opacity as int) {
                        r matches Err(e) && e@ == "terminal background opacity must be between 55 and 100"@
                    } else {
                        r == Ok::<(AppearanceSettings, TerminalAppearanceCatalog), String>(
                            (
                                AppearanceSettings {
                                    window_opacity: c.profiles@[i].window_opacity,
                                    terminal_background_opacity: c.profiles@[i].terminal_background_opacity,
                                },
                                c,
                            ),
                        )
                    }
            }
        }),
{
    let ghost wanted = requested_catalog(request, current);
    let catalog = match (request.active_profile_id, request.profiles, request.color_schemes) {
        (Some(active_profile_id), Some(profiles), Some(color_schemes)) => {
            match check_edited_catalog(&active_profile_id, &profiles, &color_schemes) {
                Ok(()) => {},
                Err(e) => {
                    return Err(e);
                },
            }
            TerminalAppearanceCatalog { active_profile_id, profiles, color_schemes }
        },
        _ => current,
    };
    assert(catalog == wanted);
    let profile = match active_profile(&catalog) {
        Ok(p) => p,
        Err(e) => {
            return Err(e);
        },
    };
    let ghost i = choose|i: int| first_profile(catalog.profiles@, catalog.active_profile_id@, i) && catalog.profiles@[i] == *profile;
    let settings = match AppearanceSettings::try_new(profile.window_opacity, profile.terminal_background_opacity) {
        Ok(s) => s,
        Err(e) => {
            return Err(String::from_str(e.message()));
        },
    };
    Ok((settings, catalog))
}

/// The appearance as shown on the settings screen.
#[derive(Clone, Debug)]
pub struct AppearanceSettingsDto {
    pub window_opacity: u8,
    pub terminal_background_opacity: u8,
    pub window_opacity_support: &'static str,
    pub window_opacity_applied: bool,
    pub window_opacity_warning: Option<&'static str>,
    pub defaults_applied: bool,
    pub active_profile_id: String,
    pub profiles: Vec<TerminalAppearanceProfile>,
    pub color_schemes: Vec<TerminalColorScheme>,
}

/// The screen data for a given platform capability.
pub fn appearance_dto_for(
    capability: WindowOpacitySupport,
    settings: AppearanceSettings,
    defaults_applied: bool,
    applied: bool,
    catalog: TerminalAppearanceCatalog,
) -> (d: AppearanceSettingsDto)
    ensures
        d.window_opacity == settings.window_opacity,
        d.terminal_background_opacity == settings.terminal_background_opacity,
        d.window_opacity_support@ == match capability {
            WindowOpacitySupport::Supported => "supported"@,
            WindowOpacitySupport::Unsupported => "unsupported"@,
        },
        d.window_opacity_applied == applied,
        applied ==> d.window_opacity_warning is None,
        !applied ==> (d.window_opacity_warning matches Some(w) && w@
            == "Window opacity is unavailable; using a solid window."@),
        d.defaults_applied == defaults_applied,
        d.active_profile_id == catalog.active_profile_id,
        d.profiles == catalog.profiles,
        d.color_schemes == catalog.color_schemes,
{
    AppearanceSettingsDto {
        window_opacity: settings.window_opacity,
        terminal_background_opacity: settings.terminal_background_opacity,
        window_opacity_support: match capability {
            WindowOpacitySupport::Supported => "supported",
            WindowOpacitySupport::Unsupported => "unsupported",
        },
        window_opacity_applied: applied,
        window_opacity_warning: if applied {
            None
        } else {
            Some("Window opacity is unavailable; using a solid window.")
        },
        defaults_applied,
        active_profile_id: catalog.active_profile_id,
        profiles: catalog.profiles,
        color_schemes: catalog.color_schemes,
    }
}

/// The screen data on this platform.
pub fn appearance_dto(
    settings: AppearanceSettings,
    defaults_applied: bool,
    applied: bool,
    catalog: TerminalAppearanceCatalog,
) -> (d: AppearanceSettingsDto)
    ensures
        d.window_opacity == settings.window_opacity,
        d.terminal_background_opacity == settings.terminal_background_opacity,
        d.window_opacity_support@ == "supported"@ || d.window_opacity_support@ == "unsupported"@,
        d.window_opacity_applied == applied,
        applied ==> d.window_opacity_warning is None,
        !applied ==> (d.window_opacity_warning matches Some(w) && w@
            == "Window opacity is unavailable; using a solid window."@),
        d.defaults_applied == defaults_applied,
        d.active_profile_id == catalog.active_profile_id,
        d.profiles == catalog.profiles,
        d.color_schemes == catalog.color_schemes,
{
    appearance_dto_for(support(), settings, defaults_applied, applied, catalog)
}

/// The look to restore after the window changed state: the active profile's opacities
/// when they are valid, else the stored settings; Acrylic as the profile says, on when
/// there is no profile.
pub fn effective_appearance(settings: AppearanceSettings, catalog: Option<&TerminalAppearanceCatalog>) -> (r: (
    AppearanceSettings,
    bool,
))
    ensures
        catalog is None ==> r == (settings, true),
        catalog matches Some(c) ==> if has_profile(c.profiles@, c.active_profile_id@) {
            exists|i: int|
                first_profile(c.profiles@, c.active_profile_id@, i) && r.1 == c.profiles@[i].use_acrylic
                    && r.0 == if window_opacity_valid(c.profiles@[i].window_opacity as int)
                    && terminal_opacity_valid(c.profiles@[i].terminal_background_opacity as int) {
                    AppearanceSettings {
                        window_opacity: c.profiles@[i].window_opacity,
                        terminal_background_opacity: c.profiles@[i].terminal_background_opacity,
                    }
                } else {
                    settings
                }
        } else {
            r == (settings, true)
        },
{
    let profile = match catalog {
        Some(c) => match active_profile(c) {
            Ok(p) => Some(p),
            Err(_) => None,
        },
        None => None,
    };
    match profile {
        Some(p) => {
            let effective = match AppearanceSettings::try_new(p.window_opacity, p.terminal_background_opacity) {
                Ok(s) => s,
                Err(_) => settings,
            };
            (effective, p.use_acrylic)
        },
        None => (settings, true),
    }
}

/// The stored records of the opacities in force: each as its decimal text.
pub fn opacity_settings(settings: AppearanceSettings) -> (r: (Setting, Setting))
    ensures
        r.0.key@ == WINDOW_OPACITY_KEY@,
        r.0.value@ == dec_text(settings.window_opacity as nat),
        r.1.key@ == TERMINAL_BACKGROUND_OPACITY_KEY@,
        r.1.value@ == dec_text(settings.terminal_background_opacity as nat),
{
    (
        Setting { key: String::from_str(WINDOW_OPACITY_KEY), value: decimal_text(settings.window_opacity) },
        Setting {
            key: String::from_str(TERMINAL_BACKGROUND_OPACITY_KEY),
            value: decimal_text(settings.terminal_background_opacity),
        },
    )
}

fn read_error(e: RepositoryError) -> (m: String)
    ensures
        m@ == "could not read appearance settings: "@ + repository_error_text(e),
{
    let mut m = String::from_str("could not read appearance settings: ");
    m.append(e.debug_text().as_str());
    m
}

/// The stored text of a setting the store found, if it found one.
pub open spec fn setting_text(found: Option<Setting>) -> Option<Seq<char>> {
    match found {
        Some(s) => Some(s.value@),
        None => None,
    }
}

/// `r` reports the storage failure `e` met while reading the appearance.
pub open spec fn read_failure(r: Result<AppearanceLoadResult, String>, e: RepositoryError) -> bool {
    r matches Err(m) && m@ == "could not read appearance settings: "@ + repository_error_text(e)
}

/// `r` is the appearance loaded from the store's answers: `window` to reading the window
/// opacity and then, once that was read, `terminal` to reading the terminal background
/// opacity; the first failure is reported instead.
pub open spec fn appearance_read<S: SettingsRepository>(
    store: &S,
    window: Result<Option<Setting>, RepositoryError>,
    terminal: Result<Option<Setting>, RepositoryError>,
    r: Result<AppearanceLoadResult, String>,
) -> bool {
    &&& store.gets_setting(WINDOW_OPACITY_KEY@, window)
    &&& match window {
        Err(e) => read_failure(r, e),
        Ok(w) => {
            &&& store.gets_setting(TERMINAL_BACKGROUND_OPACITY_KEY@, terminal)
            &&& match terminal {
                Err(e) => read_failure(r, e),
                Ok(t) => r matches Ok(l) && loads_as(setting_text(w), setting_text(t), l),
            }
        },
    }
}

/// Loads the stored opacities, window first; a value that is missing or invalid falls
/// back to its default and says so. A failure is reported with the storage error's debug
/// text.
pub fn appearance_settings_from_store<S: SettingsRepository>(store: &S) -> (r: Result<AppearanceLoadResult, String>)
    ensures
        exists|window: Result<Option<Setting>, RepositoryError>, terminal: Result<Option<Setting>, RepositoryError>|
            #[trigger] appearance_read(store, window, terminal, r),
{
    let window_answer = store.get_setting(WINDOW_OPACITY_KEY);
    let ghost wa = window_answer;
    let window = match window_answer {
        Ok(v) => v,
        Err(e) => {
            let res: Result<AppearanceLoadResult, String> = Err(read_error(e));
            assert(appearance_read(store, wa, wa, res));
            return res;
        },
    };
    let terminal_answer = store.get_setting(TERMINAL_BACKGROUND_OPACITY_KEY);
    let ghost ta = terminal_answer;
    let terminal = match terminal_answer {
        Ok(v) => v,
        Err(e) => {
            let res: Result<AppearanceLoadResult, String> = Err(read_error(e));
            assert(appearance_read(store, wa, ta, res));
            return res;
        },
    };
    let w: Option<&str> = match &window {
        Some(s) => Some(s.value.as_str()),
        None => None,
    };
    let t: Option<&str> = match &terminal {
        Some(s) => Some(s.value.as_str()),
        None => None,
    };
    let loaded = AppearanceSettings::from_storage(w, t);
    let res: Result<AppearanceLoadResult, String> = Ok(loaded);
    assert(opt_str_view(w) == setting_text(window) && opt_str_view(t) == setting_text(terminal));
    assert(appearance_read(store, wa, ta, res));
    res
}

/// `r` reports the storage failure `e` met while saving the appearance.
pub open spec fn save_failure(r: Result<(), String>, e: RepositoryError) -> bool {
    r matches Err(m) && m@ == "could not save appearance settings: "@ + repository_error_text(e)
}

/// `r` is the outcome of saving the opacities of `settings` as the records `window` and
/// `terminal`, each its decimal text: the store answered `a` to saving the window opacity
/// and then, once that was saved, `b` to saving the terminal background opacity; the first
/// failure is reported instead.
pub open spec fn opacities_saved<S: SettingsRepository>(
    store: &S,
    settings: AppearanceSettings,
    window: Setting,
    terminal: Setting,
    a: Result<(), RepositoryError>,
    b: Result<(), RepositoryError>,
    r: Result<(), String>,
) -> bool {
    &&& window.key@ == WINDOW_OPACITY_KEY@
    &&& window.value@ == dec_text(settings.window_opacity as nat)
    &&& terminal.key@ == TERMINAL_BACKGROUND_OPACITY_KEY@
    &&& terminal.value@ == dec_text(settings.terminal_background_opacity as nat)
    &&& store.sets_setting(window, a)
    &&& match a {
        Err(e) => save_failure(r, e),
        Ok(()) => {
            &&& store.sets_setting(terminal, b)
            &&& match b {
                Err(e) => save_failure(r, e),
                Ok(()) => r is Ok,
            }
        },
    }
}

fn save_error(e: RepositoryError) -> (m: String)
    ensures
        m@ == "could not save appearance settings: "@ + repository_error_text(e),
{
    let mut m = String::from_str("could not save appearance settings: ");
    m.append(e.debug_text().as_str());
    m
}

/// Saves the opacities in force, window first; a failure is reported with the storage
/// error's debug text.
pub fn persist_opacities<S: SettingsRepository>(store: &S, settings: AppearanceSettings) -> (r: Result<(), String>)
    ensures
        exists|
            window: Setting,
            terminal: Setting,
            a: Result<(), RepositoryError>,
            b: Result<(), RepositoryError>,
        | #[trigger] opacities_saved(store, settings, window, terminal, a, b, r),
{
    let (window, terminal) = opacity_settings(settings);
    let window_answer = store.set_setting(&window);
    let ghost a = window_answer;
    match window_answer {
        Ok(()) => {},
        Err(e) => {
            let res: Result<(), String> = Err(save_error(e));
            assert(opacities_saved(store, settings, window, terminal, a, a, res));
            return res;
        },
    }
    let terminal_answer = store.set_setting(&terminal);
    let ghost b = terminal_answer;
    let res: Result<(), String> = match terminal_answer {
        Ok(()) => Ok(()),
        Err(e) => Err(save_error(e)),
    };
    assert(opacities_saved(store, settings, window, terminal, a, b, res));
    res
}

/// Opacities saved as decimal text load back unchanged and without falling back to
/// defaults: what a read gives back of a write.
pub proof fn lemma_opacity_text_round_trip(settings: AppearanceSettings)
    requires
        window_opacity_valid(settings.window_opacity as int),
        terminal_opacity_valid(settings.terminal_background_opacity as int),
    ensures
        stored_opacity(Some(dec_text(settings.window_opacity as nat)), |v: int| window_opacity_valid(v))
            == Some(settings.window_opacity as int),
        stored_opacity(
            Some(dec_text(settings.terminal_background_opacity as nat)),
            |v: int| terminal_opacity_valid(v),
        ) == Some(settings.terminal_background_opacity as int),
        loads_as(
            Some(dec_text(settings.window_opacity as nat)),
            Some(dec_text(settings.terminal_background_opacity as nat)),
            AppearanceLoadResult { settings, defaults_applied: false },
        ),
        forall|r: AppearanceLoadResult|
            #[trigger] loads_as(
                Some(dec_text(settings.window_opacity as nat)),
                Some(dec_text(settings.terminal_background_opacity as nat)),
                r,
            ) ==> r == (AppearanceLoadResult { settings, defaults_applied: false }),
{
    lemma_dec_text_reads_back(settings.window_opacity as nat);
    lemma_dec_text_reads_back(settings.terminal_background_opacity as nat);
}

} // verus!
