use ownterm::appearance::{
    built_in_color_schemes, default_terminal_appearance_catalog, is_canonical_builtin_scheme,
    AppearanceSettings, TerminalAppearanceProfile, TerminalColorScheme,
};
use ownterm::appearance_editor::{
    active_profile, apply_appearance_request, opacity_settings, request_fallback,
    resolve_catalog, SaveAppearanceSettingsRequest,
};

#[test]
fn validates_ranges_and_defaults() {
    assert_eq!(AppearanceSettings::default().window_opacity, 92);
    assert!(AppearanceSettings::try_new(101, 82).is_err());
    assert!(AppearanceSettings::try_new(92, 54).is_err());
    assert!(AppearanceSettings::try_new(0, 55).is_ok());
}

#[test]
fn rejects_mutated_builtin_schemes() {
    let builtin = built_in_color_schemes().into_iter().next().unwrap();
    assert!(is_canonical_builtin_scheme(&builtin));
    let mut changed = builtin;
    changed.background = "#000000".into();
    assert!(!is_canonical_builtin_scheme(&changed));
}

#[test]
fn migrated_catalog_preserves_legacy_opacity_and_provides_terminal_presets() {
    let catalog = default_terminal_appearance_catalog(AppearanceSettings::try_new(88, 61).unwrap());
    assert_eq!(catalog.active_profile_id, "migrated-appearance");
    assert_eq!(catalog.profiles[0].window_opacity, 88);
    assert_eq!(catalog.profiles[0].terminal_background_opacity, 61);
    assert!(catalog.color_schemes.iter().any(|scheme| scheme.name == "Dracula"));
    assert!(catalog.color_schemes.iter().any(|scheme| scheme.name == "MaterialOcean"));
    assert!(catalog.color_schemes.iter().any(|scheme| scheme.name == "Moonlight II"));
    assert!(catalog.color_schemes.iter().any(|scheme| scheme.name == "TokyoNight"));
    assert!(catalog.color_schemes.iter().all(|scheme| scheme.ansi.len() == 16));
}

#[test]
fn invalid_or_missing_storage_values_fall_back_without_silent_state() {
    let result = AppearanceSettings::from_storage(Some("101"), Some("bad"));
    assert_eq!(result.settings, AppearanceSettings::default());
    assert!(result.defaults_applied);
    let result = AppearanceSettings::from_storage(Some("80"), Some("75"));
    assert_eq!(result.settings.window_opacity, 80);
    assert!(!result.defaults_applied);
}

#[test]
fn saved_opacities_load_back_unchanged() {
    let settings = AppearanceSettings::try_new(7, 100).unwrap();
    let (window, terminal) = opacity_settings(settings);
    assert_eq!(window.key, "appearance.windowOpacity");
    assert_eq!(window.value, "7");
    assert_eq!(terminal.value, "100");
    let loaded = AppearanceSettings::from_storage(Some(&window.value), Some(&terminal.value));
    assert_eq!(loaded.settings, settings);
    assert!(!loaded.defaults_applied);
    assert_eq!(AppearanceSettings::from_storage(Some("+80"), None).settings.window_opacity, 80);
    assert!(AppearanceSettings::from_storage(None, Some("82")).defaults_applied);
}

#[test]
fn catalog_in_force_falls_back_to_the_migrated_one() {
    let settings = AppearanceSettings::try_new(90, 70).unwrap();
    let stored = default_terminal_appearance_catalog(AppearanceSettings::default());
    let kept = resolve_catalog(Some(stored.clone()), None, settings);
    assert_eq!(kept, stored);
    let missing = resolve_catalog(Some(stored.clone()), Some("gone".into()), settings);
    assert_eq!(missing.profiles[0].window_opacity, 90);
    let none = resolve_catalog(None, None, settings);
    assert_eq!(active_profile(&none).unwrap().terminal_background_opacity, 70);
}

#[test]
fn appearance_requests_are_checked() {
    let current = default_terminal_appearance_catalog(AppearanceSettings::default());
    let request = |active: Option<&str>,
                   profiles: Option<Vec<TerminalAppearanceProfile>>,
                   schemes: Option<Vec<TerminalColorScheme>>| SaveAppearanceSettingsRequest {
        window_opacity: 92,
        terminal_background_opacity: 82,
        active_profile_id: active.map(|a| a.to_owned()),
        profiles,
        color_schemes: schemes,
    };
    let (settings, kept) = apply_appearance_request(request(None, None, None), current.clone()).unwrap();
    assert_eq!(kept, current);
    assert_eq!(settings, AppearanceSettings::default());

    let err = apply_appearance_request(
        request(Some("nope"), Some(current.profiles.clone()), Some(current.color_schemes.clone())),
        current.clone(),
    );
    assert_eq!(err.unwrap_err(), "an active appearance profile is required");

    let mut mutated = current.color_schemes.clone();
    mutated[0].cursor = "#123456".into();
    let err = apply_appearance_request(
        request(Some("migrated-appearance"), Some(current.profiles.clone()), Some(mutated)),
        current.clone(),
    );
    assert_eq!(
        err.unwrap_err(),
        "built-in color schemes are immutable; duplicate a scheme before editing"
    );

    let mut profiles = current.profiles.clone();
    profiles[0].font_size = 40;
    let err = apply_appearance_request(
        request(Some("migrated-appearance"), Some(profiles.clone()), Some(current.color_schemes.clone())),
        current.clone(),
    );
    assert_eq!(err.unwrap_err(), "appearance profile contains invalid values");

    profiles[0].font_size = 12;
    profiles[0].window_opacity = 75;
    let (settings, edited) = apply_appearance_request(
        request(Some("migrated-appearance"), Some(profiles), Some(current.color_schemes.clone())),
        current.clone(),
    )
    .unwrap();
    assert_eq!(settings.window_opacity, 75);
    assert_eq!(edited.profiles[0].font_size, 12);

    assert_eq!(
        request_fallback(&request(None, None, None).clone_with(101)).unwrap_err(),
        "window opacity must be between 0 and 100"
    );
}

trait WithOpacity {
    fn clone_with(&self, window: u8) -> SaveAppearanceSettingsRequest;
}

impl WithOpacity for SaveAppearanceSettingsRequest {
    fn clone_with(&self, window: u8) -> SaveAppearanceSettingsRequest {
        let mut copy = self.clone();
        copy.window_opacity = window;
        copy
    }
}

#[test]
fn opacities_written_as_decimal_text_load_back_for_every_value() {
    for n in 0u8..=255 {
        assert_eq!(ownterm::text::decimal_text(n), n.to_string());
    }
    for window in 0u8..=100 {
        for terminal in 55u8..=100 {
            let settings = AppearanceSettings::try_new(window, terminal).unwrap();
            let loaded = AppearanceSettings::from_storage(Some(&window.to_string()), Some(&terminal.to_string()));
            assert_eq!(loaded.settings, settings);
            assert!(!loaded.defaults_applied);
        }
    }
    for (w, t) in [(Some("abc"), Some("101")), (None, Some("54")), (Some("-1"), None)] {
        let loaded = AppearanceSettings::from_storage(w, t);
        assert_eq!(
            AppearanceSettings::try_new(loaded.settings.window_opacity, loaded.settings.terminal_background_opacity),
            Ok(loaded.settings)
        );
        assert!(loaded.defaults_applied);
    }
}
