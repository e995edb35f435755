use emojipicker::model::{CatalogRef, ItemKind};
use emojipicker::settings::{
    autostart_registry_action, get, parse_bool, parse_settings_text, set_auto_update,
    set_autostart, settings_text, toggle_theme, LoadedSettings, RegistryAction, Settings, Theme,
};
use emojipicker::theme::{rgb, Palette};

#[test]
fn item_kind_labels() {
    assert_eq!(ItemKind::Emoji.label(), "Emoji");
    assert_eq!(ItemKind::Kaomoji.label(), "Kaomoji");
    assert_eq!(ItemKind::Ascii.label(), "ASCII");
    assert_eq!(ItemKind::Snippet.label(), "Text");
    assert_eq!(ItemKind::Symbol.label(), "Symbols");
}

#[test]
fn category_tabs_in_order() {
    assert_eq!(ItemKind::category(0), None);
    assert_eq!(ItemKind::category(1), Some(ItemKind::Emoji));
    assert_eq!(ItemKind::category(2), Some(ItemKind::Kaomoji));
    assert_eq!(ItemKind::category(3), Some(ItemKind::Ascii));
    assert_eq!(ItemKind::category(4), Some(ItemKind::Snippet));
    assert_eq!(ItemKind::category(5), Some(ItemKind::Symbol));
    assert_ne!(CatalogRef::Builtin(1), CatalogRef::Custom(1));
}

#[test]
fn theme_keys_read_back() {
    assert_eq!(Theme::Dark.key(), "dark");
    assert_eq!(Theme::Light.key(), "light");
    assert_eq!(Theme::from_key(Theme::Dark.key()), Theme::Dark);
    assert_eq!(Theme::from_key(Theme::Light.key()), Theme::Light);
}

#[test]
fn theme_from_key_ignores_ascii_case_only() {
    assert_eq!(Theme::from_key("LiGhT"), Theme::Light);
    assert_eq!(Theme::from_key("LIGHT"), Theme::Light);
    assert_eq!(Theme::from_key(" light"), Theme::Dark);
    assert_eq!(Theme::from_key("lights"), Theme::Dark);
    assert_eq!(Theme::from_key(""), Theme::Dark);
    assert_eq!(Theme::from_key("dark"), Theme::Dark);
}

#[test]
fn theme_toggle_twice_restores() {
    assert_eq!(Theme::Dark.toggle(), Theme::Light);
    assert_eq!(Theme::Light.toggle(), Theme::Dark);
    assert_eq!(Theme::Dark.toggle().toggle(), Theme::Dark);
}

#[test]
fn parse_bool_accepts_four_spellings() {
    assert!(parse_bool("true"));
    assert!(parse_bool("1"));
    assert!(parse_bool("yes"));
    assert!(parse_bool(" on\t"));
    assert!(!parse_bool("TRUE"));
    assert!(!parse_bool("false"));
    assert!(!parse_bool("0"));
    assert!(!parse_bool(""));
    assert!(!parse_bool("y"));
}

#[test]
fn default_settings_are_dark_with_updates_and_autostart() {
    let s = Settings::default();
    assert_eq!(s, Settings { theme: Theme::Dark, auto_update: true, autostart: true });
}

#[test]
fn settings_text_exact() {
    let s = Settings { theme: Theme::Light, auto_update: false, autostart: true };
    assert_eq!(settings_text(s), "theme=light\nauto_update=false\nautostart=true\n");
}

#[test]
fn settings_text_round_trip_all() {
    for theme in [Theme::Dark, Theme::Light] {
        for auto_update in [false, true] {
            for autostart in [false, true] {
                let s = Settings { theme, auto_update, autostart };
                let loaded = parse_settings_text(&settings_text(s));
                assert_eq!(loaded, LoadedSettings { settings: s, saw_autostart_key: true });
                assert!(!loaded.needs_autostart_migration());
            }
        }
    }
}

#[test]
fn legacy_file_without_autostart_migrates() {
    let loaded = parse_settings_text("theme=light\nauto_update=0\n");
    assert_eq!(
        loaded,
        LoadedSettings {
            settings: Settings { theme: Theme::Light, auto_update: false, autostart: true },
            saw_autostart_key: false,
        }
    );
    assert!(loaded.needs_autostart_migration());
    let (settled, save) = loaded.settle(false);
    assert_eq!(settled, Settings { theme: Theme::Light, auto_update: false, autostart: false });
    assert!(save);
}

#[test]
fn migration_happens_only_once() {
    let (settled, save) = parse_settings_text("").settle(false);
    assert!(save);
    let reloaded = parse_settings_text(&settings_text(settled));
    assert!(!reloaded.needs_autostart_migration());
    assert_eq!(reloaded.settings, settled);
    let (again, save_again) = reloaded.settle(false);
    assert_eq!(again, settled);
    assert!(!save_again);
}

#[test]
fn settings_lines_are_trimmed_and_unknown_lines_ignored() {
    let loaded = parse_settings_text("garbage\n theme = LIGHT \r\nautostart=no\nunknown=1");
    assert_eq!(loaded.settings.theme, Theme::Light);
    assert!(loaded.settings.auto_update);
    assert!(!loaded.settings.autostart);
    assert!(loaded.saw_autostart_key);
    assert!(!loaded.needs_autostart_migration());
    let (settled, save) = loaded.settle(true);
    assert!(settled.autostart);
    assert!(!save);
}

#[test]
fn empty_settings_file_gives_defaults() {
    let loaded = parse_settings_text("");
    assert_eq!(loaded.settings, Settings::default());
    assert!(!loaded.saw_autostart_key);
}

#[test]
fn settings_mutations() {
    let mut s = Settings::default();
    assert_eq!(toggle_theme(&mut s), Theme::Light);
    assert_eq!(get(&s).theme, Theme::Light);
    set_auto_update(&mut s, false);
    assert!(!s.auto_update);
    assert!(!set_autostart(&mut s, false, false));
    assert!(s.autostart);
    assert!(set_autostart(&mut s, false, true));
    assert!(!s.autostart);
}

#[test]
fn registry_actions() {
    assert_eq!(autostart_registry_action(true, false), RegistryAction::Add);
    assert_eq!(autostart_registry_action(true, true), RegistryAction::Add);
    assert_eq!(autostart_registry_action(false, true), RegistryAction::Delete);
    assert_eq!(autostart_registry_action(false, false), RegistryAction::AlreadyDone);
}

#[test]
fn rgb_packs_low_byte_red() {
    assert_eq!(rgb(1, 2, 3), 0x030201);
    assert_eq!(rgb(255, 0, 0), 0xff);
    assert_eq!(rgb(0, 0, 255), 0xff0000);
}

#[test]
fn palettes_match_design_system() {
    let dark = Palette::from_theme(Theme::Dark);
    assert_eq!(dark.background, 30 + 31 * 256 + 33 * 65536);
    assert_eq!(dark.accent, rgb(248, 211, 88));
    let light = Palette::current(&Settings { theme: Theme::Light, auto_update: true, autostart: true });
    assert_eq!(light.surface, rgb(250, 250, 250));
    assert_eq!(light.danger, rgb(206, 49, 49));
    assert_ne!(dark, light);
}
