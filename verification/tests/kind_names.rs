use pager_theme::ghostty::theme_from_ghostty;
use pager_theme::theme::{BuiltinThemes, Theme};
use pager_theme::catalog::{GhosttyCatalog, GhosttyScheme};
use pager_theme::kind::{catalog_config_slug, catalog_names_valid, colliding_catalog, concrete_theme_kinds, is_colliding_catalog_slug, ThemeKind};

fn scheme(slug: &str, display: &str, background: (u8, u8, u8)) -> GhosttyScheme {
    let fg = if background.0 as u32 + background.1 as u32 + background.2 as u32 > 384 {
        (40, 40, 40)
    } else {
        (230, 230, 230)
    };
    let mut palette = [(0u8, 0u8, 0u8); 16];
    for (i, slot) in palette.iter_mut().enumerate() {
        let v = (i as u8) * 15;
        *slot = (v, 255 - v, v / 2 + 60);
    }
    GhosttyScheme {
        slug: slug.to_string(),
        display: display.to_string(),
        background,
        foreground: fg,
        cursor: (200, 100, 50),
        selection_background: (68, 71, 90),
        selection_foreground: (255, 255, 255),
        palette,
    }
}

/// A catalog of real scheme names (including the slugs that collide with
/// first-class names) padded with numbered schemes to catalog size.
fn catalog() -> GhosttyCatalog {
    let mut schemes = vec![
        scheme("3024-day", "3024 Day", (247, 247, 247)),
        scheme("dark", "Dark+", (30, 30, 30)),
        scheme("dracula", "Dracula", (40, 42, 54)),
        scheme("github-light-default", "GitHub Light Default", (255, 255, 255)),
        scheme("rose-pine", "Rose Pine", (25, 23, 36)),
        scheme("rose-pine-moon", "Rose Pine Moon", (35, 33, 54)),
        scheme("solarized-light", "Solarized Light", (253, 246, 227)),
        scheme("tokyonight", "TokyoNight", (26, 27, 38)),
    ];
    for i in 0..580u32 {
        let v = (i % 256) as u8;
        schemes.push(scheme(&format!("numbered-{i}"), &format!("Numbered {i}"), (v, v / 2, 255 - v)));
    }
    GhosttyCatalog::new(schemes).expect("catalog fits u16 indices")
}

#[test]
fn catalog_is_non_empty_and_indexed() {
    let cat = catalog();
    assert!(cat.len() > 500);
    assert!(cat.len() <= u16::MAX as usize);
}

#[test]
fn from_name_auto() {
    let cat = catalog();
    assert_eq!(ThemeKind::from_name(&cat, "auto"), Some(ThemeKind::Auto));
}

#[test]
fn from_name_system() {
    let cat = catalog();
    assert_eq!(ThemeKind::from_name(&cat, "system"), Some(ThemeKind::Auto));
}

#[test]
fn from_name_auto_case_insensitive() {
    let cat = catalog();
    assert_eq!(ThemeKind::from_name(&cat, "AUTO"), Some(ThemeKind::Auto));
    assert_eq!(ThemeKind::from_name(&cat, "Auto"), Some(ThemeKind::Auto));
    assert_eq!(ThemeKind::from_name(&cat, "SYSTEM"), Some(ThemeKind::Auto));
}

#[test]
fn display_name_auto() {
    let cat = catalog();
    assert_eq!(ThemeKind::Auto.display_name(&cat), "auto");
}

#[test]
fn is_auto_returns_true_for_auto() {
    assert!(ThemeKind::Auto.is_auto());
}

#[test]
fn is_auto_returns_false_for_concrete_variants() {
    assert!(!ThemeKind::GrokNight.is_auto());
    assert!(!ThemeKind::GrokDay.is_auto());
    assert!(!ThemeKind::TokyoNight.is_auto());
    assert!(!ThemeKind::RosePineMoon.is_auto());
    assert!(!ThemeKind::OscuraMidnight.is_auto());
    assert!(!ThemeKind::Sakura.is_auto());
    assert!(!ThemeKind::Aurora.is_auto());
}

#[test]
fn all_excludes_auto() {
    assert!(!ThemeKind::all().contains(&ThemeKind::Auto));
}

#[test]
fn available_excludes_auto() {
    let cat = catalog();
    assert!(!ThemeKind::available(&cat, true).contains(&ThemeKind::Auto));
    assert!(!ThemeKind::available(&cat, false).contains(&ThemeKind::Auto));
}

#[test]
fn auto_does_not_require_truecolor() {
    assert!(!ThemeKind::Auto.requires_truecolor());
}

#[test]
fn from_name_concrete_variants_still_work() {
    let cat = catalog();
    assert_eq!(ThemeKind::from_name(&cat, "groknight"), Some(ThemeKind::GrokNight));
    assert_eq!(ThemeKind::from_name(&cat, "dark"), Some(ThemeKind::GrokNight));
    assert_eq!(ThemeKind::from_name(&cat, "grokday"), Some(ThemeKind::GrokDay));
    assert_eq!(ThemeKind::from_name(&cat, "light"), Some(ThemeKind::GrokDay));
    assert_eq!(ThemeKind::from_name(&cat, "tokyonight"), Some(ThemeKind::TokyoNight));
    assert_eq!(ThemeKind::from_name(&cat, "rosepine"), Some(ThemeKind::RosePineMoon));
    assert_eq!(ThemeKind::from_name(&cat, "oscura"), Some(ThemeKind::OscuraMidnight));
    assert_eq!(ThemeKind::from_name(&cat, "oscura-midnight"), Some(ThemeKind::OscuraMidnight));
    assert_eq!(ThemeKind::from_name(&cat, "sakura"), Some(ThemeKind::Sakura));
    assert_eq!(ThemeKind::from_name(&cat, "cherry"), Some(ThemeKind::Sakura));
    assert_eq!(ThemeKind::from_name(&cat, "aurora"), Some(ThemeKind::Aurora));
}

#[test]
fn from_str_matches_from_name_for_all_canonicals() {
    let cat = catalog();
    let cases = [
        ("auto", ThemeKind::Auto),
        ("system", ThemeKind::Auto),
        ("groknight", ThemeKind::GrokNight),
        ("grok-night", ThemeKind::GrokNight),
        ("dark", ThemeKind::GrokNight),
        ("tokyonight", ThemeKind::TokyoNight),
        ("tokyo-night", ThemeKind::TokyoNight),
        ("tokyo", ThemeKind::TokyoNight),
        ("grokday", ThemeKind::GrokDay),
        ("grok-day", ThemeKind::GrokDay),
        ("light", ThemeKind::GrokDay),
        ("day", ThemeKind::GrokDay),
        ("rosepine", ThemeKind::RosePineMoon),
        ("rose-pine", ThemeKind::RosePineMoon),
        ("rosepine-moon", ThemeKind::RosePineMoon),
        ("rose-pine-moon", ThemeKind::RosePineMoon),
        ("oscura", ThemeKind::OscuraMidnight),
        ("oscura-midnight", ThemeKind::OscuraMidnight),
        ("sakura", ThemeKind::Sakura),
        ("cherry", ThemeKind::Sakura),
        ("cherry-blossom", ThemeKind::Sakura),
        ("aurora", ThemeKind::Aurora),
        ("northern-lights", ThemeKind::Aurora),
    ];
    for (name, expected) in cases {
        assert_eq!(
            ThemeKind::from_str(&cat, name),
            Ok(expected),
            "name `{name}` must parse to {expected:?}",
        );
        assert_eq!(
            ThemeKind::from_str(&cat, &name.to_uppercase()),
            Ok(expected),
            "name `{name}` (upper) must parse to {expected:?}",
        );
    }
    assert_eq!(ThemeKind::from_str(&cat, "nonexistent"), Err(()));
    assert_eq!(ThemeKind::from_str(&cat, ""), Err(()));
}

#[test]
fn ghostty_catalog_from_name_and_encode_roundtrip() {
    let cat = catalog();
    let dracula = ThemeKind::from_name(&cat, "dracula").expect("dracula in catalog");
    assert!(matches!(dracula, ThemeKind::Ghostty(_)));
    assert_eq!(dracula.display_name(&cat), "dracula");
    assert_eq!(ThemeKind::decode(&cat, dracula.encode()), dracula);

    // Sakura / Aurora are first-class only (not duplicated in the catalog).
    assert_eq!(ThemeKind::from_name(&cat, "sakura"), Some(ThemeKind::Sakura));
    assert_eq!(ThemeKind::from_name(&cat, "aurora"), Some(ThemeKind::Aurora));
    assert!(cat.scheme_by_slug("sakura").is_none());
    assert!(cat.scheme_by_slug("aurora").is_none());

    let all = ThemeKind::all();
    let avail = ThemeKind::available(&cat, true);
    assert!(avail.len() > 500);
    assert_eq!(&avail[..all.len()], all.as_slice());
    assert_eq!(avail.len(), all.len() + ThemeKind::catalog_picker_count(&cat));
    assert_eq!(ThemeKind::catalog_picker_count(&cat), cat.len());

    assert_eq!(ThemeKind::GrokNight.encode(), 0);
    assert_eq!(ThemeKind::Aurora.encode(), 7);
    if let ThemeKind::Ghostty(i) = dracula {
        assert_eq!(dracula.encode(), 0x8000_0000 | u32::from(i));
    }

    // Settings rows: auto + same concrete set as available (on truecolor).
    let rows = ThemeKind::settings_theme_rows(&cat);
    assert_eq!(rows[0].canonical, "auto");
    assert_eq!(ThemeKind::settings_concrete_theme_rows(&cat).len(), rows.len() - 1);
    assert_eq!(ThemeKind::settings_concrete_theme_rows(&cat)[0].canonical, "groknight");
}

#[test]
fn settings_rows_match_kind_labels() {
    let cat = catalog();
    for row in ThemeKind::settings_concrete_theme_rows(&cat) {
        let kind = ThemeKind::from_name(&cat, row.canonical).expect(row.canonical);
        assert_eq!(kind.display_name(&cat), row.canonical);
        assert_eq!(kind.label(&cat), row.display);
    }
}

#[test]
fn colliding_catalog_slugs_use_ghostty_prefix() {
    let cat = catalog();
    // First-class aliases keep priority.
    assert_eq!(ThemeKind::from_name(&cat, "dark"), Some(ThemeKind::GrokNight));
    assert_eq!(ThemeKind::from_name(&cat, "tokyonight"), Some(ThemeKind::TokyoNight));
    // Every collision table entry round-trips through from_name / display_name.
    for (slug, config) in colliding_catalog() {
        let kind = ThemeKind::from_name(&cat, config).unwrap_or_else(|| panic!("{config}"));
        assert!(matches!(kind, ThemeKind::Ghostty(_)), "{config}");
        assert_eq!(kind.display_name(&cat), config);
        let (i, scheme) = cat.scheme_by_slug(slug).expect(slug);
        assert_eq!(kind, ThemeKind::Ghostty(i));
        assert_eq!(catalog_config_slug(scheme), config);
    }
    assert_eq!(
        ThemeKind::from_name(&cat, "ghostty-dark").map(|k| k.label(&cat)),
        Some("Dark+")
    );
}

#[test]
fn catalog_slugs_colliding_with_first_class_are_declared() {
    let cat = catalog();
    for idx in 0..cat.len() {
        let scheme = cat.get(idx).unwrap();
        let Some(kind) = ThemeKind::from_name(&cat, &scheme.slug) else {
            panic!("catalog slug `{}` is unreachable via from_name", scheme.slug);
        };
        match kind {
            ThemeKind::Ghostty(i) => {
                assert_eq!(
                    cat.get(i as usize).unwrap().slug,
                    scheme.slug,
                    "slug `{}` must map to its own index",
                    scheme.slug
                );
            }
            other => {
                assert!(
                    is_colliding_catalog_slug(&scheme.slug),
                    "catalog slug `{}` resolves to first-class {other:?}",
                    scheme.slug
                );
                let config = catalog_config_slug(scheme);
                let via_config = ThemeKind::from_name(&cat, config)
                    .unwrap_or_else(|| panic!("config key `{config}` must resolve"));
                assert!(
                    matches!(via_config, ThemeKind::Ghostty(_)),
                    "{config} should select the catalog scheme"
                );
            }
        }
    }
}

#[test]
fn concrete_kinds_match_available_on_truecolor() {
    let cat = catalog();
    let kinds = concrete_theme_kinds(&cat);
    assert_eq!(kinds.as_slice(), ThemeKind::available(&cat, true).as_slice());
    assert_eq!(ThemeKind::settings_concrete_theme_rows(&cat).len(), kinds.len());
}

#[test]
fn decode_of_unknown_codes_falls_back_to_grok_night() {
    let cat = catalog();
    assert_eq!(ThemeKind::decode(&cat, 8), ThemeKind::GrokNight);
    assert_eq!(ThemeKind::decode(&cat, 0x8000_FFFF), ThemeKind::GrokNight);
    assert_eq!(ThemeKind::decode(&cat, 4), ThemeKind::Auto);
    assert_eq!(ThemeKind::decode(&cat, 0x8000_0002), ThemeKind::Ghostty(2));
    assert_eq!(ThemeKind::from_catalog_index(&cat, 60000), ThemeKind::GrokNight);
}

#[test]
fn every_kind_round_trips_through_encode() {
    let cat = catalog();
    for kind in ThemeKind::available(&cat, true) {
        assert_eq!(ThemeKind::decode(&cat, kind.encode()), kind);
    }
    assert_eq!(ThemeKind::decode(&cat, ThemeKind::Auto.encode()), ThemeKind::Auto);
}

#[test]
fn display_name_lookup_and_labels() {
    let cat = catalog();
    assert_eq!(ThemeKind::from_name(&cat, "Dracula"), Some(ThemeKind::Ghostty(2)));
    assert_eq!(ThemeKind::from_name(&cat, "DRACULA"), Some(ThemeKind::Ghostty(2)));
    assert_eq!(ThemeKind::from_name(&cat, "Dark+"), Some(ThemeKind::Ghostty(1)));
    assert_eq!(ThemeKind::Ghostty(1).display_name(&cat), "ghostty-dark");
    assert_eq!(ThemeKind::Ghostty(2).label(&cat), "Dracula");
    assert_eq!(ThemeKind::Ghostty(9999).display_name(&cat), "groknight");
    assert_eq!(ThemeKind::Ghostty(9999).label(&cat), "Grok Night");
    assert_eq!(ThemeKind::RosePineMoon.label(&cat), "Rose Pine Moon");
    assert_eq!(
        ThemeKind::Ghostty(2).description(),
        "Ghostty terminal color scheme; needs truecolor."
    );
    assert!(ThemeKind::Ghostty(2).requires_truecolor());
    assert!(!ThemeKind::GrokDay.requires_truecolor());
    assert_eq!(ThemeKind::available(&cat, false), vec![ThemeKind::GrokNight, ThemeKind::GrokDay]);
}

#[test]
fn catalog_names_valid_accepts_the_fixture_catalog() {
    let cat = catalog();
    assert!(catalog_names_valid(&cat));
    assert!(ThemeKind::catalog_picker_count(&cat) <= u16::MAX as usize);
}

#[test]
fn catalog_names_valid_rejects_broken_names() {
    let with = |slug: &str| {
        GhosttyCatalog::new(vec![scheme("dracula", "Dracula", (40, 42, 54)), scheme(slug, "Other", (1, 2, 3))])
            .expect("small catalog")
    };
    assert!(catalog_names_valid(&with("nord")));
    // repeated slug
    assert!(!catalog_names_valid(&with("dracula")));
    // uppercase slug
    assert!(!catalog_names_valid(&with("Nord")));
    // a first-class name that is not a declared colliding slug
    assert!(!catalog_names_valid(&with("sakura")));
    // a slug that is itself a ghostty- config key
    assert!(!catalog_names_valid(&with("ghostty-dark")));
}

/// Stand-ins for the built-in palettes, expanded from schemes with the
/// designed canvas polarities (Grok Day light, the others dark).
fn builtins() -> BuiltinThemes {
    BuiltinThemes {
        groknight: theme_from_ghostty(&scheme("groknight", "Grok Night", (20, 20, 24))),
        grokday: theme_from_ghostty(&scheme("grokday", "Grok Day", (250, 250, 250))),
        tokyonight: theme_from_ghostty(&scheme("tokyonight", "Tokyo Night", (26, 27, 38))),
        rosepine_moon: theme_from_ghostty(&scheme("rosepine-moon", "Rose Pine Moon", (35, 33, 54))),
        oscura_midnight: theme_from_ghostty(&scheme("oscura-midnight", "Oscura Midnight", (11, 11, 15))),
    }
}

#[test]
fn is_dark_classifies_built_in_themes() {
    let cat = catalog();
    let b = builtins();
    assert!(b.polarities_ok());
    assert!(b.groknight.is_dark());
    assert!(b.tokyonight.is_dark());
    assert!(b.rosepine_moon.is_dark());
    assert!(b.oscura_midnight.is_dark());
    assert!(Theme::sakura().is_dark());
    assert!(Theme::aurora().is_dark());
    assert!(!b.grokday.is_dark());
    for kind in ThemeKind::all() {
        assert_eq!(kind.is_dark(&cat, &b), kind.to_theme(&cat, &b).is_dark(), "{kind:?}");
    }
    assert!(ThemeKind::Auto.is_dark(&cat, &b));
    if let Some(kind) = ThemeKind::from_name(&cat, "dracula") {
        assert!(kind.is_dark(&cat, &b));
        assert_eq!(kind.is_dark(&cat, &b), kind.to_theme(&cat, &b).is_dark());
    }
    if let Some(kind) = ThemeKind::from_name(&cat, "github-light-default") {
        assert!(!kind.is_dark(&cat, &b));
        assert_eq!(kind.is_dark(&cat, &b), kind.to_theme(&cat, &b).is_dark());
    }
}
