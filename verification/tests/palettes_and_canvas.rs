use pager_theme::canvas::invert_cell;
use pager_theme::catalog::{GhosttyCatalog, GhosttyScheme};
use pager_theme::color::{Color, Modifier};
use pager_theme::ghostty::{ensure_scrollbar_contrast, lum, nudge, theme_from_ghostty};
use pager_theme::kind::ThemeKind;
use pager_theme::theme::{BuiltinThemes, Theme};

fn scheme(slug: &str, background: (u8, u8, u8)) -> GhosttyScheme {
    GhosttyScheme {
        slug: slug.to_string(),
        display: slug.to_string(),
        background,
        foreground: (220, 220, 220),
        cursor: (255, 100, 0),
        selection_background: (60, 60, 90),
        selection_foreground: (250, 250, 250),
        palette: [
            (0, 0, 0),
            (205, 49, 49),
            (13, 188, 121),
            (229, 229, 16),
            (36, 114, 200),
            (188, 63, 188),
            (17, 168, 205),
            (229, 229, 229),
            (102, 102, 102),
            (241, 76, 76),
            (35, 209, 139),
            (245, 245, 67),
            (59, 142, 234),
            (214, 112, 214),
            (41, 184, 219),
            (255, 255, 255),
        ],
    }
}

/// A light theme mapped from a white-canvas scheme.
fn light_theme() -> Theme {
    theme_from_ghostty(&scheme("paper", (255, 255, 255)))
}

/// A terminal-native theme: no design canvas, body paints `Reset`.
fn terminal_native() -> Theme {
    let mut t = Theme::sakura();
    t.canvas = Color::Reset;
    t.bg_base = Color::Reset;
    t
}

#[test]
fn aurora_matches_ghostty_scheme() {
    let theme = Theme::aurora();
    assert!(theme.is_dark(), "Ghostty Aurora is a dark scheme");
    assert_eq!(theme.bg_base, Color::Rgb(35, 38, 46)); // #23262e
    assert_eq!(theme.canvas, theme.bg_base);
    // Body cream; Ghostty amber kept as secondary identity.
    assert_eq!(theme.text_primary, Color::Rgb(255, 210, 156)); // #ffd29c
    assert_eq!(theme.text_secondary, Color::Rgb(255, 202, 40)); // #ffca28
    assert_ne!(theme.gray_dim, theme.gray, "gray ramp must be distinct");
    assert_eq!(theme.accent_user, Color::Rgb(238, 93, 67)); // #ee5d43
    assert_eq!(theme.running, Color::Rgb(3, 214, 184)); // #03d6b8
    assert_eq!(theme.accent_error, Color::Rgb(249, 38, 114)); // #f92672
    assert_eq!(theme.accent_success, Color::Rgb(143, 212, 109)); // #8fd46d
    assert_eq!(theme.accent_assistant, Color::Rgb(199, 77, 237)); // #c74ded
}

#[test]
fn sakura_matches_ghostty_scheme() {
    let theme = Theme::sakura();
    assert!(theme.is_dark());
    assert_eq!(theme.bg_base, Color::Rgb(24, 19, 30)); // #18131e
    assert_eq!(theme.canvas, theme.bg_base);
    assert_eq!(theme.text_secondary, Color::Rgb(221, 123, 220)); // #dd7bdc
    assert_eq!(theme.accent_user, Color::Rgb(255, 101, 253)); // #ff65fd
    assert_eq!(theme.selection_border, Color::Rgb(192, 92, 191)); // #c05cbf
    assert_eq!(theme.accent_error, Color::Rgb(244, 29, 153)); // #f41d99
    assert_eq!(theme.accent_success, Color::Rgb(34, 229, 41)); // #22e529
}

#[test]
fn sakura_and_aurora_are_first_class_not_catalog() {
    let cat = GhosttyCatalog::new(vec![scheme("dracula", (40, 42, 54))]).unwrap();
    assert!(cat.scheme_by_slug("sakura").is_none());
    assert!(cat.scheme_by_slug("aurora").is_none());
    let sakura = Theme::sakura();
    assert!(sakura.is_dark());
    assert_eq!(sakura.bg_base, Color::Rgb(24, 19, 30));
    let aurora = Theme::aurora();
    assert!(aurora.is_dark());
    assert_eq!(aurora.bg_base, Color::Rgb(35, 38, 46));
}

#[test]
fn transparent_elevated_clears_body_and_elevated_surfaces() {
    let solid = Theme::sakura();
    assert!(matches!(solid.bg_base, Color::Rgb(_, _, _)));
    assert!(matches!(solid.bg_light, Color::Rgb(_, _, _)));
    let see = solid.transparent_elevated();
    for (name, color) in [
        ("bg_base", see.bg_base),
        ("bg_light", see.bg_light),
        ("bg_terminal", see.bg_terminal),
        ("md_code_bg", see.md_code_bg),
        ("paste_bg", see.paste_bg),
        ("scrollbar_bg", see.scrollbar_bg),
    ] {
        assert_eq!(color, Color::Reset, "{name} must be transparent");
    }
    assert_eq!(see.bg_dark, solid.bg_dark);
    assert_eq!(see.bg_highlight, solid.bg_highlight);
    assert_eq!(see.bg_hover, solid.bg_hover);
    assert_eq!(see.bg_visual, solid.bg_visual);
    assert_eq!(see.text_primary, solid.text_primary);
    assert_eq!(see.accent_user, solid.accent_user);
    assert_eq!(see.design_canvas(), solid.bg_base);
    assert_eq!(see.canvas, solid.canvas);
    assert_eq!(see.invert_canvas(), Color::Black);
    assert_eq!(see.invert_ink(Color::Reset), Color::Black);
    assert_eq!(see.solid_paint(Color::Reset), see.design_canvas());
    assert_eq!(see.solid_paint(solid.bg_dark), solid.bg_dark);
    assert!(see.is_dark());
}

#[test]
fn design_canvas_and_ink_pass_through_solid_bg_base() {
    let solid = Theme::sakura();
    assert_eq!(solid.design_canvas(), solid.bg_base);
    assert_eq!(solid.canvas, solid.bg_base);
    assert_eq!(solid.invert_canvas(), solid.bg_base);
    assert_eq!(solid.solid_paint(solid.bg_base), solid.bg_base);
    assert_eq!(solid.invert_canvas(), solid.invert_ink(solid.bg_base));

    let light = light_theme().transparent_elevated();
    assert_eq!(light.design_canvas(), light_theme().bg_base);
    assert_eq!(light.invert_canvas(), Color::White);
    assert!(!light.is_dark());
    assert_eq!(light.solid_paint(light.bg_base), light.design_canvas());

    let term = terminal_native();
    assert_eq!(term.design_canvas(), Color::Reset);
    assert_eq!(term.canvas, Color::Reset);
    assert_eq!(term.invert_canvas(), Color::Reset);
    assert_eq!(term.invert_ink(Color::Reset), Color::Reset);
}

#[test]
fn invert_ink_distinguishes_transparent_from_terminal_native() {
    let dark = Theme::sakura().transparent_elevated();
    assert_ne!(dark.canvas, Color::Reset);
    assert_eq!(dark.bg_base, Color::Reset);
    assert_eq!(dark.invert_canvas(), Color::Black);
    assert_eq!(dark.invert_ink(Color::Reset), Color::Black);
    assert_eq!(dark.invert_ink(dark.bg_dark), dark.bg_dark);

    let light = light_theme().transparent_elevated();
    assert_eq!(light.invert_canvas(), Color::White);
    assert_eq!(light.invert_ink(Color::Reset), Color::White);

    let term = terminal_native();
    assert_eq!(term.canvas, Color::Reset);
    assert_eq!(term.invert_canvas(), Color::Reset);
    assert_eq!(term.invert_ink(Color::Reset), Color::Reset);

    let solid = Theme::aurora();
    assert_eq!(solid.invert_canvas(), solid.bg_base);
    assert_eq!(solid.invert_ink(Color::Reset), Color::Black);
}

#[test]
fn transparent_elevated_is_idempotent() {
    let once = Theme::sakura().transparent_elevated();
    let twice = once.transparent_elevated();
    assert_eq!(twice.design_canvas(), once.design_canvas());
    assert_eq!(twice.canvas, once.canvas);
    assert_eq!(twice.bg_base, Color::Reset);
    assert_eq!(twice, once);
}

#[test]
fn apply_paint_mode_honors_transparent_cache_flag() {
    let run = |transparent: bool| Theme::aurora().apply_paint_mode(transparent);
    let solid = run(false);
    assert!(!matches!(solid.bg_base, Color::Reset));
    assert_eq!(solid.canvas, solid.bg_base);
    let see = run(true);
    assert_eq!(see.bg_base, Color::Reset);
    assert_eq!(see.bg_light, Color::Reset);
    assert_eq!(see.canvas, solid.canvas);
    assert_eq!(see.design_canvas(), solid.bg_base);
    assert_eq!(see.bg_dark, solid.bg_dark);
    assert_eq!(see.bg_hover, solid.bg_hover);
    assert_eq!(see.invert_canvas(), Color::Black);
    let restored = run(false);
    assert_eq!(restored.bg_base, solid.bg_base);
    assert_eq!(restored.canvas, solid.canvas);
}

#[test]
fn invert_cell_uses_reverse_video_only_when_opaque() {
    let mut m = Modifier::underlined();
    invert_cell(&mut m, false);
    assert!(m.contains(Modifier::reversed()));
    assert!(m.contains(Modifier::underlined()));

    let mut m = Modifier::reversed();
    invert_cell(&mut m, true);
    assert!(!m.contains(Modifier::reversed()));
    assert!(m.contains(Modifier::bold().union(Modifier::italic())));
}

#[test]
fn every_scheme_builds_and_has_scrollbar_contrast() {
    let mut schemes = Vec::new();
    for r in (0..=255u32).step_by(51) {
        for g in (0..=255u32).step_by(51) {
            for b in (0..=255u32).step_by(85) {
                schemes.push(scheme("s", (r as u8, g as u8, b as u8)));
            }
        }
    }
    for (i, s) in schemes.iter().enumerate() {
        let t = theme_from_ghostty(s);
        assert_eq!(t.canvas, t.bg_base, "{} canvas", s.display);
        let sum = |c: Color| match c {
            Color::Rgb(r, g, b) => r as i32 + g as i32 + b as i32,
            _ => panic!("{} non-rgb scrollbar", s.display),
        };
        let delta = sum(t.scrollbar_fg) - sum(t.scrollbar_bg);
        if t.is_dark() {
            assert!(delta >= 30, "{} dark scrollbar Δ{delta} (idx {i})", s.display);
        } else {
            assert!(delta <= -30, "{} light scrollbar Δ{delta} (idx {i})", s.display);
        }
    }
}

#[test]
fn ghostty_mapping_exact_values() {
    let dark = theme_from_ghostty(&scheme("d", (40, 42, 54)));
    assert!(dark.is_dark());
    assert_eq!(dark.bg_dark, Color::Rgb(52, 54, 66));
    assert_eq!(dark.bg_light, Color::Rgb(64, 66, 78));
    assert_eq!(dark.bg_hover, Color::Rgb(76, 78, 90));
    assert_eq!(dark.scrollbar_bg, Color::Rgb(52, 54, 66));
    assert_eq!(dark.scrollbar_fg, Color::Rgb(96, 98, 110));
    // bright white beats the scheme fg for body text on dark canvases
    assert_eq!(dark.text_primary, Color::Rgb(255, 255, 255));
    assert_eq!(dark.text_secondary, Color::Rgb(220, 220, 220));
    assert_eq!(dark.link_fg, Color::Rgb(255, 100, 0));
    assert_eq!(dark.diff_delete_bg, Color::Rgb(125, 0, 0));

    let light = light_theme();
    assert!(!light.is_dark());
    assert_eq!(light.bg_dark, Color::Rgb(245, 245, 245));
    assert_eq!(light.scrollbar_bg, Color::Rgb(235, 235, 235));
    assert_eq!(light.scrollbar_fg, Color::Rgb(207, 207, 207));
    assert_eq!(light.text_primary, Color::Rgb(220, 220, 220));
    assert_eq!(light.text_secondary, Color::Rgb(102, 102, 102));
    assert_eq!(light.link_fg, Color::Rgb(36, 114, 200));
    assert_eq!(light.gray_bright, Color::Rgb(0, 0, 0));
}

#[test]
fn nudge_clamps_and_lum_ranks() {
    assert_eq!(nudge((250, 10, 100), 12), (255, 22, 112));
    assert_eq!(nudge((5, 200, 100), -10), (0, 190, 90));
    assert_eq!(lum((255, 255, 255)), 255);
    assert_eq!(lum((0, 0, 0)), 0);
    assert_eq!(lum((100, 0, 0)), 21);
}

#[test]
fn scrollbar_contrast_pushes_thumb_until_it_contrasts() {
    // Already contrasting: unchanged.
    assert_eq!(
        ensure_scrollbar_contrast((10, 10, 10), (40, 40, 40), true, 30),
        ((10, 10, 10), (40, 40, 40))
    );
    // Too close on a dark canvas: one nudge of +30 per channel.
    assert_eq!(
        ensure_scrollbar_contrast((10, 10, 10), (12, 12, 12), true, 30),
        ((10, 10, 10), (42, 42, 42))
    );
    // Light canvas pushes darker.
    assert_eq!(
        ensure_scrollbar_contrast((200, 200, 200), (199, 199, 199), false, 30),
        ((200, 200, 200), (169, 169, 169))
    );
    // No room left: falls back to pure white.
    assert_eq!(
        ensure_scrollbar_contrast((255, 255, 250), (255, 255, 255), true, 30),
        ((255, 255, 250), (255, 255, 255))
    );
}

#[test]
fn builtin_polarities_are_checked_and_drive_kind_polarity() {
    let dark = Theme::sakura();
    let light = light_theme();
    let builtins = BuiltinThemes {
        groknight: dark,
        grokday: light,
        tokyonight: Theme::aurora(),
        rosepine_moon: dark,
        oscura_midnight: dark,
    };
    assert!(builtins.polarities_ok());
    let cat = GhosttyCatalog::new(vec![scheme("paper", (255, 255, 255))]).expect("small catalog");
    assert!(ThemeKind::Auto.is_dark(&cat, &builtins));
    assert!(!ThemeKind::GrokDay.is_dark(&cat, &builtins));
    assert!(ThemeKind::Ghostty(7).is_dark(&cat, &builtins));
    assert!(!ThemeKind::Ghostty(0).is_dark(&cat, &builtins));
    let swapped = BuiltinThemes { groknight: light, grokday: dark, ..builtins };
    assert!(!swapped.polarities_ok());
}
