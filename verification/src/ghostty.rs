//! Expansion of a Ghostty / iTerm2 terminal scheme into a full pager palette.
//!
//! A terminal scheme defines only canvas / text / cursor / selection and the
//! sixteen ANSI slots; the elevated surfaces, hover band and scrollbar are
//! stepped off the canvas so panels and chrome stay legible.

use vstd::prelude::*;
use crate::color::{Color, Modifier, Rgb, rgb, color_rgb, BOLD_BITS, ITALIC_BITS};
use crate::polarity::{classify_is_dark, is_dark_rgb, lemma_dark_sum_bound, lemma_light_sum_bound};
use crate::catalog::{GhosttyCatalog, GhosttyScheme};
use crate::theme::{Theme, BuiltinThemes, theme_is_dark};

verus! {

/// One channel stepped by `amount` and clamped to 0..=255.
pub open spec fn nudge_channel(v: u8, amount: int) -> u8 {
    if v + amount < 0 {
        0
    } else if v + amount > 255 {
        255
    } else {
        (v + amount) as u8
    }
}

/// A color stepped by `amount` on every channel (positive = toward white).
pub open spec fn spec_nudge(c: Rgb, amount: int) -> Rgb {
    (nudge_channel(c.0, amount), nudge_channel(c.1, amount), nudge_channel(c.2, amount))
}

/// Lighten or darken an RGB triple by `amount` (positive = toward white).
/// Each channel plus `amount` must fit in an `i16`.
pub fn nudge(c: Rgb, amount: i16) -> (r: Rgb)
    requires
        c.0 + amount <= i16::MAX,
        c.1 + amount <= i16::MAX,
        c.2 + amount <= i16::MAX,
    ensures
        r == spec_nudge(c, amount as int),
{
    let n0 = clamp_channel(c.0 as i16 + amount);
    let n1 = clamp_channel(c.1 as i16 + amount);
    let n2 = clamp_channel(c.2 as i16 + amount);
    (n0, n1, n2)
}

fn clamp_channel(v: i16) -> (r: u8)
    ensures
        r == (if v < 0 { 0 } else if v > 255 { 255 } else { v as u8 }),
{
    if v < 0 {
        0
    } else if v > 255 {
        255
    } else {
        v as u8
    }
}

/// BT.709 integer luminance on the raw (gamma-encoded) channels, used to
/// rank text colors by brightness.
pub open spec fn spec_lum(c: Rgb) -> int {
    (c.0 * 2126 + c.1 * 7152 + c.2 * 722) / 10000
}

/// Integer luminance of a color (0..=255).
pub fn lum(c: Rgb) -> (l: u32)
    ensures
        l == spec_lum(c),
{
    (c.0 as u32 * 2126 + c.1 as u32 * 7152 + c.2 as u32 * 722) / 10000
}

/// Whether a background classifies as dark (the polarity [`Theme::is_dark`]
/// uses for a canvas).
pub fn is_dark_bg(bg: Rgb) -> (d: bool)
    ensures
        d == is_dark_rgb(bg),
{
    classify_is_dark(bg)
}

/// Sum of the three channels.
pub open spec fn rgb_sum(c: Rgb) -> int {
    c.0 + c.1 + c.2
}

/// Whether `thumb` is at least `min_delta` (summed RGB) away from `track`
/// in the direction of the polarity: lighter on dark, darker on light.
pub open spec fn contrast_ok(track: Rgb, thumb: Rgb, dark: bool, min_delta: int) -> bool {
    if dark {
        rgb_sum(thumb) - rgb_sum(track) >= min_delta
    } else {
        rgb_sum(thumb) - rgb_sum(track) <= -min_delta
    }
}

/// A color nudged `k` times by `amount`.
pub open spec fn spec_nudge_n(c: Rgb, amount: int, k: nat) -> Rgb
    decreases k,
{
    if k == 0 {
        c
    } else {
        spec_nudge(spec_nudge_n(c, amount, (k - 1) as nat), amount)
    }
}

/// Thumb chosen by the search from step `k` on: the first of the nudged
/// thumbs `k..=8` that contrasts, else pure white (dark) / black (light).
pub open spec fn contrast_search(track: Rgb, thumb: Rgb, dark: bool, min_delta: int, k: nat) -> Rgb
    decreases 9 - k,
{
    if k > 8 {
        if dark { (255u8, 255u8, 255u8) } else { (0u8, 0u8, 0u8) }
    } else {
        let t = spec_nudge_n(thumb, if dark { min_delta } else { -min_delta }, k);
        if contrast_ok(track, t, dark, min_delta) {
            t
        } else {
            contrast_search(track, thumb, dark, min_delta, k + 1)
        }
    }
}

/// Scrollbar (track, thumb) after enforcing contrast: the given thumb when it
/// already contrasts, else the first of up to eight nudges of it away from
/// the canvas that does, else pure white / black. The track is kept.
pub open spec fn spec_ensure_scrollbar_contrast(track: Rgb, thumb: Rgb, dark: bool, min_delta: int) -> (Rgb, Rgb) {
    if contrast_ok(track, thumb, dark, min_delta) {
        (track, thumb)
    } else {
        (track, contrast_search(track, thumb, dark, min_delta, 1))
    }
}

/// Ensure scrollbar thumb/track differ by at least `min_delta` summed RGB in
/// the polarity's direction (thumb lighter on dark, darker on light).
pub fn ensure_scrollbar_contrast(track: Rgb, thumb: Rgb, dark: bool, min_delta: i16) -> (r: (Rgb, Rgb))
    requires
        dark ==> min_delta <= 32512,
    ensures
        r == spec_ensure_scrollbar_contrast(track, thumb, dark, min_delta as int),
{
    let delta: i32 = sum_channels(thumb) - sum_channels(track);
    let ok = if dark {
        delta >= min_delta as i32
    } else {
        delta <= -(min_delta as i32)
    };
    if ok {
        return (track, thumb);
    }
    assert(-765 < min_delta) by {
        assert(0 <= rgb_sum(thumb) <= 765 && 0 <= rgb_sum(track) <= 765);
    }
    let step: i16 = if dark { min_delta } else { -min_delta };
    let mut t = thumb;
    let mut k: u32 = 0;
    while k < 8
        invariant
            k <= 8,
            !contrast_ok(track, thumb, dark, min_delta as int),
            step == (if dark { min_delta as int } else { -min_delta }),
            step <= 32512,
            -32767 <= step,
            t == spec_nudge_n(thumb, step as int, k as nat),
            contrast_search(track, thumb, dark, min_delta as int, 1)
                == contrast_search(track, thumb, dark, min_delta as int, (k + 1) as nat),
        decreases 8 - k,
    {
        t = nudge(t, step);
        k = k + 1;
        let d: i32 = sum_channels(t) - sum_channels(track);
        proof {
            reveal_with_fuel(contrast_search, 2);
            assert(t == spec_nudge_n(thumb, if dark { min_delta as int } else { -min_delta }, k as nat));
        }
        if dark && d >= min_delta as i32 {
            assert(contrast_ok(track, t, dark, min_delta as int));
            assert(contrast_search(track, thumb, dark, min_delta as int, k as nat) == t);
            return (track, t);
        }
        if !dark && d <= -(min_delta as i32) {
            assert(contrast_ok(track, t, dark, min_delta as int));
            assert(contrast_search(track, thumb, dark, min_delta as int, k as nat) == t);
            return (track, t);
        }
        assert(!contrast_ok(track, t, dark, min_delta as int));
    }
    if dark {
        (track, (255, 255, 255))
    } else {
        (track, (0, 0, 0))
    }
}

fn sum_channels(c: Rgb) -> (s: i32)
    ensures
        s == rgb_sum(c),
{
    c.0 as i32 + c.1 as i32 + c.2 as i32
}

/// With room for a contrasting thumb between the track and pure white (dark)
/// or pure black (light), the enforced scrollbar contrasts.
pub proof fn lemma_scrollbar_contrast_holds(track: Rgb, thumb: Rgb, dark: bool, min_delta: int)
    requires
        dark ==> rgb_sum(track) + min_delta <= 765,
        !dark ==> rgb_sum(track) - min_delta >= 0,
    ensures
        spec_ensure_scrollbar_contrast(track, thumb, dark, min_delta).0 == track,
        contrast_ok(track, spec_ensure_scrollbar_contrast(track, thumb, dark, min_delta).1, dark, min_delta),
{
    if !contrast_ok(track, thumb, dark, min_delta) {
        lemma_contrast_search_ok(track, thumb, dark, min_delta, 1);
    }
}

proof fn lemma_contrast_search_ok(track: Rgb, thumb: Rgb, dark: bool, min_delta: int, k: nat)
    requires
        dark ==> rgb_sum(track) + min_delta <= 765,
        !dark ==> rgb_sum(track) - min_delta >= 0,
    ensures
        contrast_ok(track, contrast_search(track, thumb, dark, min_delta, k), dark, min_delta),
    decreases 9 - k,
{
    if k <= 8 {
        lemma_contrast_search_ok(track, thumb, dark, min_delta, k + 1);
    }
}

/// Role colors a scheme resolves to before they are spread over the palette.
pub struct GhosttyRoles {
    pub bg: Rgb,
    pub surface: Rgb,
    pub elevated: Rgb,
    pub hover: Rgb,
    pub scroll_track: Rgb,
    pub scroll_thumb: Rgb,
    pub cur: Rgb,
    pub sel_bg: Rgb,
    pub sel_fg: Rgb,
    pub text_primary: Rgb,
    pub text_secondary: Rgb,
    pub gray_dim: Rgb,
    pub gray: Rgb,
    pub gray_bright: Rgb,
    pub blue: Rgb,
    pub magenta: Rgb,
    pub cyan: Rgb,
    pub green: Rgb,
    pub yellow: Rgb,
    pub bright_red: Rgb,
    pub bright_green: Rgb,
    pub bright_yellow: Rgb,
    pub bright_blue: Rgb,
    pub bright_magenta: Rgb,
    pub bright_cyan: Rgb,
    pub diff_delete_bg: Rgb,
    pub diff_insert_bg: Rgb,
    pub link: Rgb,
}

/// The role colors of a scheme.
pub open spec fn ghostty_roles(s: GhosttyScheme) -> GhosttyRoles {
    let bg = s.background;
    let fg = s.foreground;
    let p = s.palette;
    let dark = is_dark_rgb(bg);
    let surface = if dark { spec_nudge(bg, 12) } else { spec_nudge(bg, -10) };
    let elevated = if dark { spec_nudge(bg, 24) } else { spec_nudge(bg, -20) };
    let hover = if dark { spec_nudge(bg, 36) } else { spec_nudge(bg, -32) };
    let chrome_hi = if dark { spec_nudge(bg, 56) } else { spec_nudge(bg, -48) };
    let track = if dark { surface } else { elevated };
    let scroll = spec_ensure_scrollbar_contrast(track, chrome_hi, dark, 30);
    let text_primary = if dark {
        if spec_lum(p[15]) > spec_lum(fg) {
            p[15]
        } else if spec_lum(p[7]) > spec_lum(fg) {
            p[7]
        } else {
            fg
        }
    } else {
        fg
    };
    GhosttyRoles {
        bg: bg,
        surface: surface,
        elevated: elevated,
        hover: hover,
        scroll_track: scroll.0,
        scroll_thumb: scroll.1,
        cur: s.cursor,
        sel_bg: s.selection_background,
        sel_fg: s.selection_foreground,
        text_primary: text_primary,
        text_secondary: if dark { fg } else { p[8] },
        gray_dim: p[8],
        gray: if dark { p[7] } else { p[8] },
        gray_bright: if dark { p[15] } else { p[0] },
        blue: p[4],
        magenta: p[5],
        cyan: p[6],
        green: p[2],
        yellow: p[3],
        bright_red: p[9],
        bright_green: p[10],
        bright_yellow: p[11],
        bright_blue: p[12],
        bright_magenta: p[13],
        bright_cyan: p[14],
        diff_delete_bg: if dark { spec_nudge(p[1], -80) } else { spec_nudge(p[1], 80) },
        diff_insert_bg: if dark { spec_nudge(p[2], -80) } else { spec_nudge(p[2], 80) },
        link: if dark { s.cursor } else { p[4] },
    }
}

/// The palette built from resolved role colors.
pub open spec fn roles_theme(r: GhosttyRoles) -> Theme {
    Theme {
        bg_base: Color::Rgb(r.bg.0, r.bg.1, r.bg.2),
        bg_light: Color::Rgb(r.elevated.0, r.elevated.1, r.elevated.2),
        bg_dark: Color::Rgb(r.surface.0, r.surface.1, r.surface.2),
        bg_highlight: Color::Rgb(r.elevated.0, r.elevated.1, r.elevated.2),
        bg_hover: Color::Rgb(r.hover.0, r.hover.1, r.hover.2),
        bg_terminal: Color::Rgb(r.bg.0, r.bg.1, r.bg.2),
        canvas: Color::Rgb(r.bg.0, r.bg.1, r.bg.2),
        accent_user: Color::Rgb(r.cur.0, r.cur.1, r.cur.2),
        accent_assistant: Color::Rgb(r.bright_magenta.0, r.bright_magenta.1, r.bright_magenta.2),
        accent_thinking: Color::Rgb(r.gray_dim.0, r.gray_dim.1, r.gray_dim.2),
        accent_tool: Color::Rgb(r.gray_dim.0, r.gray_dim.1, r.gray_dim.2),
        accent_system: Color::Rgb(r.blue.0, r.blue.1, r.blue.2),
        accent_error: Color::Rgb(r.bright_red.0, r.bright_red.1, r.bright_red.2),
        accent_success: Color::Rgb(r.bright_green.0, r.bright_green.1, r.bright_green.2),
        accent_running: Color::Rgb(r.bright_cyan.0, r.bright_cyan.1, r.bright_cyan.2),
        accent_skill: Color::Rgb(r.magenta.0, r.magenta.1, r.magenta.2),
        text_primary: Color::Rgb(r.text_primary.0, r.text_primary.1, r.text_primary.2),
        text_secondary: Color::Rgb(r.text_secondary.0, r.text_secondary.1, r.text_secondary.2),
        gray_dim: Color::Rgb(r.gray_dim.0, r.gray_dim.1, r.gray_dim.2),
        gray: Color::Rgb(r.gray.0, r.gray.1, r.gray.2),
        gray_bright: Color::Rgb(r.gray_bright.0, r.gray_bright.1, r.gray_bright.2),
        command: Color::Rgb(r.bright_yellow.0, r.bright_yellow.1, r.bright_yellow.2),
        path: Color::Rgb(r.yellow.0, r.yellow.1, r.yellow.2),
        running: Color::Rgb(r.cyan.0, r.cyan.1, r.cyan.2),
        warning: Color::Rgb(r.bright_yellow.0, r.bright_yellow.1, r.bright_yellow.2),
        fuzzy_accent: Color::Rgb(r.bright_blue.0, r.bright_blue.1, r.bright_blue.2),
        accent_plan: Color::Rgb(r.bright_yellow.0, r.bright_yellow.1, r.bright_yellow.2),
        accent_verify: Color::Rgb(r.bright_blue.0, r.bright_blue.1, r.bright_blue.2),
        accent_feedback: Color::Rgb(r.bright_cyan.0, r.bright_cyan.1, r.bright_cyan.2),
        accent_remember: Color::Rgb(r.green.0, r.green.1, r.green.2),
        selection_border: Color::Rgb(r.sel_fg.0, r.sel_fg.1, r.sel_fg.2),
        hover_border: Color::Rgb(r.hover.0, r.hover.1, r.hover.2),
        prompt_border: Color::Rgb(r.hover.0, r.hover.1, r.hover.2),
        prompt_border_active: Color::Rgb(r.sel_fg.0, r.sel_fg.1, r.sel_fg.2),
        accent_model: Color::Rgb(r.cyan.0, r.cyan.1, r.cyan.2),
        scrollbar_bg: Color::Rgb(r.scroll_track.0, r.scroll_track.1, r.scroll_track.2),
        scrollbar_fg: Color::Rgb(r.scroll_thumb.0, r.scroll_thumb.1, r.scroll_thumb.2),
        diff_delete_bg: Color::Rgb(r.diff_delete_bg.0, r.diff_delete_bg.1, r.diff_delete_bg.2),
        diff_delete_fg: Color::Rgb(r.bright_red.0, r.bright_red.1, r.bright_red.2),
        diff_insert_bg: Color::Rgb(r.diff_insert_bg.0, r.diff_insert_bg.1, r.diff_insert_bg.2),
        diff_insert_fg: Color::Rgb(r.bright_green.0, r.bright_green.1, r.bright_green.2),
        diff_equal_fg: Color::Rgb(r.gray_dim.0, r.gray_dim.1, r.gray_dim.2),
        diff_gutter_fg: Color::Rgb(r.gray_dim.0, r.gray_dim.1, r.gray_dim.2),
        bg_visual: Color::Rgb(r.sel_bg.0, r.sel_bg.1, r.sel_bg.2),
        paste_bg: Color::Rgb(r.surface.0, r.surface.1, r.surface.2),
        paste_fg: Color::Rgb(r.text_secondary.0, r.text_secondary.1, r.text_secondary.2),
        paste_dim: Color::Rgb(r.gray_dim.0, r.gray_dim.1, r.gray_dim.2),
        md_heading_h1: Color::Rgb(r.text_primary.0, r.text_primary.1, r.text_primary.2),
        md_heading_h1_mod: Modifier { bits: BOLD_BITS },
        md_heading_h2: Color::Rgb(r.bright_cyan.0, r.bright_cyan.1, r.bright_cyan.2),
        md_heading_h2_mod: Modifier { bits: BOLD_BITS },
        md_heading_h3: Color::Rgb(r.bright_magenta.0, r.bright_magenta.1, r.bright_magenta.2),
        md_heading_h3_mod: Modifier { bits: BOLD_BITS },
        md_heading_h4: Color::Rgb(r.bright_green.0, r.bright_green.1, r.bright_green.2),
        md_heading_h4_mod: Modifier { bits: BOLD_BITS | ITALIC_BITS },
        md_heading_h5: Color::Rgb(r.bright_yellow.0, r.bright_yellow.1, r.bright_yellow.2),
        md_heading_h5_mod: Modifier { bits: BOLD_BITS },
        md_heading_h6: Color::Rgb(r.blue.0, r.blue.1, r.blue.2),
        md_heading_h6_mod: Modifier { bits: BOLD_BITS },
        md_code: Color::Rgb(r.cyan.0, r.cyan.1, r.cyan.2),
        md_task_checked: Color::Rgb(r.bright_green.0, r.bright_green.1, r.bright_green.2),
        md_task_unchecked: Color::Rgb(r.gray.0, r.gray.1, r.gray.2),
        md_muted: Color::Rgb(r.gray_dim.0, r.gray_dim.1, r.gray_dim.2),
        md_code_bg: Color::Rgb(r.surface.0, r.surface.1, r.surface.2),
        md_text: Color::Rgb(r.text_primary.0, r.text_primary.1, r.text_primary.2),
        link_fg: Color::Rgb(r.link.0, r.link.1, r.link.2),
    }
}

/// The full pager palette of a scheme.
pub open spec fn spec_theme_from_ghostty(s: GhosttyScheme) -> Theme {
    roles_theme(ghostty_roles(s))
}

fn build_theme(r: &GhosttyRoles) -> (t: Theme)
    ensures
        t == roles_theme(*r),
{
    Theme {
        bg_base: rgb(r.bg),
        bg_light: rgb(r.elevated),
        bg_dark: rgb(r.surface),
        bg_highlight: rgb(r.elevated),
        bg_hover: rgb(r.hover),
        bg_terminal: rgb(r.bg),
        canvas: rgb(r.bg),
        accent_user: rgb(r.cur),
        accent_assistant: rgb(r.bright_magenta),
        accent_thinking: rgb(r.gray_dim),
        accent_tool: rgb(r.gray_dim),
        accent_system: rgb(r.blue),
        accent_error: rgb(r.bright_red),
        accent_success: rgb(r.bright_green),
        accent_running: rgb(r.bright_cyan),
        accent_skill: rgb(r.magenta),
        text_primary: rgb(r.text_primary),
        text_secondary: rgb(r.text_secondary),
        gray_dim: rgb(r.gray_dim),
        gray: rgb(r.gray),
        gray_bright: rgb(r.gray_bright),
        command: rgb(r.bright_yellow),
        path: rgb(r.yellow),
        running: rgb(r.cyan),
        warning: rgb(r.bright_yellow),
        fuzzy_accent: rgb(r.bright_blue),
        accent_plan: rgb(r.bright_yellow),
        accent_verify: rgb(r.bright_blue),
        accent_feedback: rgb(r.bright_cyan),
        accent_remember: rgb(r.green),
        selection_border: rgb(r.sel_fg),
        hover_border: rgb(r.hover),
        prompt_border: rgb(r.hover),
        prompt_border_active: rgb(r.sel_fg),
        accent_model: rgb(r.cyan),
        scrollbar_bg: rgb(r.scroll_track),
        scrollbar_fg: rgb(r.scroll_thumb),
        diff_delete_bg: rgb(r.diff_delete_bg),
        diff_delete_fg: rgb(r.bright_red),
        diff_insert_bg: rgb(r.diff_insert_bg),
        diff_insert_fg: rgb(r.bright_green),
        diff_equal_fg: rgb(r.gray_dim),
        diff_gutter_fg: rgb(r.gray_dim),
        bg_visual: rgb(r.sel_bg),
        paste_bg: rgb(r.surface),
        paste_fg: rgb(r.text_secondary),
        paste_dim: rgb(r.gray_dim),
        md_heading_h1: rgb(r.text_primary),
        md_heading_h1_mod: Modifier { bits: BOLD_BITS },
        md_heading_h2: rgb(r.bright_cyan),
        md_heading_h2_mod: Modifier { bits: BOLD_BITS },
        md_heading_h3: rgb(r.bright_magenta),
        md_heading_h3_mod: Modifier { bits: BOLD_BITS },
        md_heading_h4: rgb(r.bright_green),
        md_heading_h4_mod: Modifier { bits: BOLD_BITS | ITALIC_BITS },
        md_heading_h5: rgb(r.bright_yellow),
        md_heading_h5_mod: Modifier { bits: BOLD_BITS },
        md_heading_h6: rgb(r.blue),
        md_heading_h6_mod: Modifier { bits: BOLD_BITS },
        md_code: rgb(r.cyan),
        md_task_checked: rgb(r.bright_green),
        md_task_unchecked: rgb(r.gray),
        md_muted: rgb(r.gray_dim),
        md_code_bg: rgb(r.surface),
        md_text: rgb(r.text_primary),
        link_fg: rgb(r.link),
    }
}

/// Build a full pager palette from a Ghostty scheme.
pub fn theme_from_ghostty(scheme: &GhosttyScheme) -> (t: Theme)
    ensures
        t == spec_theme_from_ghostty(*scheme),
{
    let bg = scheme.background;
    let fg = scheme.foreground;
    let p = &scheme.palette;
    let dark = is_dark_bg(bg);
    let (surface, elevated, hover, chrome_hi) = if dark {
        (nudge(bg, 12), nudge(bg, 24), nudge(bg, 36), nudge(bg, 56))
    } else {
        (nudge(bg, -10), nudge(bg, -20), nudge(bg, -32), nudge(bg, -48))
    };
    let (scroll_track, scroll_thumb) = {
        let (track, thumb) = if dark {
            (surface, chrome_hi)
        } else {
            (elevated, chrome_hi)
        };
        ensure_scrollbar_contrast(track, thumb, dark, 30)
    };
    let black = p[0];
    let red = p[1];
    let green = p[2];
    let yellow = p[3];
    let blue = p[4];
    let magenta = p[5];
    let cyan = p[6];
    let white = p[7];
    let bright_black = p[8];
    let bright_red = p[9];
    let bright_green = p[10];
    let bright_yellow = p[11];
    let bright_blue = p[12];
    let bright_magenta = p[13];
    let bright_cyan = p[14];
    let bright_white = p[15];
    let (text_primary, text_secondary) = if dark {
        let body = if lum(bright_white) > lum(fg) {
            bright_white
        } else if lum(white) > lum(fg) {
            white
        } else {
            fg
        };
        (body, fg)
    } else {
        (fg, bright_black)
    };
    let gray_dim = bright_black;
    let gray = if dark { white } else { bright_black };
    let gray_bright = if dark { bright_white } else { black };
    let roles = GhosttyRoles {
        bg,
        surface,
        elevated,
        hover,
        scroll_track,
        scroll_thumb,
        cur: scheme.cursor,
        sel_bg: scheme.selection_background,
        sel_fg: scheme.selection_foreground,
        text_primary,
        text_secondary,
        gray_dim,
        gray,
        gray_bright,
        blue,
        magenta,
        cyan,
        green,
        yellow,
        bright_red,
        bright_green,
        bright_yellow,
        bright_blue,
        bright_magenta,
        bright_cyan,
        diff_delete_bg: if dark { nudge(red, -80) } else { nudge(red, 80) },
        diff_insert_bg: if dark { nudge(green, -80) } else { nudge(green, 80) },
        link: if dark { scheme.cursor } else { blue },
    };
    build_theme(&roles)
}

/// How a scheme's colors land in its palette, stated from the scheme: the
/// canvas, body and terminal are the background; the panel, raised and
/// hover surfaces step 12 / 24 / 36 toward white on a dark background and
/// 10 / 20 / 32 toward black on a light one; the deletion band is ANSI red
/// (slot 1) and the insertion band ANSI green (slot 2), both darkened by 80
/// on dark and lightened by 80 on light, with bright red / bright green as
/// their text and as the error / success accents; the cursor is the user
/// accent, the selection colors are the visual band and selection border;
/// secondary text is the foreground on dark and bright black on light; the
/// body text is the foreground on light, and on dark the first of bright
/// white, white and the foreground that is at least as bright as the
/// foreground (strictly brighter for the two whites); links follow the
/// cursor on dark and ANSI blue on light.
pub proof fn lemma_ghostty_roles_from_scheme(s: GhosttyScheme)
    ensures
        ({
            let t = spec_theme_from_ghostty(s);
            let bg = s.background;
            let fg = s.foreground;
            let p = s.palette;
            let dark = is_dark_rgb(bg);
            &&& color_rgb(t.canvas) == Some(bg)
            &&& color_rgb(t.bg_base) == Some(bg)
            &&& color_rgb(t.bg_terminal) == Some(bg)
            &&& color_rgb(t.bg_dark) == Some(spec_nudge(bg, if dark { 12 } else { -10 }))
            &&& color_rgb(t.bg_light) == Some(spec_nudge(bg, if dark { 24 } else { -20 }))
            &&& color_rgb(t.bg_hover) == Some(spec_nudge(bg, if dark { 36 } else { -32 }))
            &&& color_rgb(t.diff_delete_bg) == Some(spec_nudge(p[1], if dark { -80 } else { 80 }))
            &&& color_rgb(t.diff_insert_bg) == Some(spec_nudge(p[2], if dark { -80 } else { 80 }))
            &&& color_rgb(t.diff_delete_fg) == Some(p[9])
            &&& color_rgb(t.diff_insert_fg) == Some(p[10])
            &&& color_rgb(t.accent_error) == Some(p[9])
            &&& color_rgb(t.accent_success) == Some(p[10])
            &&& color_rgb(t.accent_user) == Some(s.cursor)
            &&& color_rgb(t.bg_visual) == Some(s.selection_background)
            &&& color_rgb(t.selection_border) == Some(s.selection_foreground)
            &&& color_rgb(t.text_secondary) == Some(if dark { fg } else { p[8] })
            &&& color_rgb(t.link_fg) == Some(if dark { s.cursor } else { p[4] })
            &&& (!dark ==> color_rgb(t.text_primary) == Some(fg))
            &&& (dark ==> {
                let body = color_rgb(t.text_primary).unwrap();
                &&& color_rgb(t.text_primary) is Some
                &&& (body == p[15] || body == p[7] || body == fg)
                &&& spec_lum(body) >= spec_lum(fg)
                &&& (spec_lum(p[15]) > spec_lum(fg) ==> body == p[15])
            })
            &&& t.md_text == t.text_primary
        }),
{
}

/// Whether the catalog entry at `index` has a dark canvas; an index outside
/// the catalog counts as dark.
pub open spec fn spec_catalog_index_is_dark(c: Seq<GhosttyScheme>, index: int) -> bool {
    if 0 <= index < c.len() {
        is_dark_rgb(c[index].background)
    } else {
        true
    }
}

/// Whether the catalog entry at `index` is a dark canvas (cheap polarity).
pub fn catalog_index_is_dark(catalog: &GhosttyCatalog, index: u16) -> (d: bool)
    ensures
        d == spec_catalog_index_is_dark(catalog@, index as int),
{
    match catalog.get(index as usize) {
        Some(s) => is_dark_bg(s.background),
        None => true,
    }
}

/// Palette of the catalog entry at `index`, or the Grok Night palette when
/// `index` is outside the catalog.
pub open spec fn spec_theme_from_ghostty_index(c: Seq<GhosttyScheme>, builtins: BuiltinThemes, index: int) -> Theme {
    if 0 <= index < c.len() {
        spec_theme_from_ghostty(c[index])
    } else {
        builtins.groknight
    }
}

/// Theme for a catalog index, or Grok Night if out of range.
pub fn theme_from_ghostty_index(catalog: &GhosttyCatalog, builtins: &BuiltinThemes, index: u16) -> (t: Theme)
    ensures
        t == spec_theme_from_ghostty_index(catalog@, *builtins, index as int),
{
    match catalog.get(index as usize) {
        Some(s) => theme_from_ghostty(s),
        None => builtins.groknight,
    }
}

/// Every scheme expands to a palette whose design canvas is its body paint
/// (the scheme background), whose polarity is the background's, and whose
/// scrollbar thumb is at least 30 (summed RGB) lighter than the track on a
/// dark palette and at least 30 darker on a light one.
pub proof fn lemma_every_scheme_has_scrollbar_contrast(s: GhosttyScheme)
    ensures
        ({
            let t = spec_theme_from_ghostty(s);
            &&& t.canvas == t.bg_base
            &&& color_rgb(t.canvas) == Some(s.background)
            &&& theme_is_dark(t) == is_dark_rgb(s.background)
            &&& color_rgb(t.scrollbar_bg) is Some
            &&& color_rgb(t.scrollbar_fg) is Some
            &&& contrast_ok(
                color_rgb(t.scrollbar_bg).unwrap(),
                color_rgb(t.scrollbar_fg).unwrap(),
                theme_is_dark(t),
                30,
            )
        }),
{
    let bg = s.background;
    let dark = is_dark_rgb(bg);
    let r = ghostty_roles(s);
    if dark {
        lemma_dark_sum_bound(bg);
        let track = spec_nudge(bg, 12);
        assert(rgb_sum(track) <= rgb_sum(bg) + 36);
        lemma_scrollbar_contrast_holds(track, spec_nudge(bg, 56), dark, 30);
    } else {
        lemma_light_sum_bound(bg);
        let track = spec_nudge(bg, -20);
        assert(rgb_sum(track) >= rgb_sum(bg) - 60);
        lemma_scrollbar_contrast_holds(track, spec_nudge(bg, -48), dark, 30);
    }
}

} // verus!
