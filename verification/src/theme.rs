//! The pager palette: one color or modifier per UI role.

use vstd::prelude::*;
use crate::color::{Color, Modifier};
use crate::polarity::{classify_is_dark, is_dark_rgb};

verus! {

/// Colors (and heading modifiers) for every role the pager paints.
///
/// `bg_base` is the body paint; `canvas` is the solid design endpoint that
/// blend / dim / inverse-chip math uses even when the paint is `Reset`.
#[derive(Debug, Clone, Copy, PartialEq, Eq, Structural)]
pub struct Theme {
    pub bg_base: Color,
    pub bg_light: Color,
    pub bg_dark: Color,
    pub bg_highlight: Color,
    pub bg_hover: Color,
    pub bg_terminal: Color,
    pub canvas: Color,
    pub accent_user: Color,
    pub accent_assistant: Color,
    pub accent_thinking: Color,
    pub accent_tool: Color,
    pub accent_system: Color,
    pub accent_error: Color,
    pub accent_success: Color,
    pub accent_running: Color,
    pub accent_skill: Color,
    pub text_primary: Color,
    pub text_secondary: Color,
    pub gray_dim: Color,
    pub gray: Color,
    pub gray_bright: Color,
    pub command: Color,
    pub path: Color,
    pub running: Color,
    pub warning: Color,
    pub fuzzy_accent: Color,
    pub accent_plan: Color,
    pub accent_verify: Color,
    pub accent_feedback: Color,
    pub accent_remember: Color,
    pub selection_border: Color,
    pub hover_border: Color,
    pub prompt_border: Color,
    pub prompt_border_active: Color,
    pub accent_model: Color,
    pub scrollbar_bg: Color,
    pub scrollbar_fg: Color,
    pub diff_delete_bg: Color,
    pub diff_delete_fg: Color,
    pub diff_insert_bg: Color,
    pub diff_insert_fg: Color,
    pub diff_equal_fg: Color,
    pub diff_gutter_fg: Color,
    pub bg_visual: Color,
    pub paste_bg: Color,
    pub paste_fg: Color,
    pub paste_dim: Color,
    pub md_heading_h1: Color,
    pub md_heading_h1_mod: Modifier,
    pub md_heading_h2: Color,
    pub md_heading_h2_mod: Modifier,
    pub md_heading_h3: Color,
    pub md_heading_h3_mod: Modifier,
    pub md_heading_h4: Color,
    pub md_heading_h4_mod: Modifier,
    pub md_heading_h5: Color,
    pub md_heading_h5_mod: Modifier,
    pub md_heading_h6: Color,
    pub md_heading_h6_mod: Modifier,
    pub md_code: Color,
    pub md_task_checked: Color,
    pub md_task_unchecked: Color,
    pub md_muted: Color,
    pub md_code_bg: Color,
    pub md_text: Color,
    pub link_fg: Color,
}

/// Designed polarity of a theme: the classification of its solid design
/// canvas; a canvas that is not an RGB triple counts as dark.
pub open spec fn theme_is_dark(t: Theme) -> bool {
    match t.canvas {
        Color::Rgb(r, g, b) => is_dark_rgb((r, g, b)),
        _ => true,
    }
}

impl Theme {
    /// Whether the theme is designed for a dark canvas.
    pub fn is_dark(&self) -> (r: bool)
        ensures
            r == theme_is_dark(*self),
    {
        match self.canvas {
            Color::Rgb(r, g, b) => classify_is_dark((r, g, b)),
            _ => true,
        }
    }
}

/// The palettes of the first-class themes that are not mapped from a Ghostty
/// scheme (Grok Night, Grok Day, Tokyo Night, Rose Pine Moon, Oscura
/// Midnight), supplied by the application.
#[derive(Debug, Clone, Copy, PartialEq, Eq, Structural)]
pub struct BuiltinThemes {
    pub groknight: Theme,
    pub grokday: Theme,
    pub tokyonight: Theme,
    pub rosepine_moon: Theme,
    pub oscura_midnight: Theme,
}

/// The designed polarities of the built-in palettes: Grok Day is light,
/// the other four are dark.
pub open spec fn builtin_polarities_ok(b: BuiltinThemes) -> bool {
    &&& theme_is_dark(b.groknight)
    &&& !theme_is_dark(b.grokday)
    &&& theme_is_dark(b.tokyonight)
    &&& theme_is_dark(b.rosepine_moon)
    &&& theme_is_dark(b.oscura_midnight)
}

impl BuiltinThemes {
    /// Whether the palettes have their designed polarities (Grok Day light,
    /// the others dark).
    pub fn polarities_ok(&self) -> (r: bool)
        ensures
            r == builtin_polarities_ok(*self),
    {
        self.groknight.is_dark() && !self.grokday.is_dark() && self.tokyonight.is_dark()
            && self.rosepine_moon.is_dark() && self.oscura_midnight.is_dark()
    }
}

} // verus!
