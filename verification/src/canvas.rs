//! Transparent body paint and the solid endpoints that blend and inverse-chip
//! math resolve to.
//!
//! Under transparent mode the body and passive elevated fills paint
//! `Color::Reset` so the host terminal shows through, while `canvas` keeps
//! the solid design color.

use vstd::prelude::*;
use crate::color::{Color, Modifier, BOLD_BITS, ITALIC_BITS, REVERSED_BITS};
use crate::theme::{Theme, theme_is_dark};

verus! {

/// The theme with body and passive elevated fills forced to `Reset`.
///
/// Text, accents, borders, diff bands, the interaction surfaces
/// (`bg_dark`, `bg_highlight`, `bg_hover`, `bg_visual`) and `canvas` stay.
pub open spec fn spec_transparent_elevated(t: Theme) -> Theme {
    Theme {
        bg_base: Color::Reset,
        bg_light: Color::Reset,
        bg_terminal: Color::Reset,
        md_code_bg: Color::Reset,
        paste_bg: Color::Reset,
        scrollbar_bg: Color::Reset,
        ..t
    }
}

/// Paint color resolved to a solid endpoint: `Reset` paint resolves to the
/// design canvas, any other paint is itself.
pub open spec fn spec_solid_paint(t: Theme, paint: Color) -> Color {
    match paint {
        Color::Reset => t.canvas,
        _ => paint,
    }
}

/// Ink for inverse-video chips drawn on `paint`.
///
/// A solid paint is its own ink. A `Reset` paint gives `Reset` (reverse
/// video) when the theme has no design canvas, and otherwise Black on a
/// dark design, White on a light one.
pub open spec fn spec_invert_ink(t: Theme, paint: Color) -> Color {
    match paint {
        Color::Reset => match t.canvas {
            Color::Reset => Color::Reset,
            _ => if theme_is_dark(t) { Color::Black } else { Color::White },
        },
        _ => paint,
    }
}

impl Theme {
    /// Apply the paint-time mode: the transparent-background flag selects
    /// [`Theme::transparent_elevated`], otherwise the theme is unchanged.
    pub fn apply_paint_mode(self, transparent_background: bool) -> (t: Theme)
        ensures
            t == (if transparent_background { spec_transparent_elevated(self) } else { self }),
    {
        if transparent_background {
            self.transparent_elevated()
        } else {
            self
        }
    }

    /// Force body + passive elevated surfaces to `Reset`.
    pub fn transparent_elevated(self) -> (t: Theme)
        ensures
            t == spec_transparent_elevated(self),
    {
        Theme {
            bg_base: Color::Reset,
            bg_light: Color::Reset,
            bg_terminal: Color::Reset,
            md_code_bg: Color::Reset,
            paste_bg: Color::Reset,
            scrollbar_bg: Color::Reset,
            ..self
        }
    }

    /// Solid design canvas for blend / fade / dim math.
    pub fn design_canvas(&self) -> (c: Color)
        ensures
            c == self.canvas,
    {
        self.canvas
    }

    /// Resolve a paint color to a solid endpoint.
    pub fn solid_paint(&self, paint: Color) -> (c: Color)
        ensures
            c == spec_solid_paint(*self, paint),
    {
        match paint {
            Color::Reset => self.design_canvas(),
            other => other,
        }
    }

    /// Foreground for inverse-video chips (cursor block, selected badge).
    pub fn invert_ink(&self, paint: Color) -> (c: Color)
        ensures
            c == spec_invert_ink(*self, paint),
    {
        match paint {
            Color::Reset => match self.canvas {
                Color::Reset => Color::Reset,
                _ => {
                    if self.is_dark() {
                        Color::Black
                    } else {
                        Color::White
                    }
                },
            },
            other => other,
        }
    }

    /// Inverse-chip ink against the body paint.
    pub fn invert_canvas(&self) -> (c: Color)
        ensures
            c == spec_invert_ink(*self, self.bg_base),
    {
        self.invert_ink(self.bg_base)
    }
}

/// Modifiers of a match cell after highlighting: reverse video on an opaque
/// theme; on a transparent one reverse video is dropped and bold italic ink
/// added, so matches stay distinct from the underline cues of selection.
pub open spec fn spec_highlight_bits(bits: u16, transparent_background: bool) -> u16 {
    if transparent_background {
        (bits & !REVERSED_BITS) | (BOLD_BITS | ITALIC_BITS)
    } else {
        bits | REVERSED_BITS
    }
}

/// Mark a search-match cell's modifiers as highlighted.
pub fn invert_cell(modifier: &mut Modifier, transparent_background: bool)
    ensures
        final(modifier).bits == spec_highlight_bits(old(modifier).bits, transparent_background),
{
    if transparent_background {
        modifier.remove(Modifier::reversed());
        modifier.insert(Modifier::bold().union(Modifier::italic()));
    } else {
        modifier.insert(Modifier::reversed());
    }
}

/// Making a theme transparent twice is the same as making it transparent once.
pub proof fn lemma_transparent_elevated_idempotent(t: Theme)
    ensures
        spec_transparent_elevated(spec_transparent_elevated(t)) == spec_transparent_elevated(t),
{
}

/// Transparent mode keeps the design canvas, the designed polarity, text,
/// accents and every interaction band; only passive fills become `Reset`.
pub proof fn lemma_transparent_keeps_design(t: Theme)
    ensures
        ({
            let s = spec_transparent_elevated(t);
            &&& s.canvas == t.canvas
            &&& theme_is_dark(s) == theme_is_dark(t)
            &&& s.bg_dark == t.bg_dark
            &&& s.bg_highlight == t.bg_highlight
            &&& s.bg_hover == t.bg_hover
            &&& s.bg_visual == t.bg_visual
            &&& s.text_primary == t.text_primary
            &&& s.accent_user == t.accent_user
            &&& s.bg_base == Color::Reset
            &&& s.bg_light == Color::Reset
            &&& s.bg_terminal == Color::Reset
            &&& s.md_code_bg == Color::Reset
            &&& s.paste_bg == Color::Reset
            &&& s.scrollbar_bg == Color::Reset
        }),
{
}

/// Transparent mode changes exactly the six passive fills (body, light
/// surface, terminal, code block, paste block, scrollbar track), each to
/// `Reset`: putting their own colors back gives the theme unchanged, so
/// every other role — diff bands included — keeps its color.
pub proof fn lemma_transparent_changes_only_passive_fills(t: Theme)
    ensures
        ({
            let s = spec_transparent_elevated(t);
            &&& Theme {
                bg_base: t.bg_base,
                bg_light: t.bg_light,
                bg_terminal: t.bg_terminal,
                md_code_bg: t.md_code_bg,
                paste_bg: t.paste_bg,
                scrollbar_bg: t.scrollbar_bg,
                ..s
            } == t
            &&& s.diff_delete_bg == t.diff_delete_bg
            &&& s.diff_insert_bg == t.diff_insert_bg
            &&& s.diff_delete_fg == t.diff_delete_fg
            &&& s.diff_insert_fg == t.diff_insert_fg
            &&& s.bg_base == Color::Reset
            &&& s.bg_light == Color::Reset
            &&& s.bg_terminal == Color::Reset
            &&& s.md_code_bg == Color::Reset
            &&& s.paste_bg == Color::Reset
            &&& s.scrollbar_bg == Color::Reset
        }),
{
}

/// Under transparent mode the body paint resolves to the design canvas, and
/// the body's inverse-chip ink is the polarity ink (Black on dark, White on
/// light) when a solid design canvas exists, `Reset` otherwise.
pub proof fn lemma_transparent_body_resolves_to_canvas(t: Theme)
    ensures
        ({
            let s = spec_transparent_elevated(t);
            &&& spec_solid_paint(s, s.bg_base) == t.canvas
            &&& spec_invert_ink(s, s.bg_base) == (match t.canvas {
                Color::Reset => Color::Reset,
                _ => if theme_is_dark(t) { Color::Black } else { Color::White },
            })
        }),
{
}

/// A solid paint is its own endpoint and its own inverse ink.
pub proof fn lemma_solid_paint_passes_through(t: Theme, paint: Color)
    requires
        paint != Color::Reset,
    ensures
        spec_solid_paint(t, paint) == paint,
        spec_invert_ink(t, paint) == paint,
{
}

} // verus!
