//! First-class palettes mapped by hand from Ghostty schemes.

use vstd::prelude::*;
use crate::color::{Color, Modifier, BOLD_BITS, ITALIC_BITS};
use crate::theme::Theme;

verus! {

/// The Sakura palette: dark plum canvas with magenta blossom accents.
pub open spec fn spec_sakura() -> Theme {
    Theme {
        bg_base: Color::Rgb(24, 19, 30),
        bg_light: Color::Rgb(46, 38, 58),
        bg_dark: Color::Rgb(34, 28, 42),
        bg_highlight: Color::Rgb(46, 38, 58),
        bg_hover: Color::Rgb(58, 48, 74),
        bg_terminal: Color::Rgb(24, 19, 30),
        canvas: Color::Rgb(24, 19, 30),
        accent_user: Color::Rgb(255, 101, 253),
        accent_assistant: Color::Rgb(152, 146, 241),
        accent_thinking: Color::Rgb(153, 142, 172),
        accent_tool: Color::Rgb(147, 147, 147),
        accent_system: Color::Rgb(105, 100, 171),
        accent_error: Color::Rgb(244, 29, 153),
        accent_success: Color::Rgb(34, 229, 41),
        accent_running: Color::Rgb(233, 12, 221),
        accent_skill: Color::Rgb(199, 31, 191),
        text_primary: Color::Rgb(203, 182, 255),
        text_secondary: Color::Rgb(221, 123, 220),
        gray_dim: Color::Rgb(147, 147, 147),
        gray: Color::Rgb(153, 142, 172),
        gray_bright: Color::Rgb(238, 238, 238),
        command: Color::Rgb(245, 149, 116),
        path: Color::Rgb(188, 112, 83),
        running: Color::Rgb(152, 146, 241),
        warning: Color::Rgb(245, 149, 116),
        fuzzy_accent: Color::Rgb(255, 101, 253),
        accent_plan: Color::Rgb(245, 149, 116),
        accent_verify: Color::Rgb(152, 146, 241),
        accent_feedback: Color::Rgb(34, 229, 41),
        accent_remember: Color::Rgb(65, 175, 26),
        selection_border: Color::Rgb(192, 92, 191),
        hover_border: Color::Rgb(58, 48, 74),
        prompt_border: Color::Rgb(58, 48, 74),
        prompt_border_active: Color::Rgb(192, 92, 191),
        accent_model: Color::Rgb(152, 146, 241),
        scrollbar_bg: Color::Rgb(34, 28, 42),
        scrollbar_fg: Color::Rgb(78, 62, 98),
        diff_delete_bg: Color::Rgb(48, 18, 36),
        diff_delete_fg: Color::Rgb(244, 29, 153),
        diff_insert_bg: Color::Rgb(18, 40, 22),
        diff_insert_fg: Color::Rgb(34, 229, 41),
        diff_equal_fg: Color::Rgb(153, 142, 172),
        diff_gutter_fg: Color::Rgb(147, 147, 147),
        bg_visual: Color::Rgb(58, 48, 74),
        paste_bg: Color::Rgb(34, 28, 42),
        paste_fg: Color::Rgb(221, 123, 220),
        paste_dim: Color::Rgb(153, 142, 172),
        md_heading_h1: Color::Rgb(203, 182, 255),
        md_heading_h1_mod: Modifier { bits: BOLD_BITS },
        md_heading_h2: Color::Rgb(255, 101, 253),
        md_heading_h2_mod: Modifier { bits: BOLD_BITS },
        md_heading_h3: Color::Rgb(152, 146, 241),
        md_heading_h3_mod: Modifier { bits: BOLD_BITS },
        md_heading_h4: Color::Rgb(233, 12, 221),
        md_heading_h4_mod: Modifier { bits: BOLD_BITS | ITALIC_BITS },
        md_heading_h5: Color::Rgb(245, 149, 116),
        md_heading_h5_mod: Modifier { bits: BOLD_BITS },
        md_heading_h6: Color::Rgb(105, 100, 171),
        md_heading_h6_mod: Modifier { bits: BOLD_BITS },
        md_code: Color::Rgb(152, 146, 241),
        md_task_checked: Color::Rgb(34, 229, 41),
        md_task_unchecked: Color::Rgb(153, 142, 172),
        md_muted: Color::Rgb(153, 142, 172),
        md_code_bg: Color::Rgb(34, 28, 42),
        md_text: Color::Rgb(203, 182, 255),
        link_fg: Color::Rgb(255, 101, 253),
    }
}

impl Theme {
    /// Sakura — the hand-mapped Ghostty Sakura terminal scheme.
    pub fn sakura() -> (t: Theme)
        ensures
            t == spec_sakura(),
    {
        Theme {
            bg_base: Color::Rgb(24, 19, 30),
            bg_light: Color::Rgb(46, 38, 58),
            bg_dark: Color::Rgb(34, 28, 42),
            bg_highlight: Color::Rgb(46, 38, 58),
            bg_hover: Color::Rgb(58, 48, 74),
            bg_terminal: Color::Rgb(24, 19, 30),
            canvas: Color::Rgb(24, 19, 30),
            accent_user: Color::Rgb(255, 101, 253),
            accent_assistant: Color::Rgb(152, 146, 241),
            accent_thinking: Color::Rgb(153, 142, 172),
            accent_tool: Color::Rgb(147, 147, 147),
            accent_system: Color::Rgb(105, 100, 171),
            accent_error: Color::Rgb(244, 29, 153),
            accent_success: Color::Rgb(34, 229, 41),
            accent_running: Color::Rgb(233, 12, 221),
            accent_skill: Color::Rgb(199, 31, 191),
            text_primary: Color::Rgb(203, 182, 255),
            text_secondary: Color::Rgb(221, 123, 220),
            gray_dim: Color::Rgb(147, 147, 147),
            gray: Color::Rgb(153, 142, 172),
            gray_bright: Color::Rgb(238, 238, 238),
            command: Color::Rgb(245, 149, 116),
            path: Color::Rgb(188, 112, 83),
            running: Color::Rgb(152, 146, 241),
            warning: Color::Rgb(245, 149, 116),
            fuzzy_accent: Color::Rgb(255, 101, 253),
            accent_plan: Color::Rgb(245, 149, 116),
            accent_verify: Color::Rgb(152, 146, 241),
            accent_feedback: Color::Rgb(34, 229, 41),
            accent_remember: Color::Rgb(65, 175, 26),
            selection_border: Color::Rgb(192, 92, 191),
            hover_border: Color::Rgb(58, 48, 74),
            prompt_border: Color::Rgb(58, 48, 74),
            prompt_border_active: Color::Rgb(192, 92, 191),
            accent_model: Color::Rgb(152, 146, 241),
            scrollbar_bg: Color::Rgb(34, 28, 42),
            scrollbar_fg: Color::Rgb(78, 62, 98),
            diff_delete_bg: Color::Rgb(48, 18, 36),
            diff_delete_fg: Color::Rgb(244, 29, 153),
            diff_insert_bg: Color::Rgb(18, 40, 22),
            diff_insert_fg: Color::Rgb(34, 229, 41),
            diff_equal_fg: Color::Rgb(153, 142, 172),
            diff_gutter_fg: Color::Rgb(147, 147, 147),
            bg_visual: Color::Rgb(58, 48, 74),
            paste_bg: Color::Rgb(34, 28, 42),
            paste_fg: Color::Rgb(221, 123, 220),
            paste_dim: Color::Rgb(153, 142, 172),
            md_heading_h1: Color::Rgb(203, 182, 255),
            md_heading_h1_mod: Modifier { bits: BOLD_BITS },
            md_heading_h2: Color::Rgb(255, 101, 253),
            md_heading_h2_mod: Modifier { bits: BOLD_BITS },
            md_heading_h3: Color::Rgb(152, 146, 241),
            md_heading_h3_mod: Modifier { bits: BOLD_BITS },
            md_heading_h4: Color::Rgb(233, 12, 221),
            md_heading_h4_mod: Modifier { bits: BOLD_BITS | ITALIC_BITS },
            md_heading_h5: Color::Rgb(245, 149, 116),
            md_heading_h5_mod: Modifier { bits: BOLD_BITS },
            md_heading_h6: Color::Rgb(105, 100, 171),
            md_heading_h6_mod: Modifier { bits: BOLD_BITS },
            md_code: Color::Rgb(152, 146, 241),
            md_task_checked: Color::Rgb(34, 229, 41),
            md_task_unchecked: Color::Rgb(153, 142, 172),
            md_muted: Color::Rgb(153, 142, 172),
            md_code_bg: Color::Rgb(34, 28, 42),
            md_text: Color::Rgb(203, 182, 255),
            link_fg: Color::Rgb(255, 101, 253),
        }
    }
}

/// The Aurora palette: dark slate canvas with amber / cyan accents.
pub open spec fn spec_aurora() -> Theme {
    Theme {
        bg_base: Color::Rgb(35, 38, 46),
        bg_light: Color::Rgb(52, 58, 70),
        bg_dark: Color::Rgb(41, 46, 56),
        bg_highlight: Color::Rgb(52, 58, 70),
        bg_hover: Color::Rgb(64, 72, 88),
        bg_terminal: Color::Rgb(35, 38, 46),
        canvas: Color::Rgb(35, 38, 46),
        accent_user: Color::Rgb(238, 93, 67),
        accent_assistant: Color::Rgb(199, 77, 237),
        accent_thinking: Color::Rgb(79, 84, 94),
        accent_tool: Color::Rgb(79, 84, 94),
        accent_system: Color::Rgb(16, 46, 228),
        accent_error: Color::Rgb(249, 38, 114),
        accent_success: Color::Rgb(143, 212, 109),
        accent_running: Color::Rgb(3, 214, 184),
        accent_skill: Color::Rgb(3, 214, 184),
        text_primary: Color::Rgb(255, 210, 156),
        text_secondary: Color::Rgb(255, 202, 40),
        gray_dim: Color::Rgb(58, 62, 72),
        gray: Color::Rgb(79, 84, 94),
        gray_bright: Color::Rgb(255, 210, 156),
        command: Color::Rgb(255, 230, 109),
        path: Color::Rgb(238, 93, 67),
        running: Color::Rgb(3, 214, 184),
        warning: Color::Rgb(255, 230, 109),
        fuzzy_accent: Color::Rgb(3, 214, 184),
        accent_plan: Color::Rgb(255, 230, 109),
        accent_verify: Color::Rgb(199, 77, 237),
        accent_feedback: Color::Rgb(3, 214, 184),
        accent_remember: Color::Rgb(143, 212, 109),
        selection_border: Color::Rgb(0, 232, 198),
        hover_border: Color::Rgb(64, 72, 88),
        prompt_border: Color::Rgb(64, 72, 88),
        prompt_border_active: Color::Rgb(0, 232, 198),
        accent_model: Color::Rgb(3, 214, 184),
        scrollbar_bg: Color::Rgb(41, 46, 56),
        scrollbar_fg: Color::Rgb(88, 98, 118),
        diff_delete_bg: Color::Rgb(56, 24, 36),
        diff_delete_fg: Color::Rgb(249, 38, 114),
        diff_insert_bg: Color::Rgb(28, 48, 32),
        diff_insert_fg: Color::Rgb(143, 212, 109),
        diff_equal_fg: Color::Rgb(79, 84, 94),
        diff_gutter_fg: Color::Rgb(79, 84, 94),
        bg_visual: Color::Rgb(64, 72, 88),
        paste_bg: Color::Rgb(41, 46, 56),
        paste_fg: Color::Rgb(255, 210, 156),
        paste_dim: Color::Rgb(79, 84, 94),
        md_heading_h1: Color::Rgb(255, 210, 156),
        md_heading_h1_mod: Modifier { bits: BOLD_BITS },
        md_heading_h2: Color::Rgb(3, 214, 184),
        md_heading_h2_mod: Modifier { bits: BOLD_BITS },
        md_heading_h3: Color::Rgb(199, 77, 237),
        md_heading_h3_mod: Modifier { bits: BOLD_BITS },
        md_heading_h4: Color::Rgb(143, 212, 109),
        md_heading_h4_mod: Modifier { bits: BOLD_BITS | ITALIC_BITS },
        md_heading_h5: Color::Rgb(255, 230, 109),
        md_heading_h5_mod: Modifier { bits: BOLD_BITS },
        md_heading_h6: Color::Rgb(238, 93, 67),
        md_heading_h6_mod: Modifier { bits: BOLD_BITS },
        md_code: Color::Rgb(3, 214, 184),
        md_task_checked: Color::Rgb(143, 212, 109),
        md_task_unchecked: Color::Rgb(79, 84, 94),
        md_muted: Color::Rgb(79, 84, 94),
        md_code_bg: Color::Rgb(41, 46, 56),
        md_text: Color::Rgb(255, 210, 156),
        link_fg: Color::Rgb(0, 232, 198),
    }
}

impl Theme {
    /// Aurora — the hand-mapped Ghostty Aurora terminal scheme.
    pub fn aurora() -> (t: Theme)
        ensures
            t == spec_aurora(),
    {
        Theme {
            bg_base: Color::Rgb(35, 38, 46),
            bg_light: Color::Rgb(52, 58, 70),
            bg_dark: Color::Rgb(41, 46, 56),
            bg_highlight: Color::Rgb(52, 58, 70),
            bg_hover: Color::Rgb(64, 72, 88),
            bg_terminal: Color::Rgb(35, 38, 46),
            canvas: Color::Rgb(35, 38, 46),
            accent_user: Color::Rgb(238, 93, 67),
            accent_assistant: Color::Rgb(199, 77, 237),
            accent_thinking: Color::Rgb(79, 84, 94),
            accent_tool: Color::Rgb(79, 84, 94),
            accent_system: Color::Rgb(16, 46, 228),
            accent_error: Color::Rgb(249, 38, 114),
            accent_success: Color::Rgb(143, 212, 109),
            accent_running: Color::Rgb(3, 214, 184),
            accent_skill: Color::Rgb(3, 214, 184),
            text_primary: Color::Rgb(255, 210, 156),
            text_secondary: Color::Rgb(255, 202, 40),
            gray_dim: Color::Rgb(58, 62, 72),
            gray: Color::Rgb(79, 84, 94),
            gray_bright: Color::Rgb(255, 210, 156),
            command: Color::Rgb(255, 230, 109),
            path: Color::Rgb(238, 93, 67),
            running: Color::Rgb(3, 214, 184),
            warning: Color::Rgb(255, 230, 109),
            fuzzy_accent: Color::Rgb(3, 214, 184),
            accent_plan: Color::Rgb(255, 230, 109),
            accent_verify: Color::Rgb(199, 77, 237),
            accent_feedback: Color::Rgb(3, 214, 184),
            accent_remember: Color::Rgb(143, 212, 109),
            selection_border: Color::Rgb(0, 232, 198),
            hover_border: Color::Rgb(64, 72, 88),
            prompt_border: Color::Rgb(64, 72, 88),
            prompt_border_active: Color::Rgb(0, 232, 198),
            accent_model: Color::Rgb(3, 214, 184),
            scrollbar_bg: Color::Rgb(41, 46, 56),
            scrollbar_fg: Color::Rgb(88, 98, 118),
            diff_delete_bg: Color::Rgb(56, 24, 36),
            diff_delete_fg: Color::Rgb(249, 38, 114),
            diff_insert_bg: Color::Rgb(28, 48, 32),
            diff_insert_fg: Color::Rgb(143, 212, 109),
            diff_equal_fg: Color::Rgb(79, 84, 94),
            diff_gutter_fg: Color::Rgb(79, 84, 94),
            bg_visual: Color::Rgb(64, 72, 88),
            paste_bg: Color::Rgb(41, 46, 56),
            paste_fg: Color::Rgb(255, 210, 156),
            paste_dim: Color::Rgb(79, 84, 94),
            md_heading_h1: Color::Rgb(255, 210, 156),
            md_heading_h1_mod: Modifier { bits: BOLD_BITS },
            md_heading_h2: Color::Rgb(3, 214, 184),
            md_heading_h2_mod: Modifier { bits: BOLD_BITS },
            md_heading_h3: Color::Rgb(199, 77, 237),
            md_heading_h3_mod: Modifier { bits: BOLD_BITS },
            md_heading_h4: Color::Rgb(143, 212, 109),
            md_heading_h4_mod: Modifier { bits: BOLD_BITS | ITALIC_BITS },
            md_heading_h5: Color::Rgb(255, 230, 109),
            md_heading_h5_mod: Modifier { bits: BOLD_BITS },
            md_heading_h6: Color::Rgb(238, 93, 67),
            md_heading_h6_mod: Modifier { bits: BOLD_BITS },
            md_code: Color::Rgb(3, 214, 184),
            md_task_checked: Color::Rgb(143, 212, 109),
            md_task_unchecked: Color::Rgb(79, 84, 94),
            md_muted: Color::Rgb(79, 84, 94),
            md_code_bg: Color::Rgb(41, 46, 56),
            md_text: Color::Rgb(255, 210, 156),
            link_fg: Color::Rgb(0, 232, 198),
        }
    }
}

} // verus!
