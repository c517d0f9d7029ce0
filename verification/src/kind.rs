//! [`ThemeKind`] — identity, parsing, encode/decode, and picker catalogs.
//!
//! Built-in themes (including the hand-mapped Sakura / Aurora) are
//! first-class variants. Every other Ghostty / iTerm2 scheme is a
//! [`ThemeKind::Ghostty`] index into a [`GhosttyCatalog`].

use vstd::prelude::*;
use vstd::utf8::is_ascii_chars;
use crate::catalog::{GhosttyCatalog, GhosttyScheme, find_slug, find_display, MAX_SCHEMES,
    lemma_find_slug, lemma_find_slug_first};
use crate::ghostty::{spec_theme_from_ghostty, catalog_index_is_dark, lemma_every_scheme_has_scrollbar_contrast, spec_catalog_index_is_dark, spec_theme_from_ghostty_index,
    theme_from_ghostty_index};
use crate::text::{str_eq, to_lowercase, spec_to_lowercase, ascii_lowercase, has_no_ascii_upper,
    lemma_ascii_lowercase_identity};
use crate::theme::{Theme, BuiltinThemes, theme_is_dark, builtin_polarities_ok};
use crate::polarity::is_dark_rgb;
use crate::palettes::{spec_sakura, spec_aurora};

verus! {

/// One row in the Settings / slash theme pickers: canonical config name,
/// human label and description.
#[derive(Debug, Clone, Copy, PartialEq, Eq)]
pub struct ThemePickerRow<'a> {
    pub canonical: &'a str,
    pub display: &'a str,
    pub description: &'a str,
}

/// Available theme variants.
///
/// `Auto` is a meta-variant that follows the system's dark/light
/// appearance; it is resolved to a concrete theme before painting.
#[derive(Debug, Clone, Copy, PartialEq, Eq, Hash, Structural)]
pub enum ThemeKind {
    GrokNight,
    GrokDay,
    TokyoNight,
    RosePineMoon,
    OscuraMidnight,
    /// Ghostty Sakura — first-class (hand-mapped TUI chrome).
    Sakura,
    /// Ghostty Aurora — first-class (hand-mapped TUI chrome).
    Aurora,
    /// Follow the system dark/light appearance.
    Auto,
    /// Index into the Ghostty catalog.
    Ghostty(u16),
}

/// First-class built-in themes, in picker order (no `Auto`, no catalog).
pub open spec fn spec_all() -> Seq<ThemeKind> {
    seq![
        ThemeKind::GrokNight,
        ThemeKind::GrokDay,
        ThemeKind::TokyoNight,
        ThemeKind::RosePineMoon,
        ThemeKind::OscuraMidnight,
        ThemeKind::Sakura,
        ThemeKind::Aurora,
    ]
}

/// Every catalog index `0..n` as a kind.
pub open spec fn catalog_kinds(n: nat) -> Seq<ThemeKind> {
    Seq::new(n, |i: int| ThemeKind::Ghostty(i as u16))
}

/// First-class built-ins, then every catalog index of an `n`-scheme catalog.
pub open spec fn concrete_kinds(n: nat) -> Seq<ThemeKind> {
    spec_all() + catalog_kinds(n)
}

/// Whether `k` names a theme of a catalog with `n` schemes: every variant
/// but a catalog index at or past `n`.
pub open spec fn kind_in_catalog(k: ThemeKind, n: nat) -> bool {
    match k {
        ThemeKind::Ghostty(i) => i < n,
        _ => true,
    }
}

/// Config key of a catalog slug that collides with a first-class name.
pub open spec fn colliding_config(slug: Seq<char>) -> Option<Seq<char>> {
    if slug == "dark"@ {
        Some("ghostty-dark"@)
    } else if slug == "rose-pine"@ {
        Some("ghostty-rose-pine"@)
    } else if slug == "rose-pine-moon"@ {
        Some("ghostty-rose-pine-moon"@)
    } else if slug == "tokyonight"@ {
        Some("ghostty-tokyonight"@)
    } else {
        None
    }
}

/// Catalog slug whose config key is `key`.
pub open spec fn colliding_slug_of_config(key: Seq<char>) -> Option<Seq<char>> {
    if key == "ghostty-dark"@ {
        Some("dark"@)
    } else if key == "ghostty-rose-pine"@ {
        Some("rose-pine"@)
    } else if key == "ghostty-rose-pine-moon"@ {
        Some("rose-pine-moon"@)
    } else if key == "ghostty-tokyonight"@ {
        Some("tokyonight"@)
    } else {
        None
    }
}

/// Config name of a catalog scheme: its `ghostty-` key when its slug
/// collides with a first-class name, its slug otherwise.
pub open spec fn spec_config_slug(slug: Seq<char>) -> Seq<char> {
    match colliding_config(slug) {
        Some(key) => key,
        None => slug,
    }
}

/// The first-class kind a lowercase name is an alias of.
pub open spec fn spec_first_class_alias(lower: Seq<char>) -> Option<ThemeKind> {
    if lower == "auto"@ || lower == "system"@ {
        Some(ThemeKind::Auto)
    } else if lower == "groknight"@ || lower == "grok-night"@ || lower == "dark"@ {
        Some(ThemeKind::GrokNight)
    } else if lower == "tokyonight"@ || lower == "tokyo-night"@ || lower == "tokyo"@ {
        Some(ThemeKind::TokyoNight)
    } else if lower == "grokday"@ || lower == "grok-day"@ || lower == "light"@ || lower == "day"@ {
        Some(ThemeKind::GrokDay)
    } else if lower == "rosepine"@ || lower == "rose-pine"@ || lower == "rosepine-moon"@
        || lower == "rose-pine-moon"@ {
        Some(ThemeKind::RosePineMoon)
    } else if lower == "oscura"@ || lower == "oscura-midnight"@ {
        Some(ThemeKind::OscuraMidnight)
    } else if lower == "sakura"@ || lower == "cherry"@ || lower == "cherry-blossom"@ {
        Some(ThemeKind::Sakura)
    } else if lower == "aurora"@ || lower == "northern-lights"@ {
        Some(ThemeKind::Aurora)
    } else {
        None
    }
}

/// `Ghostty(i)` for a found index.
pub open spec fn ghostty_at(i: Option<int>) -> Option<ThemeKind> {
    match i {
        Some(i) => Some(ThemeKind::Ghostty(i as u16)),
        None => None,
    }
}

/// Catalog kind named by a lowercase name (slug or `ghostty-` key) or, failing
/// that, by the name as typed, as a display name.
///
/// A `ghostty-` key selects its scheme; a bare colliding slug selects no
/// catalog scheme (it belongs to the first-class theme).
pub open spec fn spec_from_catalog_name(c: Seq<GhosttyScheme>, lower: Seq<char>, typed: Seq<char>) -> Option<ThemeKind> {
    match colliding_slug_of_config(lower) {
        Some(slug) => ghostty_at(find_slug(c, slug, 0)),
        None => match find_slug(c, lower, 0) {
            Some(i) => if colliding_config(c[i].slug@) is Some {
                None
            } else {
                Some(ThemeKind::Ghostty(i as u16))
            },
            None => ghostty_at(find_display(c, typed, 0)),
        },
    }
}

/// The kind a name parses to: first-class aliases of its lowercase first,
/// then the catalog.
pub open spec fn spec_from_name(c: Seq<GhosttyScheme>, name: Seq<char>) -> Option<ThemeKind> {
    let lower = spec_to_lowercase(name);
    match spec_first_class_alias(lower) {
        Some(k) => Some(k),
        None => spec_from_catalog_name(c, lower, name),
    }
}

/// Canonical config name of a kind.
pub open spec fn spec_display_name(k: ThemeKind, c: Seq<GhosttyScheme>) -> Seq<char> {
    match k {
        ThemeKind::GrokNight => "groknight"@,
        ThemeKind::TokyoNight => "tokyonight"@,
        ThemeKind::GrokDay => "grokday"@,
        ThemeKind::RosePineMoon => "rosepine-moon"@,
        ThemeKind::OscuraMidnight => "oscura-midnight"@,
        ThemeKind::Sakura => "sakura"@,
        ThemeKind::Aurora => "aurora"@,
        ThemeKind::Auto => "auto"@,
        ThemeKind::Ghostty(i) => if i < c.len() {
            spec_config_slug(c[i as int].slug@)
        } else {
            "groknight"@
        },
    }
}

/// Human label of a kind.
pub open spec fn spec_label(k: ThemeKind, c: Seq<GhosttyScheme>) -> Seq<char> {
    match k {
        ThemeKind::GrokNight => "Grok Night"@,
        ThemeKind::GrokDay => "Grok Day"@,
        ThemeKind::TokyoNight => "Tokyo Night"@,
        ThemeKind::RosePineMoon => "Rose Pine Moon"@,
        ThemeKind::OscuraMidnight => "Oscura Midnight"@,
        ThemeKind::Sakura => "Sakura"@,
        ThemeKind::Aurora => "Aurora"@,
        ThemeKind::Auto => "Auto"@,
        ThemeKind::Ghostty(i) => if i < c.len() {
            c[i as int].display@
        } else {
            "Grok Night"@
        },
    }
}

/// Short description of a kind.
pub open spec fn spec_description(k: ThemeKind) -> Seq<char> {
    match k {
        ThemeKind::Auto => "Follow system dark/light appearance."@,
        ThemeKind::GrokNight => "Neutral dark with magenta accent."@,
        ThemeKind::GrokDay => "Light theme for bright environments."@,
        ThemeKind::TokyoNight => "Dark + blue-tinted; needs truecolor."@,
        ThemeKind::RosePineMoon => "Muted dark with mauve accents; needs truecolor."@,
        ThemeKind::OscuraMidnight => "Deep dark with warm accents; needs truecolor."@,
        ThemeKind::Sakura => "Ghostty Sakura — dark plum with magenta blossom; needs truecolor."@,
        ThemeKind::Aurora => "Ghostty Aurora — dark slate with amber/cyan accents; needs truecolor."@,
        ThemeKind::Ghostty(_) => "Ghostty terminal color scheme; needs truecolor."@,
    }
}

/// Whether a row carries the canonical name, label and description of `k`.
pub open spec fn row_describes(row: ThemePickerRow, k: ThemeKind, c: Seq<GhosttyScheme>) -> bool {
    &&& row.canonical@ == spec_display_name(k, c)
    &&& row.display@ == spec_label(k, c)
    &&& row.description@ == spec_description(k)
}

/// Whether `rows` describe the kinds of `kinds`, one row per kind, in order.
pub open spec fn rows_describe(rows: Seq<ThemePickerRow>, kinds: Seq<ThemeKind>, c: Seq<GhosttyScheme>) -> bool {
    &&& rows.len() == kinds.len()
    &&& forall|i: int| 0 <= i < rows.len() ==> row_describes(#[trigger] rows[i], kinds[i], c)
}

/// Whether a row is the `auto` row.
pub open spec fn is_auto_row(row: ThemePickerRow) -> bool {
    row_describes(row, ThemeKind::Auto, Seq::empty())
}

/// Palette of a kind; `Auto` maps to Grok Night, the nominal default before
/// the system appearance resolves a concrete theme.
pub open spec fn spec_to_theme(k: ThemeKind, c: Seq<GhosttyScheme>, b: BuiltinThemes) -> Theme {
    match k {
        ThemeKind::GrokNight | ThemeKind::Auto => b.groknight,
        ThemeKind::GrokDay => b.grokday,
        ThemeKind::TokyoNight => b.tokyonight,
        ThemeKind::RosePineMoon => b.rosepine_moon,
        ThemeKind::OscuraMidnight => b.oscura_midnight,
        ThemeKind::Sakura => spec_sakura(),
        ThemeKind::Aurora => spec_aurora(),
        ThemeKind::Ghostty(i) => spec_theme_from_ghostty_index(c, b, i as int),
    }
}

/// Designed polarity of a kind: a catalog index by its scheme background,
/// every other kind by its palette.
pub open spec fn spec_kind_is_dark(k: ThemeKind, c: Seq<GhosttyScheme>, b: BuiltinThemes) -> bool {
    match k {
        ThemeKind::Ghostty(i) => spec_catalog_index_is_dark(c, i as int),
        _ => theme_is_dark(spec_to_theme(k, c, b)),
    }
}

/// Cache code of a kind: 0–7 for the fixed variants, the high bit plus the
/// index for a catalog kind.
pub open spec fn spec_encode(k: ThemeKind) -> u32 {
    match k {
        ThemeKind::GrokNight => 0,
        ThemeKind::GrokDay => 1,
        ThemeKind::TokyoNight => 2,
        ThemeKind::RosePineMoon => 3,
        ThemeKind::Auto => 4,
        ThemeKind::OscuraMidnight => 5,
        ThemeKind::Sakura => 6,
        ThemeKind::Aurora => 7,
        ThemeKind::Ghostty(i) => 0x8000_0000u32 | (i as u32),
    }
}

/// `Ghostty(index)` when the index is in the catalog, else Grok Night.
pub open spec fn spec_from_catalog_index(n: nat, index: u16) -> ThemeKind {
    if (index as nat) < n {
        ThemeKind::Ghostty(index)
    } else {
        ThemeKind::GrokNight
    }
}

/// Kind of a cache code: a code with the high bit set is the catalog index in
/// its low 16 bits; 0–7 are the fixed variants; anything else is Grok Night.
pub open spec fn spec_decode(n: nat, raw: u32) -> ThemeKind {
    if raw & 0x8000_0000u32 != 0 {
        spec_from_catalog_index(n, (raw & 0xFFFFu32) as u16)
    } else if raw == 0 {
        ThemeKind::GrokNight
    } else if raw == 1 {
        ThemeKind::GrokDay
    } else if raw == 2 {
        ThemeKind::TokyoNight
    } else if raw == 3 {
        ThemeKind::RosePineMoon
    } else if raw == 4 {
        ThemeKind::Auto
    } else if raw == 5 {
        ThemeKind::OscuraMidnight
    } else if raw == 6 {
        ThemeKind::Sakura
    } else if raw == 7 {
        ThemeKind::Aurora
    } else {
        ThemeKind::GrokNight
    }
}

/// First-class alias of a lowercase name.
fn first_class_alias(lower: &str) -> (r: Option<ThemeKind>)
    ensures
        r == spec_first_class_alias(lower@),
{
    if str_eq(lower, "auto") || str_eq(lower, "system") {
        Some(ThemeKind::Auto)
    } else if str_eq(lower, "groknight") || str_eq(lower, "grok-night") || str_eq(lower, "dark") {
        Some(ThemeKind::GrokNight)
    } else if str_eq(lower, "tokyonight") || str_eq(lower, "tokyo-night") || str_eq(lower, "tokyo") {
        Some(ThemeKind::TokyoNight)
    } else if str_eq(lower, "grokday") || str_eq(lower, "grok-day") || str_eq(lower, "light")
        || str_eq(lower, "day") {
        Some(ThemeKind::GrokDay)
    } else if str_eq(lower, "rosepine") || str_eq(lower, "rose-pine") || str_eq(lower, "rosepine-moon")
        || str_eq(lower, "rose-pine-moon") {
        Some(ThemeKind::RosePineMoon)
    } else if str_eq(lower, "oscura") || str_eq(lower, "oscura-midnight") {
        Some(ThemeKind::OscuraMidnight)
    } else if str_eq(lower, "sakura") || str_eq(lower, "cherry") || str_eq(lower, "cherry-blossom") {
        Some(ThemeKind::Sakura)
    } else if str_eq(lower, "aurora") || str_eq(lower, "northern-lights") {
        Some(ThemeKind::Aurora)
    } else {
        None
    }
}

/// Catalog schemes whose bare slug collides with a first-class name, as
/// `(catalog slug, config key)`; config persists the key so the first-class
/// names keep their meaning.
pub fn colliding_catalog() -> (r: Vec<(&'static str, &'static str)>)
    ensures
        r.len() == 4,
        forall|i: int| 0 <= i < 4 ==> colliding_config((#[trigger] r[i]).0@) == Some(r[i].1@),
        forall|i: int| 0 <= i < 4 ==> colliding_slug_of_config((#[trigger] r[i]).1@) == Some(r[i].0@),
        forall|s: Seq<char>| (#[trigger] colliding_config(s)) is Some ==> exists|i: int| 0 <= i < 4 && r[i].0@ == s,
{
    let r = vec![
        ("dark", "ghostty-dark"),
        ("rose-pine", "ghostty-rose-pine"),
        ("rose-pine-moon", "ghostty-rose-pine-moon"),
        ("tokyonight", "ghostty-tokyonight"),
    ];
    proof {
        lemma_colliding_keys_revealed();
        reveal_strlit("dark");
        reveal_strlit("rose-pine");
        reveal_strlit("rose-pine-moon");
        reveal_strlit("tokyonight");
        assert(r[0].0@ == "dark"@);
        assert(r[1].0@ == "rose-pine"@);
        assert(r[2].0@ == "rose-pine-moon"@);
        assert(r[3].0@ == "tokyonight"@);
        assert(r[0].1@ == "ghostty-dark"@);
        assert(r[1].1@ == "ghostty-rose-pine"@);
        assert(r[2].1@ == "ghostty-rose-pine-moon"@);
        assert(r[3].1@ == "ghostty-tokyonight"@);
        assert("ghostty-dark"@ != "ghostty-rose-pine"@);
        assert("ghostty-dark"@ != "ghostty-rose-pine-moon"@);
        assert("ghostty-dark"@ != "ghostty-tokyonight"@);
        assert("ghostty-rose-pine"@ != "ghostty-rose-pine-moon"@);
        assert("ghostty-rose-pine"@ != "ghostty-tokyonight"@);
        assert("ghostty-rose-pine-moon"@ != "ghostty-tokyonight"@);
    }
    r
}

/// Config key of a colliding catalog slug.
fn colliding_config_key(slug: &str) -> (r: Option<&'static str>)
    ensures
        match colliding_config(slug@) {
            Some(key) => r matches Some(k) && k@ == key,
            None => r is None,
        },
{
    if str_eq(slug, "dark") {
        Some("ghostty-dark")
    } else if str_eq(slug, "rose-pine") {
        Some("ghostty-rose-pine")
    } else if str_eq(slug, "rose-pine-moon") {
        Some("ghostty-rose-pine-moon")
    } else if str_eq(slug, "tokyonight") {
        Some("ghostty-tokyonight")
    } else {
        None
    }
}

/// Catalog slug of a colliding config key.
fn colliding_slug_for_config(key: &str) -> (r: Option<&'static str>)
    ensures
        match colliding_slug_of_config(key@) {
            Some(slug) => r matches Some(s) && s@ == slug,
            None => r is None,
        },
{
    if str_eq(key, "ghostty-dark") {
        Some("dark")
    } else if str_eq(key, "ghostty-rose-pine") {
        Some("rose-pine")
    } else if str_eq(key, "ghostty-rose-pine-moon") {
        Some("rose-pine-moon")
    } else if str_eq(key, "ghostty-tokyonight") {
        Some("tokyonight")
    } else {
        None
    }
}

/// Whether a catalog slug collides with a first-class name.
pub fn is_colliding_catalog_slug(slug: &str) -> (r: bool)
    ensures
        r == (colliding_config(slug@) is Some),
{
    colliding_config_key(slug).is_some()
}

/// Config name of a catalog scheme (`ghostty-<slug>` when reserved).
pub fn catalog_config_slug(scheme: &GhosttyScheme) -> (r: &str)
    ensures
        r@ == spec_config_slug(scheme.slug@),
{
    match colliding_config_key(scheme.slug.as_str()) {
        Some(key) => key,
        None => scheme.slug.as_str(),
    }
}

/// First-class built-ins, then every catalog index as [`ThemeKind::Ghostty`].
pub fn concrete_theme_kinds(catalog: &GhosttyCatalog) -> (r: Vec<ThemeKind>)
    ensures
        r@ == concrete_kinds(catalog@.len()),
{
    let mut out = ThemeKind::all();
    let n = catalog.len();
    let mut i: usize = 0;
    while i < n
        invariant
            n == catalog@.len(),
            n <= MAX_SCHEMES,
            i <= n,
            out@ == spec_all() + catalog_kinds(i as nat),
        decreases n - i,
    {
        out.push(ThemeKind::Ghostty(i as u16));
        i = i + 1;
        assert(out@ =~= spec_all() + catalog_kinds(i as nat));
    }
    out
}

/// Every kind selectable on a truecolor terminal.
pub fn build_full_available(catalog: &GhosttyCatalog) -> (r: Vec<ThemeKind>)
    ensures
        r@ == concrete_kinds(catalog@.len()),
{
    concrete_theme_kinds(catalog)
}

/// Picker rows of every concrete kind, in [`concrete_theme_kinds`] order.
pub fn concrete_picker_rows<'a>(catalog: &'a GhosttyCatalog) -> (r: Vec<ThemePickerRow<'a>>)
    ensures
        rows_describe(r@, concrete_kinds(catalog@.len()), catalog@),
{
    let kinds = concrete_theme_kinds(catalog);
    let mut out: Vec<ThemePickerRow<'a>> = Vec::new();
    let mut i: usize = 0;
    while i < kinds.len()
        invariant
            kinds@ == concrete_kinds(catalog@.len()),
            i <= kinds.len(),
            rows_describe(out@, kinds@.take(i as int), catalog@),
        decreases kinds.len() - i,
    {
        let kind = kinds[i];
        out.push(ThemePickerRow {
            canonical: kind.display_name(catalog),
            display: kind.label(catalog),
            description: kind.description(),
        });
        i = i + 1;
        assert(kinds@.take(i as int) =~= kinds@.take(i - 1).push(kind));
    }
    assert(kinds@.take(kinds.len() as int) =~= kinds@);
    out
}

impl ThemeKind {
    /// First-class built-in themes (excluding `Auto` and the catalog).
    pub fn all() -> (r: Vec<ThemeKind>)
        ensures
            r@ == spec_all(),
    {
        let r = vec![
            ThemeKind::GrokNight,
            ThemeKind::GrokDay,
            ThemeKind::TokyoNight,
            ThemeKind::RosePineMoon,
            ThemeKind::OscuraMidnight,
            ThemeKind::Sakura,
            ThemeKind::Aurora,
        ];
        assert(r@ =~= spec_all());
        r
    }

    /// Number of catalog schemes shown in pickers; every catalog index fits
    /// in `Ghostty(u16)`.
    pub fn catalog_picker_count(catalog: &GhosttyCatalog) -> (n: usize)
        ensures
            n == catalog@.len(),
            n <= MAX_SCHEMES,
    {
        catalog.len()
    }

    /// Map a catalog index to a kind (or [`ThemeKind::GrokNight`] if out of range).
    pub fn from_catalog_index(catalog: &GhosttyCatalog, index: u16) -> (k: ThemeKind)
        ensures
            k == spec_from_catalog_index(catalog@.len(), index),
    {
        if (index as usize) < catalog.len() {
            ThemeKind::Ghostty(index)
        } else {
            ThemeKind::GrokNight
        }
    }

    /// Kinds selectable on a terminal: only Grok Night / Grok Day without
    /// truecolor; with truecolor, the built-ins first, then the full catalog.
    pub fn available(catalog: &GhosttyCatalog, has_truecolor: bool) -> (r: Vec<ThemeKind>)
        ensures
            r@ == (if has_truecolor {
                concrete_kinds(catalog@.len())
            } else {
                seq![ThemeKind::GrokNight, ThemeKind::GrokDay]
            }),
    {
        if !has_truecolor {
            let r = vec![ThemeKind::GrokNight, ThemeKind::GrokDay];
            assert(r@ =~= seq![ThemeKind::GrokNight, ThemeKind::GrokDay]);
            return r;
        }
        build_full_available(catalog)
    }

    /// Settings / config picker: `auto` then every concrete theme (no
    /// truecolor filter).
    pub fn settings_theme_rows<'a>(catalog: &'a GhosttyCatalog) -> (r: Vec<ThemePickerRow<'a>>)
        ensures
            r.len() >= 1,
            is_auto_row(r@[0]),
            rows_describe(r@.drop_first(), concrete_kinds(catalog@.len()), catalog@),
    {
        let mut out: Vec<ThemePickerRow<'a>> = Vec::new();
        out.push(ThemePickerRow {
            canonical: "auto",
            display: "Auto",
            description: "Follow system dark/light appearance.",
        });
        let rows = concrete_picker_rows(catalog);
        let mut i: usize = 0;
        while i < rows.len()
            invariant
                i <= rows.len(),
                out.len() == i + 1,
                is_auto_row(out@[0]),
                forall|j: int| 0 <= j < i ==> out@[j + 1] == rows@[j],
            decreases rows.len() - i,
        {
            out.push(rows[i]);
            i = i + 1;
        }
        assert(out@.drop_first() =~= rows@);
        out
    }

    /// Concrete themes only (settings `auto_dark` / `auto_light`, no `auto` row).
    pub fn settings_concrete_theme_rows<'a>(catalog: &'a GhosttyCatalog) -> (r: Vec<ThemePickerRow<'a>>)
        ensures
            rows_describe(r@, concrete_kinds(catalog@.len()), catalog@),
    {
        let all = Self::settings_theme_rows(catalog);
        let mut out: Vec<ThemePickerRow<'a>> = Vec::new();
        let mut i: usize = 1;
        while i < all.len()
            invariant
                1 <= i <= all.len(),
                out@ == all@.subrange(1, i as int),
            decreases all.len() - i,
        {
            out.push(all[i]);
            i = i + 1;
            assert(out@ =~= all@.subrange(1, i as int));
        }
        assert(out@ =~= all@.drop_first());
        out
    }

    /// Config / slash canonical name (slug).
    pub fn display_name<'a>(self, catalog: &'a GhosttyCatalog) -> (r: &'a str)
        ensures
            r@ == spec_display_name(self, catalog@),
    {
        match self {
            ThemeKind::GrokNight => "groknight",
            ThemeKind::TokyoNight => "tokyonight",
            ThemeKind::GrokDay => "grokday",
            ThemeKind::RosePineMoon => "rosepine-moon",
            ThemeKind::OscuraMidnight => "oscura-midnight",
            ThemeKind::Sakura => "sakura",
            ThemeKind::Aurora => "aurora",
            ThemeKind::Auto => "auto",
            ThemeKind::Ghostty(i) => match catalog.get(i as usize) {
                Some(s) => catalog_config_slug(s),
                None => "groknight",
            },
        }
    }

    /// Human label for pickers (may contain spaces).
    pub fn label<'a>(self, catalog: &'a GhosttyCatalog) -> (r: &'a str)
        ensures
            r@ == spec_label(self, catalog@),
    {
        match self {
            ThemeKind::GrokNight => "Grok Night",
            ThemeKind::GrokDay => "Grok Day",
            ThemeKind::TokyoNight => "Tokyo Night",
            ThemeKind::RosePineMoon => "Rose Pine Moon",
            ThemeKind::OscuraMidnight => "Oscura Midnight",
            ThemeKind::Sakura => "Sakura",
            ThemeKind::Aurora => "Aurora",
            ThemeKind::Auto => "Auto",
            ThemeKind::Ghostty(i) => match catalog.get(i as usize) {
                Some(s) => s.display.as_str(),
                None => "Grok Night",
            },
        }
    }

    /// Short description for settings chooser sub-text.
    pub fn description(self) -> (r: &'static str)
        ensures
            r@ == spec_description(self),
    {
        match self {
            ThemeKind::Auto => "Follow system dark/light appearance.",
            ThemeKind::GrokNight => "Neutral dark with magenta accent.",
            ThemeKind::GrokDay => "Light theme for bright environments.",
            ThemeKind::TokyoNight => "Dark + blue-tinted; needs truecolor.",
            ThemeKind::RosePineMoon => "Muted dark with mauve accents; needs truecolor.",
            ThemeKind::OscuraMidnight => "Deep dark with warm accents; needs truecolor.",
            ThemeKind::Sakura => "Ghostty Sakura — dark plum with magenta blossom; needs truecolor.",
            ThemeKind::Aurora => "Ghostty Aurora — dark slate with amber/cyan accents; needs truecolor.",
            ThemeKind::Ghostty(_) => "Ghostty terminal color scheme; needs truecolor.",
        }
    }

    /// Whether this theme requires truecolor (24-bit RGB) to look correct.
    pub fn requires_truecolor(self) -> (r: bool)
        ensures
            r == !(self == ThemeKind::GrokNight || self == ThemeKind::GrokDay || self == ThemeKind::Auto),
    {
        match self {
            ThemeKind::GrokNight | ThemeKind::GrokDay | ThemeKind::Auto => false,
            ThemeKind::TokyoNight
            | ThemeKind::RosePineMoon
            | ThemeKind::OscuraMidnight
            | ThemeKind::Sakura
            | ThemeKind::Aurora
            | ThemeKind::Ghostty(_) => true,
        }
    }

    /// Parse a theme name (case-insensitive).
    pub fn from_name(catalog: &GhosttyCatalog, name: &str) -> (r: Option<ThemeKind>)
        ensures
            r == spec_from_name(catalog@, name@),
    {
        let lower = to_lowercase(name);
        match first_class_alias(lower.as_str()) {
            Some(k) => Some(k),
            None => Self::from_catalog_name(catalog, lower.as_str(), name),
        }
    }

    /// Resolve a catalog name (slug, `ghostty-*` config key, or display name).
    pub fn from_catalog_name(catalog: &GhosttyCatalog, lower: &str, typed: &str) -> (r: Option<ThemeKind>)
        ensures
            r == spec_from_catalog_name(catalog@, lower@, typed@),
    {
        match colliding_slug_for_config(lower) {
            Some(slug) => match catalog.scheme_by_slug(slug) {
                Some((i, _)) => Some(ThemeKind::Ghostty(i)),
                None => None,
            },
            None => match catalog.scheme_by_slug(lower) {
                Some((i, scheme)) => {
                    if is_colliding_catalog_slug(scheme.slug.as_str()) {
                        None
                    } else {
                        Some(ThemeKind::Ghostty(i))
                    }
                },
                None => match catalog.scheme_by_display(typed) {
                    Some((i, _)) => Some(ThemeKind::Ghostty(i)),
                    None => None,
                },
            },
        }
    }

    /// `from_name` as a `Result`.
    pub fn from_str(catalog: &GhosttyCatalog, s: &str) -> (r: Result<ThemeKind, ()>)
        ensures
            r == (match spec_from_name(catalog@, s@) {
                Some(k) => Ok(k),
                None => Err(()),
            }),
    {
        match Self::from_name(catalog, s) {
            Some(k) => Ok(k),
            None => Err(()),
        }
    }

    /// Whether this is the meta "auto" variant (resolved at runtime).
    pub fn is_auto(self) -> (r: bool)
        ensures
            r == (self == ThemeKind::Auto),
    {
        matches!(self, ThemeKind::Auto)
    }

    /// Unquantized palette for this kind.
    pub fn to_theme(self, catalog: &GhosttyCatalog, builtins: &BuiltinThemes) -> (t: Theme)
        ensures
            t == spec_to_theme(self, catalog@, *builtins),
    {
        match self {
            ThemeKind::GrokNight | ThemeKind::Auto => builtins.groknight,
            ThemeKind::GrokDay => builtins.grokday,
            ThemeKind::TokyoNight => builtins.tokyonight,
            ThemeKind::RosePineMoon => builtins.rosepine_moon,
            ThemeKind::OscuraMidnight => builtins.oscura_midnight,
            ThemeKind::Sakura => Theme::sakura(),
            ThemeKind::Aurora => Theme::aurora(),
            ThemeKind::Ghostty(i) => theme_from_ghostty_index(catalog, builtins, i),
        }
    }

    /// Designed dark/light polarity (cheap for catalog indices).
    pub fn is_dark(self, catalog: &GhosttyCatalog, builtins: &BuiltinThemes) -> (d: bool)
        ensures
            d == spec_kind_is_dark(self, catalog@, *builtins),
    {
        match self {
            ThemeKind::Ghostty(i) => catalog_index_is_dark(catalog, i),
            other => other.to_theme(catalog, builtins).is_dark(),
        }
    }

    /// Pack for the atomic theme cache.
    pub fn encode(self) -> (r: u32)
        ensures
            r == spec_encode(self),
    {
        match self {
            ThemeKind::GrokNight => 0,
            ThemeKind::GrokDay => 1,
            ThemeKind::TokyoNight => 2,
            ThemeKind::RosePineMoon => 3,
            ThemeKind::Auto => 4,
            ThemeKind::OscuraMidnight => 5,
            ThemeKind::Sakura => 6,
            ThemeKind::Aurora => 7,
            ThemeKind::Ghostty(i) => 0x8000_0000u32 | (i as u32),
        }
    }

    /// Unpack from the atomic theme cache.
    pub fn decode(catalog: &GhosttyCatalog, raw: u32) -> (k: ThemeKind)
        ensures
            k == spec_decode(catalog@.len(), raw),
    {
        if raw & 0x8000_0000u32 != 0 {
            let i = (raw & 0xFFFFu32) as u16;
            return Self::from_catalog_index(catalog, i);
        }
        match raw {
            0 => ThemeKind::GrokNight,
            1 => ThemeKind::GrokDay,
            2 => ThemeKind::TokyoNight,
            3 => ThemeKind::RosePineMoon,
            4 => ThemeKind::Auto,
            5 => ThemeKind::OscuraMidnight,
            6 => ThemeKind::Sakura,
            7 => ThemeKind::Aurora,
            _ => ThemeKind::GrokNight,
        }
    }
}

/// Decoding the cache code of a kind gives the kind back, for every kind
/// that names a theme of the catalog (a catalog index past its end decodes
/// to Grok Night instead).
pub proof fn lemma_decode_encode(k: ThemeKind, n: nat)
    requires
        kind_in_catalog(k, n),
    ensures
        spec_decode(n, spec_encode(k)) == k,
{
    match k {
        ThemeKind::Ghostty(i) => {
            let raw = 0x8000_0000u32 | (i as u32);
            assert(raw & 0x8000_0000u32 != 0) by (bit_vector)
                requires raw == 0x8000_0000u32 | (i as u32);
            assert((raw & 0xFFFFu32) as u16 == i) by (bit_vector)
                requires raw == 0x8000_0000u32 | (i as u32);
        },
        _ => {
            let raw = spec_encode(k);
            assert(raw <= 7);
            assert(raw & 0x8000_0000u32 == 0) by (bit_vector)
                requires raw <= 7u32;
        },
    }
}

/// Distinct kinds have distinct cache codes.
pub proof fn lemma_encode_injective(a: ThemeKind, b: ThemeKind)
    requires
        spec_encode(a) == spec_encode(b),
    ensures
        a == b,
{
    let n: nat = 65536;
    assert(kind_in_catalog(a, n));
    assert(kind_in_catalog(b, n));
    lemma_decode_encode(a, n);
    lemma_decode_encode(b, n);
}

/// `Auto` is neither a built-in nor a catalog kind, so no kind list or
/// picker derived from the concrete kinds holds it.
pub proof fn lemma_concrete_kinds_exclude_auto(n: nat)
    ensures
        !spec_all().contains(ThemeKind::Auto),
        !concrete_kinds(n).contains(ThemeKind::Auto),
        !seq![ThemeKind::GrokNight, ThemeKind::GrokDay].contains(ThemeKind::Auto),
{
    assert(forall|i: int| 0 <= i < spec_all().len() ==> spec_all()[i] != ThemeKind::Auto);
    assert forall|i: int| 0 <= i < concrete_kinds(n).len() implies concrete_kinds(n)[i] != ThemeKind::Auto by {
        if i >= 7 {
            assert(concrete_kinds(n)[i] == catalog_kinds(n)[i - 7]);
        }
    }
    let two = seq![ThemeKind::GrokNight, ThemeKind::GrokDay];
    assert(forall|i: int| 0 <= i < two.len() ==> two[i] != ThemeKind::Auto);
}

/// The characters of every first-class name and alias.
proof fn lemma_first_class_names_revealed()
    ensures
        "aurora"@ == seq!['a', 'u', 'r', 'o', 'r', 'a'],
        "auto"@ == seq!['a', 'u', 't', 'o'],
        "cherry"@ == seq!['c', 'h', 'e', 'r', 'r', 'y'],
        "cherry-blossom"@ == seq!['c', 'h', 'e', 'r', 'r', 'y', '-', 'b', 'l', 'o', 's', 's', 'o', 'm'],
        "dark"@ == seq!['d', 'a', 'r', 'k'],
        "day"@ == seq!['d', 'a', 'y'],
        "grok-day"@ == seq!['g', 'r', 'o', 'k', '-', 'd', 'a', 'y'],
        "grok-night"@ == seq!['g', 'r', 'o', 'k', '-', 'n', 'i', 'g', 'h', 't'],
        "grokday"@ == seq!['g', 'r', 'o', 'k', 'd', 'a', 'y'],
        "groknight"@ == seq!['g', 'r', 'o', 'k', 'n', 'i', 'g', 'h', 't'],
        "light"@ == seq!['l', 'i', 'g', 'h', 't'],
        "northern-lights"@ == seq!['n', 'o', 'r', 't', 'h', 'e', 'r', 'n', '-', 'l', 'i', 'g', 'h', 't', 's'],
        "oscura"@ == seq!['o', 's', 'c', 'u', 'r', 'a'],
        "oscura-midnight"@ == seq!['o', 's', 'c', 'u', 'r', 'a', '-', 'm', 'i', 'd', 'n', 'i', 'g', 'h', 't'],
        "rose-pine"@ == seq!['r', 'o', 's', 'e', '-', 'p', 'i', 'n', 'e'],
        "rose-pine-moon"@ == seq!['r', 'o', 's', 'e', '-', 'p', 'i', 'n', 'e', '-', 'm', 'o', 'o', 'n'],
        "rosepine"@ == seq!['r', 'o', 's', 'e', 'p', 'i', 'n', 'e'],
        "rosepine-moon"@ == seq!['r', 'o', 's', 'e', 'p', 'i', 'n', 'e', '-', 'm', 'o', 'o', 'n'],
        "sakura"@ == seq!['s', 'a', 'k', 'u', 'r', 'a'],
        "system"@ == seq!['s', 'y', 's', 't', 'e', 'm'],
        "tokyo"@ == seq!['t', 'o', 'k', 'y', 'o'],
        "tokyo-night"@ == seq!['t', 'o', 'k', 'y', 'o', '-', 'n', 'i', 'g', 'h', 't'],
        "tokyonight"@ == seq!['t', 'o', 'k', 'y', 'o', 'n', 'i', 'g', 'h', 't'],
{
    reveal_strlit("aurora");
    reveal_strlit("auto");
    reveal_strlit("cherry");
    reveal_strlit("cherry-blossom");
    reveal_strlit("dark");
    reveal_strlit("day");
    reveal_strlit("grok-day");
    reveal_strlit("grok-night");
    reveal_strlit("grokday");
    reveal_strlit("groknight");
    reveal_strlit("light");
    reveal_strlit("northern-lights");
    reveal_strlit("oscura");
    reveal_strlit("oscura-midnight");
    reveal_strlit("rose-pine");
    reveal_strlit("rose-pine-moon");
    reveal_strlit("rosepine");
    reveal_strlit("rosepine-moon");
    reveal_strlit("sakura");
    reveal_strlit("system");
    reveal_strlit("tokyo");
    reveal_strlit("tokyo-night");
    reveal_strlit("tokyonight");
}

/// The characters of every `ghostty-` config key of a colliding slug.
proof fn lemma_colliding_keys_revealed()
    ensures
        "ghostty-dark"@ == seq!['g', 'h', 'o', 's', 't', 't', 'y', '-', 'd', 'a', 'r', 'k'],
        "ghostty-rose-pine"@ == seq!['g', 'h', 'o', 's', 't', 't', 'y', '-', 'r', 'o', 's', 'e', '-', 'p', 'i', 'n', 'e'],
        "ghostty-rose-pine-moon"@ == seq!['g', 'h', 'o', 's', 't', 't', 'y', '-', 'r', 'o', 's', 'e', '-', 'p', 'i', 'n', 'e', '-', 'm', 'o', 'o', 'n'],
        "ghostty-tokyonight"@ == seq!['g', 'h', 'o', 's', 't', 't', 'y', '-', 't', 'o', 'k', 'y', 'o', 'n', 'i', 'g', 'h', 't'],
{
    reveal_strlit("ghostty-dark");
    reveal_strlit("ghostty-rose-pine");
    reveal_strlit("ghostty-rose-pine-moon");
    reveal_strlit("ghostty-tokyonight");
}

/// A name made of lowercase ASCII letters and hyphens is its own lowercase.
pub proof fn lemma_plain_name_lowercase(s: Seq<char>)
    requires
        forall|i: int| 0 <= i < s.len() ==> ('a' <= #[trigger] s[i] && s[i] <= 'z') || s[i] == '-',
    ensures
        spec_to_lowercase(s) == s,
{
    assert(is_ascii_chars(s));
    lemma_ascii_lowercase_identity(s);
}

/// `groknight` is its own lowercase and the first-class alias of `GrokNight`.
pub proof fn lemma_name_groknight()
    ensures
        spec_to_lowercase("groknight"@) == "groknight"@,
        spec_first_class_alias("groknight"@) == Some(ThemeKind::GrokNight),
{
    lemma_first_class_names_revealed();
    assert("groknight"@[0] != "rose-pine"@[0]);
    lemma_plain_name_lowercase("groknight"@);
}

/// `tokyonight` is its own lowercase and the first-class alias of `TokyoNight`.
pub proof fn lemma_name_tokyonight()
    ensures
        spec_to_lowercase("tokyonight"@) == "tokyonight"@,
        spec_first_class_alias("tokyonight"@) == Some(ThemeKind::TokyoNight),
{
    lemma_first_class_names_revealed();
    assert("tokyonight"@[0] != "grok-night"@[0]);
    lemma_plain_name_lowercase("tokyonight"@);
}

/// `grokday` is its own lowercase and the first-class alias of `GrokDay`.
pub proof fn lemma_name_grokday()
    ensures
        spec_to_lowercase("grokday"@) == "grokday"@,
        spec_first_class_alias("grokday"@) == Some(ThemeKind::GrokDay),
{
    lemma_first_class_names_revealed();

    lemma_plain_name_lowercase("grokday"@);
}

/// `rosepine-moon` is its own lowercase and the first-class alias of `RosePineMoon`.
pub proof fn lemma_name_rosepine_moon()
    ensures
        spec_to_lowercase("rosepine-moon"@) == "rosepine-moon"@,
        spec_first_class_alias("rosepine-moon"@) == Some(ThemeKind::RosePineMoon),
{
    lemma_first_class_names_revealed();

    lemma_plain_name_lowercase("rosepine-moon"@);
}

/// `oscura-midnight` is its own lowercase and the first-class alias of `OscuraMidnight`.
pub proof fn lemma_name_oscura_midnight()
    ensures
        spec_to_lowercase("oscura-midnight"@) == "oscura-midnight"@,
        spec_first_class_alias("oscura-midnight"@) == Some(ThemeKind::OscuraMidnight),
{
    lemma_first_class_names_revealed();
    assert("oscura-midnight"@[0] != "northern-lights"@[0]);
    lemma_plain_name_lowercase("oscura-midnight"@);
}

/// `sakura` is its own lowercase and the first-class alias of `Sakura`.
pub proof fn lemma_name_sakura()
    ensures
        spec_to_lowercase("sakura"@) == "sakura"@,
        spec_first_class_alias("sakura"@) == Some(ThemeKind::Sakura),
{
    lemma_first_class_names_revealed();
    assert("sakura"@[1] != "system"@[1]);
    assert("sakura"@[0] != "oscura"@[0]);
    assert("sakura"@[0] != "cherry"@[0]);
    assert("sakura"@[0] != "aurora"@[0]);
    lemma_plain_name_lowercase("sakura"@);
}

/// `aurora` is its own lowercase and the first-class alias of `Aurora`.
pub proof fn lemma_name_aurora()
    ensures
        spec_to_lowercase("aurora"@) == "aurora"@,
        spec_first_class_alias("aurora"@) == Some(ThemeKind::Aurora),
{
    lemma_first_class_names_revealed();
    assert("aurora"@[0] != "system"@[0]);
    assert("aurora"@[0] != "oscura"@[0]);
    assert("aurora"@[0] != "sakura"@[0]);
    assert("aurora"@[0] != "cherry"@[0]);
    lemma_plain_name_lowercase("aurora"@);
}

/// `auto` is its own lowercase and the first-class alias of `Auto`.
pub proof fn lemma_name_auto()
    ensures
        spec_to_lowercase("auto"@) == "auto"@,
        spec_first_class_alias("auto"@) == Some(ThemeKind::Auto),
{
    lemma_first_class_names_revealed();
    assert("auto"@[0] != "dark"@[0]);
    lemma_plain_name_lowercase("auto"@);
}

/// `ghostty-dark` is its own lowercase, no first-class alias, and the config
/// key of the catalog slug `dark`.
pub proof fn lemma_key_ghostty_dark()
    ensures
        spec_to_lowercase("ghostty-dark"@) == "ghostty-dark"@,
        spec_first_class_alias("ghostty-dark"@) is None,
        colliding_slug_of_config("ghostty-dark"@) == Some("dark"@),
{
    lemma_first_class_names_revealed();
    lemma_colliding_keys_revealed();

    lemma_plain_name_lowercase("ghostty-dark"@);
}

/// `ghostty-rose-pine` is its own lowercase, no first-class alias, and the config
/// key of the catalog slug `rose-pine`.
pub proof fn lemma_key_ghostty_rose_pine()
    ensures
        spec_to_lowercase("ghostty-rose-pine"@) == "ghostty-rose-pine"@,
        spec_first_class_alias("ghostty-rose-pine"@) is None,
        colliding_slug_of_config("ghostty-rose-pine"@) == Some("rose-pine"@),
{
    lemma_first_class_names_revealed();
    lemma_colliding_keys_revealed();

    lemma_plain_name_lowercase("ghostty-rose-pine"@);
}

/// `ghostty-rose-pine-moon` is its own lowercase, no first-class alias, and the config
/// key of the catalog slug `rose-pine-moon`.
pub proof fn lemma_key_ghostty_rose_pine_moon()
    ensures
        spec_to_lowercase("ghostty-rose-pine-moon"@) == "ghostty-rose-pine-moon"@,
        spec_first_class_alias("ghostty-rose-pine-moon"@) is None,
        colliding_slug_of_config("ghostty-rose-pine-moon"@) == Some("rose-pine-moon"@),
{
    lemma_first_class_names_revealed();
    lemma_colliding_keys_revealed();

    lemma_plain_name_lowercase("ghostty-rose-pine-moon"@);
}

/// `ghostty-tokyonight` is its own lowercase, no first-class alias, and the config
/// key of the catalog slug `tokyonight`.
pub proof fn lemma_key_ghostty_tokyonight()
    ensures
        spec_to_lowercase("ghostty-tokyonight"@) == "ghostty-tokyonight"@,
        spec_first_class_alias("ghostty-tokyonight"@) is None,
        colliding_slug_of_config("ghostty-tokyonight"@) == Some("tokyonight"@),
{
    lemma_first_class_names_revealed();
    lemma_colliding_keys_revealed();

    lemma_plain_name_lowercase("ghostty-tokyonight"@);
}

/// Each colliding catalog slug has its `ghostty-` config key.
pub proof fn lemma_colliding_slugs()
    ensures
        colliding_config("dark"@) == Some("ghostty-dark"@),
        colliding_config("rose-pine"@) == Some("ghostty-rose-pine"@),
        colliding_config("rose-pine-moon"@) == Some("ghostty-rose-pine-moon"@),
        colliding_config("tokyonight"@) == Some("ghostty-tokyonight"@),
{
    assert(colliding_config("dark"@) == Some("ghostty-dark"@)) by {
        reveal_strlit("dark");
        assert("dark"@.len() == 4);
    }
    assert(colliding_config("rose-pine"@) == Some("ghostty-rose-pine"@)) by {
        reveal_strlit("dark");
        assert("dark"@.len() == 4);
        reveal_strlit("rose-pine");
        assert("rose-pine"@.len() == 9);
    }
    assert(colliding_config("rose-pine-moon"@) == Some("ghostty-rose-pine-moon"@)) by {
        reveal_strlit("dark");
        assert("dark"@.len() == 4);
        reveal_strlit("rose-pine");
        assert("rose-pine"@.len() == 9);
        reveal_strlit("rose-pine-moon");
        assert("rose-pine-moon"@.len() == 14);
    }
    assert(colliding_config("tokyonight"@) == Some("ghostty-tokyonight"@)) by {
        reveal_strlit("dark");
        assert("dark"@.len() == 4);
        reveal_strlit("rose-pine");
        assert("rose-pine"@.len() == 9);
        reveal_strlit("rose-pine-moon");
        assert("rose-pine-moon"@.len() == 14);
        reveal_strlit("tokyonight");
        assert("tokyonight"@.len() == 10);
    }
}

/// Naming rules of a catalog under which every scheme is reachable by its
/// config name: slugs are ASCII without uppercase letters, no two schemes
/// share a slug, a slug that is also a first-class name is one of the
/// declared colliding slugs, and no slug is itself a `ghostty-` config key.
pub open spec fn catalog_names_ok(c: Seq<GhosttyScheme>) -> bool {
    &&& forall|i: int| 0 <= i < c.len() ==> is_ascii_chars(#[trigger] c[i].slug@) && has_no_ascii_upper(c[i].slug@)
    &&& forall|i: int, j: int| 0 <= i < j < c.len() ==> #[trigger] c[i].slug@ != #[trigger] c[j].slug@
    &&& forall|i: int| 0 <= i < c.len() ==> (spec_first_class_alias(#[trigger] c[i].slug@) is Some
        ==> colliding_config(c[i].slug@) is Some)
    &&& forall|i: int| 0 <= i < c.len() ==> colliding_slug_of_config(#[trigger] c[i].slug@) is None
}

/// Whether a name is ASCII without uppercase letters.
fn is_lower_ascii_name(s: &str) -> (r: bool)
    ensures
        r == (is_ascii_chars(s@) && has_no_ascii_upper(s@)),
{
    if !s.is_ascii() {
        return false;
    }
    let n = s.unicode_len();
    let mut i: usize = 0;
    while i < n
        invariant
            n == s@.len(),
            i <= n,
            forall|j: int| 0 <= j < i ==> !('A' <= #[trigger] s@[j] && s@[j] <= 'Z'),
        decreases n - i,
    {
        let ch = s.get_char(i);
        if 'A' <= ch && ch <= 'Z' {
            assert(!has_no_ascii_upper(s@)) by {
                assert('A' <= s@[i as int] && s@[i as int] <= 'Z');
            }
            return false;
        }
        i = i + 1;
    }
    true
}

/// Whether `catalog` keeps the naming rules ([`catalog_names_ok`]): every
/// slug ASCII and lowercase, no slug repeated, every slug that is also a
/// first-class name declared as colliding, and no slug a `ghostty-` key.
pub fn catalog_names_valid(catalog: &GhosttyCatalog) -> (r: bool)
    ensures
        r == catalog_names_ok(catalog@),
{
    let n = catalog.len();
    let ghost c = catalog@;
    let mut i: usize = 0;
    while i < n
        invariant
            n == c.len(),
            c == catalog@,
            i <= n,
            forall|a: int| 0 <= a < i ==> is_ascii_chars(#[trigger] c[a].slug@) && has_no_ascii_upper(c[a].slug@),
            forall|a: int| 0 <= a < i ==> (spec_first_class_alias(#[trigger] c[a].slug@) is Some
                ==> colliding_config(c[a].slug@) is Some),
            forall|a: int| 0 <= a < i ==> colliding_slug_of_config(#[trigger] c[a].slug@) is None,
            forall|a: int, b: int| 0 <= a < b < n && a < i ==> #[trigger] c[a].slug@ != #[trigger] c[b].slug@,
        decreases n - i,
    {
        let scheme = catalog.get(i).unwrap();
        let slug = scheme.slug.as_str();
        assert(slug@ == c[i as int].slug@);
        if !is_lower_ascii_name(slug) {
            return false;
        }
        if first_class_alias(slug).is_some() && colliding_config_key(slug).is_none() {
            return false;
        }
        if colliding_slug_for_config(slug).is_some() {
            return false;
        }
        let mut j: usize = i + 1;
        while j < n
            invariant
                n == c.len(),
                c == catalog@,
                i < n,
                i < j <= n,
                slug@ == c[i as int].slug@,
                forall|b: int| i < b < j ==> c[i as int].slug@ != #[trigger] c[b].slug@,
            decreases n - j,
        {
            let other = catalog.get(j).unwrap();
            if str_eq(slug, other.slug.as_str()) {
                assert(c[i as int].slug@ == c[j as int].slug@);
                return false;
            }
            j = j + 1;
        }
        i = i + 1;
    }
    true
}

/// Under the naming rules, the canonical config name of every kind of the
/// catalog (and of `auto`) parses back to that kind.
pub proof fn lemma_display_name_parses_back(c: Seq<GhosttyScheme>, k: ThemeKind)
    requires
        c.len() <= MAX_SCHEMES,
        catalog_names_ok(c),
        kind_in_catalog(k, c.len()),
    ensures
        spec_from_name(c, spec_display_name(k, c)) == Some(k),
{
    match k {
        ThemeKind::GrokNight => lemma_name_groknight(),
        ThemeKind::TokyoNight => lemma_name_tokyonight(),
        ThemeKind::GrokDay => lemma_name_grokday(),
        ThemeKind::RosePineMoon => lemma_name_rosepine_moon(),
        ThemeKind::OscuraMidnight => lemma_name_oscura_midnight(),
        ThemeKind::Sakura => lemma_name_sakura(),
        ThemeKind::Aurora => lemma_name_aurora(),
        ThemeKind::Auto => lemma_name_auto(),
        ThemeKind::Ghostty(i) => {
            let slug = c[i as int].slug@;
            assert(is_ascii_chars(c[i as int].slug@));
            assert forall|j: int| 0 <= j < i implies c[j].slug@ != slug by {
                assert(c[j].slug@ != c[i as int].slug@);
            }
            lemma_find_slug_first(c, slug, i as int);
            lemma_colliding_slugs();
            if colliding_config(slug) is Some {
                if slug == "dark"@ {
                    lemma_key_ghostty_dark();
                } else if slug == "rose-pine"@ {
                    lemma_key_ghostty_rose_pine();
                } else if slug == "rose-pine-moon"@ {
                    lemma_key_ghostty_rose_pine_moon();
                } else if slug == "tokyonight"@ {
                    lemma_key_ghostty_tokyonight();
                }
            } else {
                lemma_ascii_lowercase_identity(slug);
                assert(spec_to_lowercase(slug) == slug);
                assert(colliding_slug_of_config(c[i as int].slug@) is None);
                assert(spec_first_class_alias(c[i as int].slug@) is None);
            }
        },
    }
}

/// Under the naming rules, every catalog slug names something: a slug that
/// does not collide names its own scheme; a colliding slug names the
/// first-class theme it is an alias of, and the scheme stays reachable by
/// its `ghostty-` config key.
pub proof fn lemma_catalog_slugs_resolve(c: Seq<GhosttyScheme>, i: int)
    requires
        c.len() <= MAX_SCHEMES,
        catalog_names_ok(c),
        0 <= i < c.len(),
    ensures
        spec_from_name(c, c[i].slug@) is Some,
        colliding_config(c[i].slug@) is None ==> spec_from_name(c, c[i].slug@) == Some(ThemeKind::Ghostty(i as u16)),
        colliding_config(c[i].slug@) is Some ==> {
            &&& spec_first_class_alias(c[i].slug@) is Some
            &&& spec_from_name(c, c[i].slug@) == spec_first_class_alias(c[i].slug@)
            &&& spec_from_name(c, spec_config_slug(c[i].slug@)) == Some(ThemeKind::Ghostty(i as u16))
        },
{
    let k = ThemeKind::Ghostty(i as u16);
    assert(kind_in_catalog(k, c.len()));
    lemma_display_name_parses_back(c, k);
    let slug = c[i].slug@;
    assert(is_ascii_chars(c[i].slug@) && has_no_ascii_upper(c[i].slug@));
    lemma_ascii_lowercase_identity(slug);
    assert(spec_to_lowercase(slug) == slug);
    if colliding_config(slug) is Some {
        lemma_first_class_names_revealed();
        lemma_colliding_slugs();
    }
}

/// Under the naming rules, every concrete picker kind parses back from its
/// canonical name, so each Settings row selects the kind it shows.
pub proof fn lemma_concrete_rows_parse_back(c: Seq<GhosttyScheme>)
    requires
        c.len() <= MAX_SCHEMES,
        catalog_names_ok(c),
    ensures
        forall|j: int| 0 <= j < concrete_kinds(c.len()).len() ==>
            spec_from_name(c, spec_display_name(#[trigger] concrete_kinds(c.len())[j], c))
                == Some(concrete_kinds(c.len())[j]),
{
    assert forall|j: int| 0 <= j < concrete_kinds(c.len()).len() implies
        spec_from_name(c, spec_display_name(#[trigger] concrete_kinds(c.len())[j], c))
            == Some(concrete_kinds(c.len())[j]) by {
        let k = concrete_kinds(c.len())[j];
        if j >= 7 {
            assert(k == catalog_kinds(c.len())[j - 7]);
        }
        assert(kind_in_catalog(k, c.len()));
        lemma_display_name_parses_back(c, k);
    }
}

/// The cheap polarity of a kind agrees with the polarity of its palette for
/// every kind of the catalog.
pub proof fn lemma_kind_is_dark_matches_palette(c: Seq<GhosttyScheme>, b: BuiltinThemes, k: ThemeKind)
    requires
        kind_in_catalog(k, c.len()),
    ensures
        spec_kind_is_dark(k, c, b) == theme_is_dark(spec_to_theme(k, c, b)),
{
    if let ThemeKind::Ghostty(i) = k {
        lemma_every_scheme_has_scrollbar_contrast(c[i as int]);
    }
}

/// With the built-in palettes at their designed polarities, the cheap
/// polarity of every kind agrees with the polarity of its palette, inside
/// the catalog or not.
pub proof fn lemma_every_kind_is_dark_matches_palette(c: Seq<GhosttyScheme>, b: BuiltinThemes, k: ThemeKind)
    requires
        builtin_polarities_ok(b),
    ensures
        spec_kind_is_dark(k, c, b) == theme_is_dark(spec_to_theme(k, c, b)),
{
    match k {
        ThemeKind::Ghostty(i) => {
            if (i as int) < c.len() {
                lemma_kind_is_dark_matches_palette(c, b, k);
            }
        },
        _ => {},
    }
}

/// With the built-in palettes at their designed polarities, `Auto` (which
/// stands for Grok Night until resolved) counts as dark, Grok Day as light,
/// and every other first-class kind as dark.
pub proof fn lemma_first_class_polarities(c: Seq<GhosttyScheme>, b: BuiltinThemes)
    requires
        builtin_polarities_ok(b),
    ensures
        spec_kind_is_dark(ThemeKind::Auto, c, b),
        !spec_kind_is_dark(ThemeKind::GrokDay, c, b),
        forall|j: int| 0 <= j < spec_all().len() && spec_all()[j] != ThemeKind::GrokDay
            ==> spec_kind_is_dark(#[trigger] spec_all()[j], c, b),
{
    lemma_first_class_ghostty_palettes_are_dark();
    assert forall|j: int| 0 <= j < spec_all().len() && spec_all()[j] != ThemeKind::GrokDay
        implies spec_kind_is_dark(#[trigger] spec_all()[j], c, b) by {
        let k = spec_all()[j];
        assert(k != ThemeKind::Auto && !(k is Ghostty));
    }
}

/// Every first-class kind resolves to its own palette: Grok Night (and
/// `Auto`, which stands for it until resolved), Grok Day, Tokyo Night, Rose
/// Pine Moon and Oscura Midnight to the matching built-in, Sakura and Aurora
/// to their hand-mapped palettes, and a catalog kind to its scheme's
/// palette (Grok Night past the catalog's end).
pub proof fn lemma_each_kind_resolves_to_its_palette(c: Seq<GhosttyScheme>, b: BuiltinThemes)
    ensures
        spec_to_theme(ThemeKind::GrokNight, c, b) == b.groknight,
        spec_to_theme(ThemeKind::Auto, c, b) == b.groknight,
        spec_to_theme(ThemeKind::GrokDay, c, b) == b.grokday,
        spec_to_theme(ThemeKind::TokyoNight, c, b) == b.tokyonight,
        spec_to_theme(ThemeKind::RosePineMoon, c, b) == b.rosepine_moon,
        spec_to_theme(ThemeKind::OscuraMidnight, c, b) == b.oscura_midnight,
        spec_to_theme(ThemeKind::Sakura, c, b) == spec_sakura(),
        spec_to_theme(ThemeKind::Aurora, c, b) == spec_aurora(),
        forall|i: u16| (i as int) < c.len() ==> #[trigger] spec_to_theme(ThemeKind::Ghostty(i), c, b)
            == spec_theme_from_ghostty(c[i as int]),
        forall|i: u16| (i as int) >= c.len() ==> #[trigger] spec_to_theme(ThemeKind::Ghostty(i), c, b) == b.groknight,
{
}

/// The first-class kinds offered in pickers are each listed once, and every
/// kind that is neither `Auto` nor a catalog kind is among them.
pub proof fn lemma_all_lists_each_first_class_kind_once()
    ensures
        spec_all().len() == 7,
        forall|i: int, j: int| 0 <= i < j < spec_all().len() ==> spec_all()[i] != spec_all()[j],
        forall|k: ThemeKind| !(k is Auto) && !(k is Ghostty) ==> #[trigger] spec_all().contains(k),
        !spec_all().contains(ThemeKind::Auto),
        forall|i: int| 0 <= i < spec_all().len() ==> !(spec_all()[i] is Ghostty),
{
    let a = spec_all();
    assert forall|k: ThemeKind| !(k is Auto) && !(k is Ghostty) implies #[trigger] a.contains(k) by {
        match k {
            ThemeKind::GrokNight => assert(a[0] == k),
            ThemeKind::GrokDay => assert(a[1] == k),
            ThemeKind::TokyoNight => assert(a[2] == k),
            ThemeKind::RosePineMoon => assert(a[3] == k),
            ThemeKind::OscuraMidnight => assert(a[4] == k),
            ThemeKind::Sakura => assert(a[5] == k),
            ThemeKind::Aurora => assert(a[6] == k),
            _ => {},
        }
    }
}

/// Sakura and Aurora are dark palettes whose design canvas is their body
/// paint.
pub proof fn lemma_first_class_ghostty_palettes_are_dark()
    ensures
        theme_is_dark(spec_sakura()),
        theme_is_dark(spec_aurora()),
        spec_sakura().canvas == spec_sakura().bg_base,
        spec_aurora().canvas == spec_aurora().bg_base,
{
    assert(is_dark_rgb((24u8, 19u8, 30u8)));
    assert(is_dark_rgb((35u8, 38u8, 46u8)));
}

} // verus!
