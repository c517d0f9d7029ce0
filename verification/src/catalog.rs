//! The Ghostty / iTerm2 terminal-scheme catalog.
//!
//! A terminal scheme defines only the canvas, text, cursor and selection
//! colors plus the sixteen ANSI slots; [`crate::ghostty`] expands one into a
//! full pager palette. The catalog is an indexed list of schemes; a
//! [`crate::kind::ThemeKind::Ghostty`] kind names a scheme by its index.

use vstd::prelude::*;
use crate::color::Rgb;
use crate::text::str_eq;

verus! {

/// One terminal color scheme.
#[derive(Debug)]
pub struct GhosttyScheme {
    /// Lowercase config name (`dracula`, `github-light-default`, ...).
    pub slug: String,
    /// Human name for pickers (`Dracula`, `Dark+`, ...).
    pub display: String,
    pub background: Rgb,
    pub foreground: Rgb,
    pub cursor: Rgb,
    pub selection_background: Rgb,
    pub selection_foreground: Rgb,
    /// ANSI slots 0–15: black, red, green, yellow, blue, magenta, cyan,
    /// white, then the bright variants in the same order.
    pub palette: [Rgb; 16],
}

/// Largest number of schemes a catalog holds: every index fits a `u16`.
pub const MAX_SCHEMES: usize = 65535;

/// An indexed list of at most [`MAX_SCHEMES`] schemes.
pub struct GhosttyCatalog {
    schemes: Vec<GhosttyScheme>,
}

/// Index of the first scheme at or after `from` whose slug is `slug`.
pub open spec fn find_slug(s: Seq<GhosttyScheme>, slug: Seq<char>, from: int) -> Option<int>
    decreases s.len() - from,
{
    if from < 0 || from >= s.len() {
        None
    } else if s[from].slug@ == slug {
        Some(from)
    } else {
        find_slug(s, slug, from + 1)
    }
}

/// Index of the first scheme at or after `from` whose display name is `display`.
pub open spec fn find_display(s: Seq<GhosttyScheme>, display: Seq<char>, from: int) -> Option<int>
    decreases s.len() - from,
{
    if from < 0 || from >= s.len() {
        None
    } else if s[from].display@ == display {
        Some(from)
    } else {
        find_display(s, display, from + 1)
    }
}

/// `find_slug` from `from` finds the first matching index, or none when no
/// index at or after `from` matches.
pub proof fn lemma_find_slug(s: Seq<GhosttyScheme>, slug: Seq<char>, from: int)
    requires
        0 <= from,
    ensures
        match find_slug(s, slug, from) {
            Some(i) => from <= i < s.len() && s[i].slug@ == slug
                && forall|j: int| from <= j < i ==> s[j].slug@ != slug,
            None => forall|j: int| from <= j < s.len() ==> s[j].slug@ != slug,
        },
    decreases s.len() - from,
{
    if from < s.len() && s[from].slug@ != slug {
        lemma_find_slug(s, slug, from + 1);
    }
}

/// `find_display` from `from` finds the first matching index, or none.
pub proof fn lemma_find_display(s: Seq<GhosttyScheme>, display: Seq<char>, from: int)
    requires
        0 <= from,
    ensures
        match find_display(s, display, from) {
            Some(i) => from <= i < s.len() && s[i].display@ == display
                && forall|j: int| from <= j < i ==> s[j].display@ != display,
            None => forall|j: int| from <= j < s.len() ==> s[j].display@ != display,
        },
    decreases s.len() - from,
{
    if from < s.len() && s[from].display@ != display {
        lemma_find_display(s, display, from + 1);
    }
}

/// A slug that occurs at index `i` and nowhere before it is found at `i`.
pub proof fn lemma_find_slug_first(s: Seq<GhosttyScheme>, slug: Seq<char>, i: int)
    requires
        0 <= i < s.len(),
        s[i].slug@ == slug,
        forall|j: int| 0 <= j < i ==> s[j].slug@ != slug,
    ensures
        find_slug(s, slug, 0) == Some(i),
{
    lemma_find_slug(s, slug, 0);
}

impl View for GhosttyCatalog {
    type V = Seq<GhosttyScheme>;

    closed spec fn view(&self) -> Seq<GhosttyScheme> {
        self.schemes@
    }
}

impl GhosttyCatalog {
    #[verifier::type_invariant]
    spec fn inv(self) -> bool {
        self.schemes.len() <= MAX_SCHEMES
    }

    /// A catalog holding `schemes` in order, or `None` when there are more
    /// than [`MAX_SCHEMES`] of them.
    pub fn new(schemes: Vec<GhosttyScheme>) -> (r: Option<GhosttyCatalog>)
        ensures
            schemes.len() <= MAX_SCHEMES <==> r is Some,
            r matches Some(c) ==> c@ == schemes@,
    {
        if schemes.len() <= MAX_SCHEMES {
            Some(GhosttyCatalog { schemes })
        } else {
            None
        }
    }

    /// Number of schemes.
    pub fn len(&self) -> (n: usize)
        ensures
            n == self@.len(),
            n <= MAX_SCHEMES,
    {
        proof {
            use_type_invariant(self);
        }
        self.schemes.len()
    }

    /// The scheme at `index`, if any.
    pub fn get(&self, index: usize) -> (r: Option<&GhosttyScheme>)
        ensures
            index < self@.len() <==> r is Some,
            r matches Some(s) ==> *s == self@[index as int],
    {
        if index < self.schemes.len() {
            Some(&self.schemes[index])
        } else {
            None
        }
    }

    /// The first scheme whose slug is `slug`, with its index.
    pub fn scheme_by_slug(&self, slug: &str) -> (r: Option<(u16, &GhosttyScheme)>)
        ensures
            match find_slug(self@, slug@, 0) {
                Some(i) => r matches Some((j, s)) && j == i && *s == self@[i],
                None => r is None,
            },
    {
        proof {
            use_type_invariant(self);
            lemma_find_slug(self@, slug@, 0);
        }
        let n = self.schemes.len();
        let mut i: usize = 0;
        while i < n
            invariant
                n == self@.len(),
                n <= MAX_SCHEMES,
                i <= n,
                find_slug(self@, slug@, 0) == find_slug(self@, slug@, i as int),
            decreases n - i,
        {
            if str_eq(self.schemes[i].slug.as_str(), slug) {
                return Some((i as u16, &self.schemes[i]));
            }
            i = i + 1;
        }
        None
    }

    /// The first scheme whose display name is `display`, with its index.
    pub fn scheme_by_display(&self, display: &str) -> (r: Option<(u16, &GhosttyScheme)>)
        ensures
            match find_display(self@, display@, 0) {
                Some(i) => r matches Some((j, s)) && j == i && *s == self@[i],
                None => r is None,
            },
    {
        proof {
            use_type_invariant(self);
        }
        let n = self.schemes.len();
        let mut i: usize = 0;
        while i < n
            invariant
                n == self@.len(),
                n <= MAX_SCHEMES,
                i <= n,
                find_display(self@, display@, 0) == find_display(self@, display@, i as int),
            decreases n - i,
        {
            if str_eq(self.schemes[i].display.as_str(), display) {
                return Some((i as u16, &self.schemes[i]));
            }
            i = i + 1;
        }
        None
    }
}

} // verus!
