//! Theme identity, palette mapping and paint-mode rules for a terminal pager,
//! with the coalescing rules of the transparency setting and the merge rules
//! of the user configuration file.

pub mod color;
pub mod polarity;
pub mod theme;
pub mod palettes;
pub mod canvas;
pub mod text;
pub mod catalog;
pub mod ghostty;
pub mod kind;
pub mod transparency;
pub mod command;
pub mod configmerge;
pub mod configfile;
pub mod menu;
pub mod highlight;
