//! Layout of the welcome menu: how wide the centered menu column is, which
//! items get a row, where each row's shortcut sits flush right, and where the
//! `[x]` dismiss affordance of a shortcut lies and whether the mouse is on it.
//!
//! Widths are byte lengths kept to 16 bits, as the terminal cell grid is
//! addressed with `u16` coordinates.

use vstd::prelude::*;
use vstd::string::StringSliceAdditionalSpecFns;
use ratatui::layout::{Constraint, Flex, Layout, Rect};

verus! {

/// The narrowest menu column.
pub const MENU_MIN_WIDTH: u16 = 30;

/// Cells kept between an item's label and its shortcut.
pub const MENU_KEY_GAP: usize = 4;

/// A rectangle of terminal cells.
#[derive(Clone, Copy, Debug, PartialEq, Eq, Structural)]
pub struct MenuRect {
    pub x: u16,
    pub y: u16,
    pub width: u16,
    pub height: u16,
}

/// Where a row's `[x]` dismiss affordance starts, and whether the mouse is
/// over one of its three cells.
#[derive(Clone, Copy, Debug, PartialEq, Eq, Structural)]
pub struct DismissCue {
    pub start: u16,
    pub hovered: bool,
}

/// One painted row of the menu: the row rectangle (the label starts at its
/// left edge), the column where the shortcut starts, the widths of shortcut
/// and label, the dismiss affordance if the shortcut holds `[x]`, and
/// whether the row is the selected one.
#[derive(Clone, Copy, Debug, PartialEq, Eq)]
pub struct MenuRow {
    pub rect: MenuRect,
    pub key_x: u16,
    pub key_width: u16,
    pub label_width: u16,
    pub dismiss: Option<DismissCue>,
    pub selected: bool,
}

/// The menu column and its rows.
pub struct MenuPlan {
    pub column: MenuRect,
    pub rows: Vec<MenuRow>,
}

/// The width the menu gives a string: its byte length, kept to 16 bits.
pub open spec fn cells(s: &str) -> u16 {
    (s.spec_bytes().len() % 65536) as u16
}

/// The width an item (shortcut, label) asks for: both plus the gap, kept to
/// 16 bits.
pub open spec fn item_width(item: (&str, &str)) -> u16 {
    ((item.0.spec_bytes().len() + item.1.spec_bytes().len() + MENU_KEY_GAP) % 65536) as u16
}

/// The larger of two widths.
pub open spec fn wider(a: u16, b: u16) -> u16 {
    if a >= b { a } else { b }
}

/// The widest of the first `n` items (0 when there are none).
pub open spec fn widest_item(items: Seq<(&str, &str)>, n: int) -> u16
    decreases n,
{
    if n <= 0 {
        0
    } else {
        wider(widest_item(items, n - 1), item_width(items[n - 1]))
    }
}

/// The width of the menu column: the widest of the logo, the minimum, the
/// widest item and the caller's hint.
pub open spec fn spec_menu_width(items: Seq<(&str, &str)>, logo_width: u16, min_width_hint: u16) -> u16 {
    wider(wider(wider(logo_width, MENU_MIN_WIDTH), widest_item(items, items.len() as int)), min_width_hint)
}

/// Whether every item's widths can be summed in a `usize`.
pub open spec fn items_measurable(items: Seq<(&str, &str)>) -> bool {
    forall|i: int| 0 <= i < items.len() ==>
        (#[trigger] items[i]).0.spec_bytes().len() + items[i].1.spec_bytes().len() + MENU_KEY_GAP <= usize::MAX
}

/// Whether `[x]` starts at byte `i` of `b`.
pub open spec fn is_dismiss_at(b: Seq<u8>, i: int) -> bool {
    &&& 0 <= i
    &&& i + 3 <= b.len()
    &&& b[i] == 91u8
    &&& b[i + 1] == 120u8
    &&& b[i + 2] == 93u8
}

/// The start of the last `[x]` in `b` that begins before byte `n`.
pub open spec fn last_dismiss(b: Seq<u8>, n: int) -> Option<int>
    decreases n,
{
    if n <= 0 {
        None
    } else if is_dismiss_at(b, n - 1) {
        Some(n - 1)
    } else {
        last_dismiss(b, n - 1)
    }
}

/// The start of the last `[x]` in a shortcut.
pub open spec fn dismiss_offset(key: &str) -> Option<int> {
    last_dismiss(key.spec_bytes(), key.spec_bytes().len() as int)
}

/// How many items get a row: one row per item from the top of the column
/// until the column's height is used up.
pub open spec fn rows_shown(column: MenuRect, n: int) -> int {
    if n < column.height { n } else { column.height as int }
}

/// The column where a shortcut starts when flush with the right edge.
pub open spec fn key_start(column: MenuRect, key: &str) -> int {
    column.x + column.width - cells(key)
}

/// The column where a row's `[x]` starts, given its offset in the shortcut.
pub open spec fn dismiss_start(column: MenuRect, key: &str, off: int) -> int {
    key_start(column, key) + off % 65536
}

/// The row of item `item`, the `i`-th from the top of `column`.
pub open spec fn spec_menu_row(
    column: MenuRect,
    i: int,
    item: (&str, &str),
    selected: Option<usize>,
    mouse_pos: Option<(u16, u16)>,
) -> MenuRow {
    let y = column.y + i;
    MenuRow {
        rect: MenuRect { x: column.x, y: y as u16, width: column.width, height: 1 },
        key_x: key_start(column, item.0) as u16,
        key_width: cells(item.0),
        label_width: cells(item.1),
        dismiss: match dismiss_offset(item.0) {
            Some(off) => {
                let start = dismiss_start(column, item.0, off);
                Some(
                    DismissCue {
                        start: start as u16,
                        hovered: mouse_pos matches Some((mx, my)) && my == y && start <= mx
                            && mx < start + 3,
                    },
                )
            },
            None => None,
        },
        selected: selected == Some(i as usize),
    }
}

/// The rows of the menu, top to bottom.
pub open spec fn spec_menu_rows(
    column: MenuRect,
    items: Seq<(&str, &str)>,
    selected: Option<usize>,
    mouse_pos: Option<(u16, u16)>,
) -> Seq<MenuRow> {
    Seq::new(
        rows_shown(column, items.len() as int) as nat,
        |i: int| spec_menu_row(column, i, items[i], selected, mouse_pos),
    )
}

/// Whether a row's shortcut and dismiss affordance fit on the 16-bit grid of
/// `column`: the right edge is addressable, the shortcut is no wider than it
/// reaches, and the three cells of `[x]` are addressable.
pub open spec fn row_fits(column: MenuRect, key: &str) -> bool {
    &&& column.x + column.width <= u16::MAX
    &&& cells(key) <= column.x + column.width
    &&& (dismiss_offset(key) matches Some(off) ==> dismiss_start(column, key, off) + 3 <= u16::MAX)
}

/// Whether every row of the menu fits, and the column's bottom edge is
/// addressable when there is a row to place.
pub open spec fn rows_fit(column: MenuRect, items: Seq<(&str, &str)>) -> bool {
    &&& items.len() > 0 ==> column.y + column.height <= u16::MAX
    &&& forall|i: int| 0 <= i < rows_shown(column, items.len() as int) ==> row_fits(column, (#[trigger] items[i]).0)
}

/// Every row lies inside the menu column, one cell high, in item order from
/// the top; its label starts at the column's left edge and its shortcut ends
/// at the column's right edge; at most one row is selected, and a `[x]` is
/// hovered only by a mouse on that row.
pub proof fn lemma_menu_rows_in_column(
    column: MenuRect,
    items: Seq<(&str, &str)>,
    selected: Option<usize>,
    mouse_pos: Option<(u16, u16)>,
)
    requires
        rows_fit(column, items),
    ensures
        ({
            let rows = spec_menu_rows(column, items, selected, mouse_pos);
            &&& rows.len() <= items.len()
            &&& rows.len() <= column.height
            &&& forall|i: int| 0 <= i < rows.len() ==> {
                let r = #[trigger] rows[i];
                &&& r.rect.x == column.x
                &&& r.rect.width == column.width
                &&& r.rect.height == 1
                &&& r.rect.y == column.y + i
                &&& r.rect.y < column.y + column.height
                &&& r.key_x + r.key_width == column.x + column.width
                &&& (r.dismiss matches Some(d) && d.hovered ==> (mouse_pos matches Some((mx, my)) && my == r.rect.y))
            }
            &&& forall|i: int, j: int| 0 <= i < rows.len() && 0 <= j < rows.len() && rows[i].selected && rows[j].selected ==> i == j
        }),
{
    let rows = spec_menu_rows(column, items, selected, mouse_pos);
    assert forall|i: int| 0 <= i < rows.len() implies ({
        let r = #[trigger] rows[i];
        &&& r.rect.y == column.y + i
        &&& r.key_x + r.key_width == column.x + column.width
    }) by {
        assert(row_fits(column, items[i].0));
    }
}

/// The width of the menu column for `items`.
pub fn menu_width(items: &[(&str, &str)], logo_width: u16, min_width_hint: u16) -> (w: u16)
    requires
        items_measurable(items@),
    ensures
        w == spec_menu_width(items@, logo_width, min_width_hint),
{
    let mut widest: u16 = 0;
    let mut i: usize = 0;
    while i < items.len()
        invariant
            i <= items@.len(),
            items_measurable(items@),
            widest == widest_item(items@, i as int),
        decreases items@.len() - i,
    {
        let (key, label) = items[i];
        assert(items@[i as int] == (key, label));
        let w: u16 = ((key.as_bytes().len() + label.as_bytes().len() + MENU_KEY_GAP) % 65536) as u16;
        if w > widest {
            widest = w;
        }
        i = i + 1;
    }
    let mut m = if logo_width >= MENU_MIN_WIDTH { logo_width } else { MENU_MIN_WIDTH };
    if widest > m {
        m = widest;
    }
    if min_width_hint > m {
        m = min_width_hint;
    }
    m
}

/// The start of the last `[x]` in `b`.
fn rfind_dismiss(b: &[u8]) -> (r: Option<usize>)
    ensures
        match r {
            Some(off) => last_dismiss(b@, b@.len() as int) == Some(off as int),
            None => last_dismiss(b@, b@.len() as int) is None,
        },
{
    let mut n: usize = b.len();
    while n > 0
        invariant
            n <= b@.len(),
            last_dismiss(b@, b@.len() as int) == last_dismiss(b@, n as int),
        decreases n,
    {
        let i = n - 1;
        if b.len() >= 3 && i <= b.len() - 3 && b[i] == 91u8 && b[i + 1] == 120u8 && b[i + 2] == 93u8 {
            assert(is_dismiss_at(b@, i as int));
            return Some(i);
        }
        assert(!is_dismiss_at(b@, i as int));
        n = i;
    }
    None
}

/// Place the items of the menu in `column`, one row each from the top until
/// the column is full.
pub fn plan_menu_rows(
    column: MenuRect,
    items: &[(&str, &str)],
    selected: Option<usize>,
    mouse_pos: Option<(u16, u16)>,
) -> (rows: Vec<MenuRow>)
    requires
        rows_fit(column, items@),
    ensures
        rows@ == spec_menu_rows(column, items@, selected, mouse_pos),
{
    let mut rows: Vec<MenuRow> = Vec::new();
    if items.len() == 0 {
        assert(rows@ =~= spec_menu_rows(column, items@, selected, mouse_pos));
        return rows;
    }
    let bottom: u16 = column.y + column.height;
    let mut y: u16 = column.y;
    let mut i: usize = 0;
    while i < items.len() && y < bottom
        invariant
            i <= items@.len(),
            i <= column.height,
            y == column.y + i,
            bottom == column.y + column.height,
            rows_fit(column, items@),
            rows@ =~= Seq::new(i as nat, |j: int| spec_menu_row(column, j, items@[j], selected, mouse_pos)),
        decreases items@.len() - i,
    {
        let (key, label) = items[i];
        assert(items@[i as int] == (key, label));
        assert(i < column.height);
        assert(row_fits(column, items@[i as int].0));
        let bytes = key.as_bytes();
        let key_width: u16 = (bytes.len() % 65536) as u16;
        let label_width: u16 = (label.as_bytes().len() % 65536) as u16;
        let key_x: u16 = column.x + column.width - key_width;
        assert(key_x == key_start(column, key));
        assert(dismiss_offset(key) == last_dismiss(bytes@, bytes@.len() as int));
        let dismiss = match rfind_dismiss(bytes) {
            Some(off) => {
                assert(dismiss_offset(key) == Some(off as int));
                assert(dismiss_start(column, key, off as int) + 3 <= u16::MAX);
                let start: u16 = key_x + (off % 65536) as u16;
                let end: u16 = start + 3;
                let hovered = match mouse_pos {
                    Some((mx, my)) => my == y && mx >= start && mx < end,
                    None => false,
                };
                Some(DismissCue { start, hovered })
            },
            None => None,
        };
        let is_selected = match selected {
            Some(s) => s == i,
            None => false,
        };
        let row = MenuRow {
            rect: MenuRect { x: column.x, y, width: column.width, height: 1 },
            key_x,
            key_width,
            label_width,
            dismiss,
            selected: is_selected,
        };
        assert(row == spec_menu_row(column, i as int, items@[i as int], selected, mouse_pos));
        rows.push(row);
        y = y + 1;
        i = i + 1;
    }
    assert(i as int == rows_shown(column, items@.len() as int));
    rows
}

/// Whether every row of the menu fits on the grid of `column`.
pub fn menu_rows_fit(column: MenuRect, items: &[(&str, &str)]) -> (b: bool)
    ensures
        b == rows_fit(column, items@),
{
    if items.len() > 0 && column.y as u32 + column.height as u32 > u16::MAX as u32 {
        return false;
    }
    let right: u32 = column.x as u32 + column.width as u32;
    let shown: usize = if items.len() < column.height as usize { items.len() } else { column.height as usize };
    assert(shown as int == rows_shown(column, items@.len() as int));
    let mut i: usize = 0;
    while i < shown
        invariant
            shown as int == rows_shown(column, items@.len() as int),
            shown <= items@.len(),
            i <= shown,
            right == column.x + column.width,
            forall|j: int| 0 <= j < i ==> row_fits(column, (#[trigger] items@[j]).0),
        decreases shown - i,
    {
        let (key, _label) = items[i];
        assert(items@[i as int].0 == key);
        let bytes = key.as_bytes();
        let key_width: u32 = (bytes.len() % 65536) as u32;
        if right > u16::MAX as u32 || key_width > right {
            assert(!row_fits(column, items@[i as int].0));
            return false;
        }
        assert(dismiss_offset(key) == last_dismiss(bytes@, bytes@.len() as int));
        match rfind_dismiss(bytes) {
            Some(off) => {
                assert(dismiss_offset(key) == Some(off as int));
                if right - key_width + (off % 65536) as u32 + 3 > u16::MAX as u32 {
                    assert(!row_fits(column, items@[i as int].0));
                    return false;
                }
            },
            None => {},
        }
        i = i + 1;
    }
    true
}

/// The column of `length` cells that the layout solver centers in the area
/// at (`x`, `y`) of size `width` x `height`, between two flexible margins;
/// as (x, y, width, height).
pub uninterp spec fn centered_column(x: u16, y: u16, width: u16, height: u16, length: u16) -> (u16, u16, u16, u16);

/// The rightmost column edge of `r` on the 16-bit grid (its right edge,
/// saturated at `u16::MAX`).
pub open spec fn right_edge(r: MenuRect) -> int {
    if r.x + r.width > u16::MAX { u16::MAX as int } else { r.x + r.width }
}

/// `column` spans the full height of `area` and lies within it horizontally.
pub open spec fn column_in_area(column: MenuRect, area: MenuRect) -> bool {
    &&& column.y == area.y
    &&& column.height == area.height
    &&& area.x <= column.x
    &&& column.x + column.width <= right_edge(area)
}

/// The room left of `column` within `area` and the room right of it differ
/// by at most one cell.
pub open spec fn gaps_balanced(column: MenuRect, area: MenuRect) -> bool {
    let left = column.x - area.x;
    let right = right_edge(area) - (column.x + column.width);
    -1 <= left - right <= 1
}

/// The narrower of `length` and the addressable width of `area`.
pub open spec fn fitted_length(area: MenuRect, length: u16) -> int {
    if length < right_edge(area) - area.x { length as int } else { right_edge(area) - area.x }
}

/// Calls ratatui's `Layout::horizontal([Min(0), Length(length), Min(0)])`
/// with `Flex::Center` on `area` and returns the middle area. The solver's
/// result is a function of the area and the length alone. Stated of it is
/// what the layout code fixes: a horizontal split keeps the area's `y` and
/// `height`; every segment edge is required to lie between the area's left
/// and (saturated) right edges; and the `Length` constraint, weighted
/// `LENGTH_SIZE_EQ` (ten times `STRONG`), outranks every weaker constraint
/// on the segments (`FILL_GROW`, `GROW`, `ALL_SEGMENT_GROW`) and conflicts
/// with none of the stronger ones (the `Min(0)` bounds and the spacer
/// equalities), so the middle segment is `length` wide where the area
/// allows and the area's full width where it does not; rounding both edges
/// of the same half-cell offset keeps that width. `Flex::Center` requires
/// the outer spacers to be equal (`SPACER_SIZE_EQ`), and the two `Min(0)`
/// segments are weighted alike on every side and held equal to each other,
/// so the room left and right of the column is split evenly; rounding the
/// column's edges moves it by at most one cell, so the two gaps differ by
/// at most one.
#[verifier::external_body]
fn center_column(area: MenuRect, length: u16) -> (r: MenuRect)
    ensures
        (r.x, r.y, r.width, r.height) == centered_column(area.x, area.y, area.width, area.height, length),
        column_in_area(r, area),
        r.width == fitted_length(area, length),
        gaps_balanced(r, area),
{
    let layout = Layout::horizontal([Constraint::Min(0), Constraint::Length(length), Constraint::Min(0)]);
    let [_, mid, _] = layout.flex(Flex::Center).areas(Rect { x: area.x, y: area.y, width: area.width, height: area.height });
    MenuRect { x: mid.x, y: mid.y, width: mid.width, height: mid.height }
}

/// The menu column the layout solver centers in `area` for `items`.
pub open spec fn spec_menu_column(area: MenuRect, items: Seq<(&str, &str)>, logo_width: u16, min_width_hint: u16) -> MenuRect {
    let c = centered_column(
        area.x,
        area.y,
        area.width,
        area.height,
        spec_menu_width(items, logo_width, min_width_hint),
    );
    MenuRect { x: c.0, y: c.1, width: c.2, height: c.3 }
}

/// Whether every item fits the area: its shortcut, label and gap are no
/// wider than the area's addressable width, and the area's bottom edge is
/// addressable when there is an item.
pub open spec fn menu_fits_area(area: MenuRect, items: Seq<(&str, &str)>) -> bool {
    &&& items.len() > 0 ==> area.y + area.height <= u16::MAX
    &&& forall|i: int| 0 <= i < items.len() ==>
        (#[trigger] items[i]).0.spec_bytes().len() + items[i].1.spec_bytes().len() + MENU_KEY_GAP
            <= right_edge(area) - area.x
}

/// The widest item is at least as wide as each of them.
proof fn lemma_widest_item_bounds(items: Seq<(&str, &str)>, n: int, i: int)
    requires
        0 <= i < n,
    ensures
        item_width(items[i]) <= widest_item(items, n),
    decreases n,
{
    if i < n - 1 {
        lemma_widest_item_bounds(items, n - 1, i);
    }
}

/// A `[x]` found before byte `n` lies wholly in `b`.
proof fn lemma_last_dismiss_is_dismiss(b: Seq<u8>, n: int)
    ensures
        last_dismiss(b, n) matches Some(o) ==> is_dismiss_at(b, o),
    decreases n,
{
    if n > 0 && !is_dismiss_at(b, n - 1) {
        lemma_last_dismiss_is_dismiss(b, n - 1);
    }
}

/// A column as wide as the menu (or the area) holds every row of items that
/// fit the area.
proof fn lemma_fitting_items_fit_rows(
    area: MenuRect,
    items: Seq<(&str, &str)>,
    logo_width: u16,
    min_width_hint: u16,
    column: MenuRect,
)
    requires
        menu_fits_area(area, items),
        column_in_area(column, area),
        column.width == fitted_length(area, spec_menu_width(items, logo_width, min_width_hint)),
    ensures
        rows_fit(column, items),
{
    assert forall|i: int| 0 <= i < rows_shown(column, items.len() as int) implies row_fits(
        column,
        (#[trigger] items[i]).0,
    ) by {
        let key = items[i].0;
        let w = key.spec_bytes().len() + items[i].1.spec_bytes().len() + MENU_KEY_GAP;
        assert(w <= right_edge(area) - area.x);
        assert(item_width(items[i]) == w);
        lemma_widest_item_bounds(items, items.len() as int, i);
        assert(cells(key) == key.spec_bytes().len());
        lemma_last_dismiss_is_dismiss(key.spec_bytes(), key.spec_bytes().len() as int);
    }
}

/// Lay out the welcome menu in `area`: center a column as wide as the
/// widest of the logo, the minimum, every item and the hint, then give each
/// item a row. `None` when a row would not fit on the 16-bit cell grid.
pub fn plan_menu(
    area: MenuRect,
    items: &[(&str, &str)],
    selected: Option<usize>,
    mouse_pos: Option<(u16, u16)>,
    logo_width: u16,
    min_width_hint: u16,
) -> (r: Option<MenuPlan>)
    requires
        items_measurable(items@),
    ensures
        ({
            let column = spec_menu_column(area, items@, logo_width, min_width_hint);
            &&& column_in_area(column, area)
            &&& column.width == fitted_length(area, spec_menu_width(items@, logo_width, min_width_hint))
            &&& gaps_balanced(column, area)
            &&& (r is Some <==> rows_fit(column, items@))
            &&& (menu_fits_area(area, items@) ==> r is Some)
            &&& (r matches Some(p) ==> p.column == column && p.rows@ == spec_menu_rows(column, items@, selected, mouse_pos))
            &&& (r matches Some(p) ==> {
                &&& p.rows@.len() == (if items@.len() < area.height { items@.len() as int } else { area.height as int })
                &&& forall|i: int| 0 <= i < p.rows@.len() ==> {
                    let row = #[trigger] p.rows@[i].rect;
                    &&& row.y == area.y + i
                    &&& row.height == 1
                    &&& row.x == column.x
                    &&& row.width == column.width
                    &&& area.x <= row.x
                    &&& row.x + row.width <= right_edge(area)
                }
            })
        }),
{
    let width = menu_width(items, logo_width, min_width_hint);
    let column = center_column(area, width);
    proof {
        if menu_fits_area(area, items@) {
            lemma_fitting_items_fit_rows(area, items@, logo_width, min_width_hint, column);
        }
    }
    if !menu_rows_fit(column, items) {
        return None;
    }
    let rows = plan_menu_rows(column, items, selected, mouse_pos);
    proof {
        lemma_menu_rows_in_column(column, items@, selected, mouse_pos);
    }
    Some(MenuPlan { column, rows })
}

} // verus!
