//! Search-match highlighting: the byte ranges a regex matches in a line, and
//! the screen cells those matches cover, to be restyled with
//! [`crate::canvas::invert_cell`].
//!
//! A line drawn on one row places byte offset `b` at display column
//! `prefix_w + col(b)`; a wrapped line places each match as row segments
//! (row of the wrap, first and end display column). Display columns and
//! wrapping are the text layout's; this module decides which cells they
//! give inside the pane and the viewport. Screen columns are 16-bit, and a
//! column is kept to 16 bits before it is added to the pane's left edge.

use vstd::prelude::*;
use vstd::string::StringSliceAdditionalSpecFns;

verus! {

#[verifier::external_type_specification]
#[verifier::external_body]
pub struct ExRegex(regex::Regex);

/// Match ranges as `Regex::find_iter` documents them for a `len`-byte text:
/// byte ranges inside the text, successive and non-overlapping.
pub open spec fn match_ranges_ok(m: Seq<(usize, usize)>, len: int) -> bool {
    &&& forall|k: int| 0 <= k < m.len() ==> (#[trigger] m[k]).0 <= m[k].1 <= len
    &&& forall|k: int| 0 < k < m.len() ==> m[k - 1].1 <= (#[trigger] m[k]).0
}

/// The (start, end) byte offsets of the matches `Regex::find_iter` yields
/// for the compiled regex `re` in `text`, in order.
pub uninterp spec fn regex_match_ranges(re: regex::Regex, text: Seq<char>) -> Seq<(usize, usize)>;

/// Calls `Regex::find_iter(text)` and collects each match's start and end
/// byte offsets. Claims: the ranges are a function of the compiled regex
/// and the text alone, and, as the regex documentation gives, they are
/// successive and non-overlapping, each a byte range of `text`
/// (`start <= end <= text.len()`). Which ranges a pattern matches is left
/// to the name.
#[verifier::external_body]
fn find_match_ranges(re: &regex::Regex, text: &str) -> (r: Vec<(usize, usize)>)
    ensures
        r@ == regex_match_ranges(*re, text@),
        match_ranges_ok(r@, text.spec_bytes().len() as int),
{
    re.find_iter(text).map(|m| (m.start(), m.end())).collect()
}

/// The byte ranges of every match of `re` in `text`, in order.
pub fn match_ranges(re: &regex::Regex, text: &str) -> (r: Vec<(usize, usize)>)
    ensures
        r@ == regex_match_ranges(*re, text@),
        match_ranges_ok(r@, text.spec_bytes().len() as int),
{
    find_match_ranges(re, text)
}

/// Screen column of display column `col` counted from screen column
/// `origin` (the display column kept to 16 bits).
pub open spec fn col_x(origin: int, col: int) -> int {
    origin + col % 65536
}

/// Cells for display columns `col..end` on row `y`, counted from screen
/// column `origin`: each column whose screen column is left of `right`.
pub open spec fn span_cells(origin: int, right: int, y: u16, col: int, end: int) -> Seq<(u16, u16)>
    decreases end - col,
{
    if col >= end {
        Seq::empty()
    } else {
        let x = col_x(origin, col);
        (if x < right { seq![(x as u16, y)] } else { Seq::<(u16, u16)>::empty() })
            + span_cells(origin, right, y, col + 1, end)
    }
}

/// Whether every screen column of `col..end` counted from `origin` is
/// addressable.
pub open spec fn span_safe(origin: int, col: int, end: int) -> bool {
    forall|c: int| col <= c < end ==> #[trigger] col_x(origin, c) <= u16::MAX
}

/// Append the cells of display columns `start..end` to `out`.
fn push_span_cells(out: &mut Vec<(u16, u16)>, origin: u16, right: u16, y: u16, start: usize, end: usize)
    requires
        span_safe(origin as int, start as int, end as int),
    ensures
        final(out)@ == old(out)@ + span_cells(origin as int, right as int, y, start as int, end as int),
{
    let ghost total = old(out)@ + span_cells(origin as int, right as int, y, start as int, end as int);
    if start >= end {
        assert(out@ =~= total);
        return;
    }
    let mut col = start;
    while col < end
        invariant
            start <= col <= end,
            span_safe(origin as int, start as int, end as int),
            out@ + span_cells(origin as int, right as int, y, col as int, end as int) =~= total,
        decreases end - col,
    {
        assert(col_x(origin as int, col as int) <= u16::MAX);
        let x: u16 = origin + (col % 65536) as u16;
        let ghost before = out@;
        if x < right {
            out.push((x, y));
        }
        assert(before + span_cells(origin as int, right as int, y, col as int, end as int) =~= out@
            + span_cells(origin as int, right as int, y, col + 1, end as int));
        col = col + 1;
    }
}

/// Whether every screen column of `start..end` counted from `origin` is
/// addressable.
fn span_is_safe(origin: u16, start: usize, end: usize) -> (b: bool)
    ensures
        b == span_safe(origin as int, start as int, end as int),
{
    let mut col = start;
    while col < end
        invariant
            start <= col,
            forall|c: int| start <= c < col ==> #[trigger] col_x(origin as int, c) <= u16::MAX,
        decreases end - col,
    {
        if origin as usize + col % 65536 > u16::MAX as usize {
            assert(!(col_x(origin as int, col as int) <= u16::MAX));
            return false;
        }
        col = col + 1;
    }
    true
}

/// Cells of the matches `k..` of a line drawn on one row: match `i` spans
/// display columns `prefix_w + cols[i].0 .. prefix_w + cols[i].1`, counted
/// from the pane's left edge `area_x`, kept left of its right edge.
pub open spec fn single_row_cells_from(
    cols: Seq<(usize, usize)>,
    area_x: u16,
    area_width: u16,
    row_y: u16,
    prefix_w: u16,
    k: int,
) -> Seq<(u16, u16)>
    decreases cols.len() - k,
{
    if k >= cols.len() || k < 0 {
        Seq::empty()
    } else {
        span_cells(area_x as int, area_x + area_width, row_y, prefix_w + cols[k].0, prefix_w + cols[k].1)
            + single_row_cells_from(cols, area_x, area_width, row_y, prefix_w, k + 1)
    }
}

/// Whether every cell a single-row line visits is addressable: the column
/// sums fit in a `usize`, and a non-empty match has the pane's right edge
/// and each of its screen columns on the 16-bit grid.
pub open spec fn single_row_safe(cols: Seq<(usize, usize)>, area_x: u16, area_width: u16, prefix_w: u16) -> bool {
    forall|k: int| 0 <= k < cols.len() ==> {
        &&& prefix_w + (#[trigger] cols[k]).0 <= usize::MAX
        &&& prefix_w + cols[k].1 <= usize::MAX
        &&& (prefix_w + cols[k].0 < prefix_w + cols[k].1 ==> {
            &&& area_x + area_width <= u16::MAX
            &&& span_safe(area_x as int, prefix_w + cols[k].0, prefix_w + cols[k].1)
        })
    }
}

/// Whether the cells of a single-row line are all addressable (see
/// [`single_row_safe`]).
pub fn single_row_cells_safe(cols: &[(usize, usize)], area_x: u16, area_width: u16, prefix_w: u16) -> (b: bool)
    ensures
        b == single_row_safe(cols@, area_x, area_width, prefix_w),
{
    let mut k: usize = 0;
    while k < cols.len()
        invariant
            k <= cols@.len(),
            forall|k2: int| 0 <= k2 < k ==> {
                &&& prefix_w + (#[trigger] cols@[k2]).0 <= usize::MAX
                &&& prefix_w + cols@[k2].1 <= usize::MAX
                &&& (prefix_w + cols@[k2].0 < prefix_w + cols@[k2].1 ==> {
                    &&& area_x + area_width <= u16::MAX
                    &&& span_safe(area_x as int, prefix_w + cols@[k2].0, prefix_w + cols@[k2].1)
                })
            },
        decreases cols@.len() - k,
    {
        let (s, e) = cols[k];
        assert(cols@[k as int] == (s, e));
        if s > usize::MAX - prefix_w as usize || e > usize::MAX - prefix_w as usize {
            return false;
        }
        let col_start = prefix_w as usize + s;
        let col_end = prefix_w as usize + e;
        if col_start < col_end {
            if area_x as u32 + area_width as u32 > u16::MAX as u32 {
                return false;
            }
            if !span_is_safe(area_x, col_start, col_end) {
                return false;
            }
        }
        k = k + 1;
    }
    true
}

/// The cells to restyle for the matches of a line drawn on one row, given
/// each match's display columns (start, end) within the line.
pub fn single_row_highlight_cells(
    cols: &[(usize, usize)],
    area_x: u16,
    area_width: u16,
    row_y: u16,
    prefix_w: u16,
) -> (r: Vec<(u16, u16)>)
    requires
        single_row_safe(cols@, area_x, area_width, prefix_w),
    ensures
        r@ == single_row_cells_from(cols@, area_x, area_width, row_y, prefix_w, 0),
{
    let ghost total = single_row_cells_from(cols@, area_x, area_width, row_y, prefix_w, 0);
    let mut out: Vec<(u16, u16)> = Vec::new();
    let mut k: usize = 0;
    while k < cols.len()
        invariant
            k <= cols@.len(),
            single_row_safe(cols@, area_x, area_width, prefix_w),
            out@ + single_row_cells_from(cols@, area_x, area_width, row_y, prefix_w, k as int) =~= total,
        decreases cols@.len() - k,
    {
        let (s, e) = cols[k];
        assert(cols@[k as int] == (s, e));
        let col_start: usize = prefix_w as usize + s;
        let col_end: usize = prefix_w as usize + e;
        let ghost before = out@;
        if col_start < col_end {
            let right: u16 = area_x + area_width;
            push_span_cells(&mut out, area_x, right, row_y, col_start, col_end);
        }
        assert(before + single_row_cells_from(cols@, area_x, area_width, row_y, prefix_w, k as int) =~= out@
            + single_row_cells_from(cols@, area_x, area_width, row_y, prefix_w, k + 1));
        k = k + 1;
    }
    assert(out@ =~= total);
    out
}

/// Screen row of wrap row `row` of a line whose first visible row is
/// `row_y`, `skip` rows being clipped above the viewport (the row offset
/// kept to 16 bits).
pub open spec fn segment_y(row_y: u16, skip: u16, row: int) -> int {
    row_y + (row - skip) % 65536
}

/// Cells of the row segments `j..` of one match of a wrapped line: a
/// segment on a clipped row is passed over; the first segment on or below
/// the viewport's bottom ends the match; the others span their display
/// columns counted from `area_x + prefix_w`, kept left of the pane's right
/// edge.
pub open spec fn segment_cells_from(
    segs: Seq<(usize, usize, usize)>,
    area_x: u16,
    area_width: u16,
    row_y: u16,
    viewport_bottom: u16,
    skip: u16,
    prefix_w: u16,
    j: int,
) -> Seq<(u16, u16)>
    decreases segs.len() - j,
{
    if j >= segs.len() || j < 0 {
        Seq::empty()
    } else {
        let (row, cs, ce) = segs[j];
        if row < skip {
            segment_cells_from(segs, area_x, area_width, row_y, viewport_bottom, skip, prefix_w, j + 1)
        } else if segment_y(row_y, skip, row as int) >= viewport_bottom {
            Seq::empty()
        } else {
            span_cells(area_x + prefix_w, area_x + area_width, segment_y(row_y, skip, row as int) as u16, cs as int, ce as int)
                + segment_cells_from(segs, area_x, area_width, row_y, viewport_bottom, skip, prefix_w, j + 1)
        }
    }
}

/// Whether every row and cell visited from segment `j` on is addressable.
pub open spec fn segments_safe_from(
    segs: Seq<(usize, usize, usize)>,
    area_x: u16,
    area_width: u16,
    row_y: u16,
    viewport_bottom: u16,
    skip: u16,
    prefix_w: u16,
    j: int,
) -> bool
    decreases segs.len() - j,
{
    if j >= segs.len() || j < 0 {
        true
    } else {
        let (row, cs, ce) = segs[j];
        if row < skip {
            segments_safe_from(segs, area_x, area_width, row_y, viewport_bottom, skip, prefix_w, j + 1)
        } else {
            &&& segment_y(row_y, skip, row as int) <= u16::MAX
            &&& (segment_y(row_y, skip, row as int) < viewport_bottom ==> {
                &&& (cs < ce ==> {
                    &&& area_x + prefix_w <= u16::MAX
                    &&& area_x + area_width <= u16::MAX
                    &&& span_safe(area_x + prefix_w, cs as int, ce as int)
                })
                &&& segments_safe_from(segs, area_x, area_width, row_y, viewport_bottom, skip, prefix_w, j + 1)
            })
        }
    }
}

/// Whether every row and cell of one match's segments is addressable.
fn segments_are_safe(
    segs: &Vec<(usize, usize, usize)>,
    area_x: u16,
    area_width: u16,
    row_y: u16,
    viewport_bottom: u16,
    skip: u16,
    prefix_w: u16,
) -> (b: bool)
    ensures
        b == segments_safe_from(segs@, area_x, area_width, row_y, viewport_bottom, skip, prefix_w, 0),
{
    let mut j: usize = 0;
    while j < segs.len()
        invariant
            j <= segs@.len(),
            segments_safe_from(segs@, area_x, area_width, row_y, viewport_bottom, skip, prefix_w, 0)
                == segments_safe_from(segs@, area_x, area_width, row_y, viewport_bottom, skip, prefix_w, j as int),
        decreases segs@.len() - j,
    {
        let (row, cs, ce) = segs[j];
        assert(segs@[j as int] == (row, cs, ce));
        if row >= skip as usize {
            let dy: usize = (row - skip as usize) % 65536;
            if row_y as usize + dy > u16::MAX as usize {
                return false;
            }
            let y: u16 = row_y + dy as u16;
            if y >= viewport_bottom {
                return true;
            }
            if cs < ce {
                if area_x as u32 + prefix_w as u32 > u16::MAX as u32
                    || area_x as u32 + area_width as u32 > u16::MAX as u32 {
                    return false;
                }
                if !span_is_safe(area_x + prefix_w, cs, ce) {
                    return false;
                }
            }
        }
        j = j + 1;
    }
    true
}

/// Whether the cells of a wrapped line are all addressable.
pub fn wrapped_cells_safe(
    segments: &[Vec<(usize, usize, usize)>],
    area_x: u16,
    area_width: u16,
    row_y: u16,
    viewport_bottom: u16,
    skip: u16,
    prefix_w: u16,
) -> (b: bool)
    ensures
        b == forall|k: int| 0 <= k < segments@.len() ==> segments_safe_from(
            (#[trigger] segments@[k])@,
            area_x,
            area_width,
            row_y,
            viewport_bottom,
            skip,
            prefix_w,
            0,
        ),
{
    let mut k: usize = 0;
    while k < segments.len()
        invariant
            k <= segments@.len(),
            forall|k2: int| 0 <= k2 < k ==> segments_safe_from(
                (#[trigger] segments@[k2])@,
                area_x,
                area_width,
                row_y,
                viewport_bottom,
                skip,
                prefix_w,
                0,
            ),
        decreases segments@.len() - k,
    {
        if !segments_are_safe(&segments[k], area_x, area_width, row_y, viewport_bottom, skip, prefix_w) {
            return false;
        }
        k = k + 1;
    }
    true
}

/// Cells of the matches `k..` of a wrapped line, one list of row segments
/// per match.
pub open spec fn wrapped_cells_from(
    segments: Seq<Vec<(usize, usize, usize)>>,
    area_x: u16,
    area_width: u16,
    row_y: u16,
    viewport_bottom: u16,
    skip: u16,
    prefix_w: u16,
    k: int,
) -> Seq<(u16, u16)>
    decreases segments.len() - k,
{
    if k >= segments.len() || k < 0 {
        Seq::empty()
    } else {
        segment_cells_from(segments[k]@, area_x, area_width, row_y, viewport_bottom, skip, prefix_w, 0)
            + wrapped_cells_from(segments, area_x, area_width, row_y, viewport_bottom, skip, prefix_w, k + 1)
    }
}

/// The cells to restyle for the matches of a wrapped line, given each
/// match's row segments (wrap row, first display column, end display
/// column).
pub fn wrapped_highlight_cells(
    segments: &[Vec<(usize, usize, usize)>],
    area_x: u16,
    area_width: u16,
    row_y: u16,
    viewport_bottom: u16,
    skip: u16,
    prefix_w: u16,
) -> (r: Vec<(u16, u16)>)
    requires
        forall|k: int| 0 <= k < segments@.len() ==> segments_safe_from(
            (#[trigger] segments@[k])@,
            area_x,
            area_width,
            row_y,
            viewport_bottom,
            skip,
            prefix_w,
            0,
        ),
    ensures
        r@ == wrapped_cells_from(segments@, area_x, area_width, row_y, viewport_bottom, skip, prefix_w, 0),
{
    let ghost total = wrapped_cells_from(segments@, area_x, area_width, row_y, viewport_bottom, skip, prefix_w, 0);
    let mut out: Vec<(u16, u16)> = Vec::new();
    let mut k: usize = 0;
    while k < segments.len()
        invariant
            k <= segments@.len(),
            forall|k2: int| 0 <= k2 < segments@.len() ==> segments_safe_from(
                (#[trigger] segments@[k2])@,
                area_x,
                area_width,
                row_y,
                viewport_bottom,
                skip,
                prefix_w,
                0,
            ),
            out@ + wrapped_cells_from(segments@, area_x, area_width, row_y, viewport_bottom, skip, prefix_w, k as int)
                =~= total,
        decreases segments@.len() - k,
    {
        let segs = &segments[k];
        let ghost sv = segs@;
        let ghost after = wrapped_cells_from(segments@, area_x, area_width, row_y, viewport_bottom, skip, prefix_w, k + 1);
        assert(segments_safe_from(sv, area_x, area_width, row_y, viewport_bottom, skip, prefix_w, 0));
        let mut j: usize = 0;
        let mut stopped = false;
        while j < segs.len() && !stopped
            invariant
                sv == segs@,
                j <= sv.len(),
                !stopped ==> segments_safe_from(sv, area_x, area_width, row_y, viewport_bottom, skip, prefix_w, j as int),
                out@ + (if stopped {
                    Seq::<(u16, u16)>::empty()
                } else {
                    segment_cells_from(sv, area_x, area_width, row_y, viewport_bottom, skip, prefix_w, j as int)
                }) + after =~= total,
            decreases sv.len() - j + (if stopped { 0int } else { 1int }),
        {
            let (row, cs, ce) = segs[j];
            assert(sv[j as int] == (row, cs, ce));
            let ghost before = out@;
            if row < skip as usize {
                j = j + 1;
            } else {
                let y: u16 = row_y + ((row - skip as usize) % 65536) as u16;
                if y >= viewport_bottom {
                    stopped = true;
                } else {
                    if cs < ce {
                        let origin: u16 = area_x + prefix_w;
                        let right: u16 = area_x + area_width;
                        push_span_cells(&mut out, origin, right, y, cs, ce);
                    }
                    assert(before + segment_cells_from(sv, area_x, area_width, row_y, viewport_bottom, skip, prefix_w, j as int)
                        =~= out@ + segment_cells_from(sv, area_x, area_width, row_y, viewport_bottom, skip, prefix_w, j + 1));
                    j = j + 1;
                }
            }
        }
        k = k + 1;
    }
    assert(out@ =~= total);
    out
}

/// A display column kept to 16 bits, as it is before being added to a
/// screen column.
pub open spec fn kept_column(c: int) -> int {
    c % 65536
}

/// The cells of display columns `col..end` counted from `origin` lie on
/// row `y`, left of `right`, each at `origin` plus one of those columns
/// (kept to 16 bits).
proof fn lemma_span_cells_members(origin: int, right: int, y: u16, col: int, end: int)
    requires
        0 <= origin,
        span_safe(origin, col, end),
    ensures
        forall|i: int| 0 <= i < span_cells(origin, right, y, col, end).len() ==> {
            let cell = #[trigger] span_cells(origin, right, y, col, end)[i];
            &&& cell.1 == y
            &&& cell.0 < right
            &&& exists|c: int| col <= c < end && cell.0 == origin + #[trigger] kept_column(c)
        },
    decreases end - col,
{
    if col < end {
        lemma_span_cells_members(origin, right, y, col + 1, end);
        let x = col_x(origin, col);
        assert(x <= u16::MAX);
        let head = if x < right { seq![(x as u16, y)] } else { Seq::<(u16, u16)>::empty() };
        let rest = span_cells(origin, right, y, col + 1, end);
        assert(span_cells(origin, right, y, col, end) == head + rest);
        assert forall|i: int| 0 <= i < span_cells(origin, right, y, col, end).len() implies {
            let cell = #[trigger] span_cells(origin, right, y, col, end)[i];
            &&& cell.1 == y
            &&& cell.0 < right
            &&& exists|c: int| col <= c < end && cell.0 == origin + #[trigger] kept_column(c)
        } by {
            if i < head.len() {
                assert(span_cells(origin, right, y, col, end)[i] == (x as u16, y));
                assert(col <= col < end && (x as u16) == origin + kept_column(col));
            } else {
                assert(span_cells(origin, right, y, col, end)[i] == rest[i - head.len()]);
                let cell = rest[i - head.len()];
                let c = choose|c: int| col + 1 <= c < end && cell.0 == origin + #[trigger] kept_column(c);
                assert(col <= c < end && cell.0 == origin + kept_column(c));
            }
        }
    }
}

/// Whether cell (`x`, `y`) is a cell that row segment `seg` (wrap row,
/// first display column, end display column) of a wrapped line covers: the
/// segment is on a visible row whose screen row is `y`, below the first
/// visible row `row_y` by its distance from the clipped rows, and `x` is the
/// pane's left edge plus the gutter plus one of its display columns.
pub open spec fn segment_covers(
    seg: (usize, usize, usize),
    x: u16,
    y: u16,
    area_x: u16,
    row_y: u16,
    skip: u16,
    prefix_w: u16,
) -> bool {
    &&& seg.0 >= skip
    &&& y == row_y + (seg.0 - skip) % 65536
    &&& exists|c: int| seg.1 <= c < seg.2 && x == area_x + prefix_w + #[trigger] kept_column(c)
}

proof fn lemma_segment_cells_members(
    segs: Seq<(usize, usize, usize)>,
    area_x: u16,
    area_width: u16,
    row_y: u16,
    viewport_bottom: u16,
    skip: u16,
    prefix_w: u16,
    j: int,
)
    requires
        0 <= j,
        segments_safe_from(segs, area_x, area_width, row_y, viewport_bottom, skip, prefix_w, j),
    ensures
        forall|i: int| 0 <= i < segment_cells_from(segs, area_x, area_width, row_y, viewport_bottom, skip, prefix_w, j).len() ==> {
            let cell = #[trigger] segment_cells_from(segs, area_x, area_width, row_y, viewport_bottom, skip, prefix_w, j)[i];
            &&& area_x + prefix_w <= cell.0 < area_x + area_width
            &&& row_y <= cell.1 < viewport_bottom
            &&& exists|m: int| j <= m < segs.len() && segment_covers(#[trigger] segs[m], cell.0, cell.1, area_x, row_y, skip, prefix_w)
        },
    decreases segs.len() - j,
{
    let all = segment_cells_from(segs, area_x, area_width, row_y, viewport_bottom, skip, prefix_w, j);
    if j < segs.len() {
        let (row, cs, ce) = segs[j];
        if row < skip {
            lemma_segment_cells_members(segs, area_x, area_width, row_y, viewport_bottom, skip, prefix_w, j + 1);
            let rest = segment_cells_from(segs, area_x, area_width, row_y, viewport_bottom, skip, prefix_w, j + 1);
            assert(all == rest);
            assert forall|i: int| 0 <= i < all.len() implies {
                let cell = #[trigger] all[i];
                exists|m: int| j <= m < segs.len() && segment_covers(#[trigger] segs[m], cell.0, cell.1, area_x, row_y, skip, prefix_w)
            } by {
                let cell = rest[i];
                let m = choose|m: int| j + 1 <= m < segs.len() && segment_covers(#[trigger] segs[m], cell.0, cell.1, area_x, row_y, skip, prefix_w);
                assert(j <= m < segs.len());
            }
        } else if segment_y(row_y, skip, row as int) < viewport_bottom {
            let y = segment_y(row_y, skip, row as int);
            lemma_segment_cells_members(segs, area_x, area_width, row_y, viewport_bottom, skip, prefix_w, j + 1);
            let head = span_cells(area_x + prefix_w, area_x + area_width, y as u16, cs as int, ce as int);
            let rest = segment_cells_from(segs, area_x, area_width, row_y, viewport_bottom, skip, prefix_w, j + 1);
            assert(all == head + rest);
            if cs < ce {
                lemma_span_cells_members(area_x + prefix_w, area_x + area_width, y as u16, cs as int, ce as int);
            } else {
                assert(head.len() == 0);
            }
            assert forall|i: int| 0 <= i < all.len() implies {
                let cell = #[trigger] all[i];
                &&& area_x + prefix_w <= cell.0 < area_x + area_width
                &&& row_y <= cell.1 < viewport_bottom
                &&& exists|m: int| j <= m < segs.len() && segment_covers(#[trigger] segs[m], cell.0, cell.1, area_x, row_y, skip, prefix_w)
            } by {
                if i < head.len() {
                    let cell = head[i];
                    assert(all[i] == cell);
                    let c = choose|c: int| cs <= c < ce && cell.0 == (area_x + prefix_w) + #[trigger] kept_column(c);
                    assert(segment_covers(segs[j], cell.0, cell.1, area_x, row_y, skip, prefix_w));
                } else {
                    assert(all[i] == rest[i - head.len()]);
                    let cell = rest[i - head.len()];
                    let m = choose|m: int| j + 1 <= m < segs.len() && segment_covers(#[trigger] segs[m], cell.0, cell.1, area_x, row_y, skip, prefix_w);
                    assert(j <= m < segs.len());
                }
            }
        }
    }
}

/// Every cell a wrapped line highlights lies in the pane (right of its left
/// edge plus the gutter, left of its right edge) and in the viewport (from
/// the first visible row, above the bottom), and is a cell that one of the
/// matches' row segments covers.
pub proof fn lemma_wrapped_cells_lie_in_pane(
    segments: Seq<Vec<(usize, usize, usize)>>,
    area_x: u16,
    area_width: u16,
    row_y: u16,
    viewport_bottom: u16,
    skip: u16,
    prefix_w: u16,
)
    requires
        forall|k: int| 0 <= k < segments.len() ==> segments_safe_from(
            (#[trigger] segments[k])@,
            area_x,
            area_width,
            row_y,
            viewport_bottom,
            skip,
            prefix_w,
            0,
        ),
    ensures
        forall|i: int| 0 <= i < wrapped_cells_from(segments, area_x, area_width, row_y, viewport_bottom, skip, prefix_w, 0).len() ==> {
            let cell = #[trigger] wrapped_cells_from(segments, area_x, area_width, row_y, viewport_bottom, skip, prefix_w, 0)[i];
            &&& area_x + prefix_w <= cell.0 < area_x + area_width
            &&& row_y <= cell.1 < viewport_bottom
            &&& exists|k: int, m: int| 0 <= k < segments.len() && 0 <= m < segments[k]@.len()
                && #[trigger] segment_covers(segments[k]@[m], cell.0, cell.1, area_x, row_y, skip, prefix_w)
        },
{
    lemma_wrapped_cells_members(segments, area_x, area_width, row_y, viewport_bottom, skip, prefix_w, 0);
}

proof fn lemma_wrapped_cells_members(
    segments: Seq<Vec<(usize, usize, usize)>>,
    area_x: u16,
    area_width: u16,
    row_y: u16,
    viewport_bottom: u16,
    skip: u16,
    prefix_w: u16,
    k: int,
)
    requires
        0 <= k,
        forall|k2: int| 0 <= k2 < segments.len() ==> segments_safe_from(
            (#[trigger] segments[k2])@,
            area_x,
            area_width,
            row_y,
            viewport_bottom,
            skip,
            prefix_w,
            0,
        ),
    ensures
        forall|i: int| 0 <= i < wrapped_cells_from(segments, area_x, area_width, row_y, viewport_bottom, skip, prefix_w, k).len() ==> {
            let cell = #[trigger] wrapped_cells_from(segments, area_x, area_width, row_y, viewport_bottom, skip, prefix_w, k)[i];
            &&& area_x + prefix_w <= cell.0 < area_x + area_width
            &&& row_y <= cell.1 < viewport_bottom
            &&& exists|k3: int, m: int| 0 <= k3 < segments.len() && 0 <= m < segments[k3]@.len()
                && #[trigger] segment_covers(segments[k3]@[m], cell.0, cell.1, area_x, row_y, skip, prefix_w)
        },
    decreases segments.len() - k,
{
    let all = wrapped_cells_from(segments, area_x, area_width, row_y, viewport_bottom, skip, prefix_w, k);
    if k < segments.len() {
        let sv = segments[k]@;
        lemma_segment_cells_members(sv, area_x, area_width, row_y, viewport_bottom, skip, prefix_w, 0);
        lemma_wrapped_cells_members(segments, area_x, area_width, row_y, viewport_bottom, skip, prefix_w, k + 1);
        let head = segment_cells_from(sv, area_x, area_width, row_y, viewport_bottom, skip, prefix_w, 0);
        let rest = wrapped_cells_from(segments, area_x, area_width, row_y, viewport_bottom, skip, prefix_w, k + 1);
        assert(all == head + rest);
        assert forall|i: int| 0 <= i < all.len() implies {
            let cell = #[trigger] all[i];
            &&& area_x + prefix_w <= cell.0 < area_x + area_width
            &&& row_y <= cell.1 < viewport_bottom
            &&& exists|k3: int, m: int| 0 <= k3 < segments.len() && 0 <= m < segments[k3]@.len()
                && #[trigger] segment_covers(segments[k3]@[m], cell.0, cell.1, area_x, row_y, skip, prefix_w)
        } by {
            if i < head.len() {
                let cell = head[i];
                assert(all[i] == cell);
                let m = choose|m: int| 0 <= m < sv.len() && segment_covers(#[trigger] sv[m], cell.0, cell.1, area_x, row_y, skip, prefix_w);
                assert(segment_covers(segments[k]@[m], cell.0, cell.1, area_x, row_y, skip, prefix_w));
            } else {
                assert(all[i] == rest[i - head.len()]);
            }
        }
    }
}

/// Whether cell (`x`, `y`) is one a single-row line's match covers: it is
/// on the line's row, at the pane's left edge plus one of the match's
/// display columns (counted from the line's start plus the gutter).
pub open spec fn match_covers(cols: (usize, usize), x: u16, y: u16, area_x: u16, row_y: u16, prefix_w: u16) -> bool {
    &&& y == row_y
    &&& exists|c: int| prefix_w + cols.0 <= c < prefix_w + cols.1 && x == area_x + #[trigger] kept_column(c)
}

proof fn lemma_single_row_cells_members(
    cols: Seq<(usize, usize)>,
    area_x: u16,
    area_width: u16,
    row_y: u16,
    prefix_w: u16,
    k: int,
)
    requires
        0 <= k,
        single_row_safe(cols, area_x, area_width, prefix_w),
    ensures
        forall|i: int| 0 <= i < single_row_cells_from(cols, area_x, area_width, row_y, prefix_w, k).len() ==> {
            let cell = #[trigger] single_row_cells_from(cols, area_x, area_width, row_y, prefix_w, k)[i];
            &&& area_x <= cell.0 < area_x + area_width
            &&& exists|m: int| k <= m < cols.len() && match_covers(#[trigger] cols[m], cell.0, cell.1, area_x, row_y, prefix_w)
        },
    decreases cols.len() - k,
{
    let all = single_row_cells_from(cols, area_x, area_width, row_y, prefix_w, k);
    if k < cols.len() {
        lemma_single_row_cells_members(cols, area_x, area_width, row_y, prefix_w, k + 1);
        let cs = prefix_w + cols[k].0;
        let ce = prefix_w + cols[k].1;
        let head = span_cells(area_x as int, area_x + area_width, row_y, cs, ce);
        let rest = single_row_cells_from(cols, area_x, area_width, row_y, prefix_w, k + 1);
        assert(all == head + rest);
        if cs < ce {
            lemma_span_cells_members(area_x as int, area_x + area_width, row_y, cs, ce);
        } else {
            assert(head.len() == 0);
        }
        assert forall|i: int| 0 <= i < all.len() implies {
            let cell = #[trigger] all[i];
            &&& area_x <= cell.0 < area_x + area_width
            &&& exists|m: int| k <= m < cols.len() && match_covers(#[trigger] cols[m], cell.0, cell.1, area_x, row_y, prefix_w)
        } by {
            if i < head.len() {
                let cell = head[i];
                assert(all[i] == cell);
                let c = choose|c: int| cs <= c < ce && cell.0 == area_x + #[trigger] kept_column(c);
                assert(match_covers(cols[k], cell.0, cell.1, area_x, row_y, prefix_w));
            } else {
                assert(all[i] == rest[i - head.len()]);
                let cell = rest[i - head.len()];
                let m = choose|m: int| k + 1 <= m < cols.len() && match_covers(#[trigger] cols[m], cell.0, cell.1, area_x, row_y, prefix_w);
                assert(k <= m < cols.len());
            }
        }
    }
}

/// Every cell a single-row line highlights lies in the pane, on the line's
/// row, and is a cell one of the matches covers.
pub proof fn lemma_single_row_cells_lie_in_pane(
    cols: Seq<(usize, usize)>,
    area_x: u16,
    area_width: u16,
    row_y: u16,
    prefix_w: u16,
)
    requires
        single_row_safe(cols, area_x, area_width, prefix_w),
    ensures
        forall|i: int| 0 <= i < single_row_cells_from(cols, area_x, area_width, row_y, prefix_w, 0).len() ==> {
            let cell = #[trigger] single_row_cells_from(cols, area_x, area_width, row_y, prefix_w, 0)[i];
            &&& area_x <= cell.0 < area_x + area_width
            &&& cell.1 == row_y
            &&& exists|m: int| 0 <= m < cols.len() && #[trigger] match_covers(cols[m], cell.0, cell.1, area_x, row_y, prefix_w)
        },
{
    lemma_single_row_cells_members(cols, area_x, area_width, row_y, prefix_w, 0);
}

} // verus!
