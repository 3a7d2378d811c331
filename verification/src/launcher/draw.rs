//! The launcher overlay's picture: the search row with its cursor bar, the
//! result rows with the selection highlight and row dividers, and the texts
//! drawn on them.

use vstd::prelude::*;
use crate::pixels::{fits, lemma_fill_rect_keeps_len, lemma_fits_in_bounds, clear, clear_spec, fill_rect, fill_rect_spec, hline, Rgba};
use crate::text::{take_chars, take_chars_string};

verus! {

/// Size of the overlay surface.
pub const OVERLAY_W: u32 = 600;
pub const OVERLAY_H: u32 = 400;

/// Height of a result row and of the search row; inner padding.
pub const ROW_H: i32 = 44;
pub const SEARCH_H: i32 = 52;
pub const PADDING: i32 = 20;

/// Colours of the overlay.
#[derive(Debug, Clone, Copy, PartialEq, Eq, Structural)]
pub struct OverlayPalette {
    pub surface_3: Rgba,
    pub surface_4: Rgba,
    pub divider: Rgba,
    pub selection_bg: Rgba,
    pub accent: Rgba,
}

/// Top of result row `i`.
pub open spec fn row_top(i: int) -> int {
    SEARCH_H + i * ROW_H
}

/// Drawing rows `0..n` of `count` results: the selected row gets the
/// selection background and an accent bar on its left edge; every row but
/// the last gets a divider on its bottom line, inset by the padding.
pub open spec fn rows_spec(p: Seq<u8>, buf_w: u32, buf_h: u32, count: int, selected: int, pal: OverlayPalette, n: int) -> Seq<u8>
    decreases n,
{
    if n <= 0 {
        p
    } else {
        let stride = buf_w * 4;
        let q = rows_spec(p, buf_w, buf_h, count, selected, pal, n - 1);
        let i = n - 1;
        let ry = row_top(i);
        let q1 = if i == selected {
            let a = fill_rect_spec(q, stride, buf_w, buf_h, 0, ry as i32, OVERLAY_W, ROW_H as u32, pal.selection_bg);
            fill_rect_spec(a, stride, buf_w, buf_h, 0, ry as i32, 2, ROW_H as u32, pal.accent)
        } else {
            q
        };
        if i + 1 < count {
            fill_rect_spec(q1, stride, buf_w, buf_h, PADDING, (ry + ROW_H - 1) as i32, (OVERLAY_W - 2 * PADDING) as u32, 1, pal.divider)
        } else {
            q1
        }
    }
}

/// The overlay's shapes for `count` results with row `selected` selected.
pub open spec fn overlay_shapes_spec(p: Seq<u8>, buf_w: u32, buf_h: u32, count: int, selected: int, pal: OverlayPalette) -> Seq<u8> {
    let stride = buf_w * 4;
    let s1 = clear_spec(p, pal.surface_3);
    let s2 = fill_rect_spec(s1, stride, buf_w, buf_h, 0, 0, OVERLAY_W, SEARCH_H as u32, pal.surface_4);
    let s3 = fill_rect_spec(s2, stride, buf_w, buf_h, 0, SEARCH_H, OVERLAY_W, 1, pal.divider);
    let s4 = fill_rect_spec(s3, stride, buf_w, buf_h, (PADDING + 2) as i32, PADDING, 2, (SEARCH_H - PADDING * 2) as u32, pal.accent);
    rows_spec(s4, buf_w, buf_h, count, selected, pal, count)
}

proof fn lemma_rows_len(p: Seq<u8>, buf_w: u32, buf_h: u32, count: int, selected: int, pal: OverlayPalette, n: int)
    requires
        fits(p.len() as int, buf_w * 4, buf_w, buf_h),
        n * ROW_H + SEARCH_H <= i32::MAX,
    ensures
        rows_spec(p, buf_w, buf_h, count, selected, pal, n).len() == p.len(),
    decreases n,
{
    if n > 0 {
        let stride = buf_w * 4;
        lemma_rows_len(p, buf_w, buf_h, count, selected, pal, n - 1);
        let q = rows_spec(p, buf_w, buf_h, count, selected, pal, n - 1);
        let ry = row_top(n - 1);
        lemma_fits_in_bounds(q.len() as int, stride, buf_w, buf_h, 0, ry as i32, OVERLAY_W, ROW_H as u32);
        lemma_fill_rect_keeps_len(q, stride, buf_w, buf_h, 0, ry as i32, OVERLAY_W, ROW_H as u32, pal.selection_bg);
        let a = fill_rect_spec(q, stride, buf_w, buf_h, 0, ry as i32, OVERLAY_W, ROW_H as u32, pal.selection_bg);
        lemma_fits_in_bounds(a.len() as int, stride, buf_w, buf_h, 0, ry as i32, 2, ROW_H as u32);
        lemma_fill_rect_keeps_len(a, stride, buf_w, buf_h, 0, ry as i32, 2, ROW_H as u32, pal.accent);
        let q1 = if n - 1 == selected {
            fill_rect_spec(a, stride, buf_w, buf_h, 0, ry as i32, 2, ROW_H as u32, pal.accent)
        } else {
            q
        };
        lemma_fits_in_bounds(q1.len() as int, stride, buf_w, buf_h, PADDING, (ry + ROW_H - 1) as i32, 560, 1);
        lemma_fill_rect_keeps_len(q1, stride, buf_w, buf_h, PADDING, (ry + ROW_H - 1) as i32, 560, 1, pal.divider);
    }
}

/// Draws the overlay's shapes (see [`overlay_shapes_spec`]); the texts go
/// on top.
pub fn paint_overlay_shapes(
    pixels: &mut Vec<u8>,
    stride: usize,
    buf_w: u32,
    buf_h: u32,
    count: usize,
    selected: usize,
    pal: &OverlayPalette,
)
    requires
        fits(old(pixels)@.len() as int, stride as int, buf_w, buf_h),
        count * ROW_H + SEARCH_H <= i32::MAX,
    ensures
        final(pixels)@ == overlay_shapes_spec(old(pixels)@, buf_w, buf_h, count as int, selected as int, *pal),
{
    let ghost len = old(pixels)@.len();
    clear(pixels, pal.surface_3);
    let ghost s1 = pixels@;
    proof {
        lemma_fits_in_bounds(len as int, stride as int, buf_w, buf_h, 0, 0, 600, 52);
        lemma_fill_rect_keeps_len(s1, stride as int, buf_w, buf_h, 0, 0, 600, 52, pal.surface_4);
    }
    fill_rect(pixels, stride, buf_w, buf_h, 0, 0, OVERLAY_W, SEARCH_H as u32, pal.surface_4);
    let ghost s2 = pixels@;
    proof {
        lemma_fits_in_bounds(len as int, stride as int, buf_w, buf_h, 0, 52, 600, 1);
        lemma_fill_rect_keeps_len(s2, stride as int, buf_w, buf_h, 0, 52, 600, 1, pal.divider);
    }
    hline(pixels, stride, buf_w, buf_h, SEARCH_H, 0, OVERLAY_W as i32, pal.divider);
    let ghost s3 = pixels@;
    proof {
        lemma_fits_in_bounds(len as int, stride as int, buf_w, buf_h, 22, 20, 2, 12);
        lemma_fill_rect_keeps_len(s3, stride as int, buf_w, buf_h, 22, 20, 2, 12, pal.accent);
    }
    fill_rect(pixels, stride, buf_w, buf_h, PADDING + 2, PADDING, 2, (SEARCH_H - PADDING * 2) as u32, pal.accent);
    let ghost s4 = pixels@;
    let mut i: usize = 0;
    while i < count
        invariant
            i <= count,
            count * ROW_H + SEARCH_H <= i32::MAX,
            fits(len as int, stride as int, buf_w, buf_h),
            s4.len() == len,
            pixels@ == rows_spec(s4, buf_w, buf_h, count as int, selected as int, *pal, i as int),
            pixels@.len() == len,
        decreases count - i,
    {
        let ry: i32 = SEARCH_H + (i as i32) * ROW_H;
        let ghost q = pixels@;
        if i == selected {
            proof {
                lemma_fits_in_bounds(len as int, stride as int, buf_w, buf_h, 0, ry, 600, 44);
                lemma_fill_rect_keeps_len(q, stride as int, buf_w, buf_h, 0, ry, 600, 44, pal.selection_bg);
            }
            fill_rect(pixels, stride, buf_w, buf_h, 0, ry, OVERLAY_W, ROW_H as u32, pal.selection_bg);
            let ghost a = pixels@;
            proof {
                lemma_fits_in_bounds(len as int, stride as int, buf_w, buf_h, 0, ry, 2, 44);
                lemma_fill_rect_keeps_len(a, stride as int, buf_w, buf_h, 0, ry, 2, 44, pal.accent);
            }
            fill_rect(pixels, stride, buf_w, buf_h, 0, ry, 2, ROW_H as u32, pal.accent);
        }
        if i + 1 < count {
            let ghost q1 = pixels@;
            proof {
                lemma_fits_in_bounds(len as int, stride as int, buf_w, buf_h, 20, (ry + 43) as i32, 560, 1);
                lemma_fill_rect_keeps_len(q1, stride as int, buf_w, buf_h, 20, (ry + 43) as i32, 560, 1, pal.divider);
            }
            hline(pixels, stride, buf_w, buf_h, ry + ROW_H - 1, PADDING, OVERLAY_W as i32 - PADDING, pal.divider);
        }
        i = i + 1;
    }
}

/// Characters of a comment shown under an application's name.
pub const COMMENT_CHARS: usize = 60;

/// The comment line of a result: its first 60 characters; none when the
/// application has no comment or an empty one.
pub open spec fn comment_line_spec(comment: Option<Seq<char>>) -> Option<Seq<char>> {
    match comment {
        Some(c) => if c.len() == 0 { None } else { Some(take_chars(c, COMMENT_CHARS as nat)) },
        None => None,
    }
}

pub fn comment_line(comment: &Option<String>) -> (r: Option<String>)
    ensures
        match comment_line_spec(
            match comment {
                Some(c) => Some(c@),
                None => None,
            },
        ) {
            Some(t) => r matches Some(s) && s@ == t,
            None => r is None,
        },
{
    match comment {
        Some(c) => {
            if c.as_str().is_empty() {
                None
            } else {
                Some(take_chars_string(c.as_str(), COMMENT_CHARS))
            }
        },
        None => None,
    }
}

/// The search row's text: the query, or a dimmed placeholder while it is
/// empty. The flag says whether the placeholder is shown.
pub fn search_text(query: &str) -> (r: (String, bool))
    ensures
        query@.len() == 0 ==> r.1 && r.0@ == "Type to search\u{2026}"@,
        query@.len() != 0 ==> !r.1 && r.0@ == query@,
{
    if query.is_empty() {
        (String::from_str("Type to search\u{2026}"), true)
    } else {
        (String::from_str(query), false)
    }
}

} // verus!
