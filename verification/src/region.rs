//! Screen regions: reading the rectangle that a selector tool prints, and
//! writing it back in the forms the capture and recording tools take.
use vstd::prelude::*;
use crate::text::{
    chars_of, find_in, int_text, lacks, lemma_find_after, lemma_int_text_lacks,
    lemma_int_text_trimmed, lemma_parse_int_text, lemma_split_join, lemma_split_lacking, lossy_text,
    parse_i32, parse_i32_range, push_char, push_int, split_on, split_once, split_ranges, sub_chars, trim,
    trim_bounds, utf8_lossy,
};

verus! {

/// A rectangle on screen in display coordinates, origin at the top left.
#[derive(Debug, Clone, Copy, PartialEq, Eq, Structural)]
pub struct Region {
    pub x: i32,
    pub y: i32,
    pub w: i32,
    pub h: i32,
}

/// The value of one field: the `i32` that the field denotes once trimmed.
pub open spec fn field_value(f: Seq<char>) -> Option<i32> {
    parse_i32(trim(f))
}

/// The region that `s` denotes as comma-separated integers `x,y,w,h`: every
/// field must be an integer, at least four are needed, and the first four
/// are taken.
pub open spec fn csv_region(s: Seq<char>) -> Option<Region> {
    let parts = split_on(s, ',');
    if parts.len() >= 4 && forall|k: int| 0 <= k < parts.len() ==> (#[trigger] field_value(parts[k])) is Some {
        Some(
            Region {
                x: field_value(parts[0])->0,
                y: field_value(parts[1])->0,
                w: field_value(parts[2])->0,
                h: field_value(parts[3])->0,
            },
        )
    } else {
        None
    }
}

/// The region that `s` denotes in the form `x,y wxh`: split at the first
/// space, then the position at its first comma and the size at its first
/// `x`; each of the four fields must be an integer.
pub open spec fn slurp_region(s: Seq<char>) -> Option<Region> {
    match split_once(s, ' ') {
        Some((pos, dim)) => match (split_once(pos, ','), split_once(dim, 'x')) {
            (Some((xs, ys)), Some((ws, hs))) => match (
                field_value(xs),
                field_value(ys),
                field_value(ws),
                field_value(hs),
            ) {
                (Some(x), Some(y), Some(w), Some(h)) => Some(Region { x, y, w, h }),
                _ => None,
            },
            _ => None,
        },
        None => None,
    }
}

/// Parses the field `v[lo..hi]`.
fn parse_field(v: &Vec<char>, lo: usize, hi: usize) -> (r: Option<i32>)
    requires
        lo <= hi <= v.len(),
    ensures
        r == field_value(v@.subrange(lo as int, hi as int)),
{
    let (a, b) = trim_bounds(v, lo, hi);
    parse_i32_range(v, a, b)
}

fn csv_chars(v: &Vec<char>) -> (r: Option<Region>)
    ensures
        r == csv_region(v@),
{
    let ranges = split_ranges(v, ',');
    let ghost parts = split_on(v@, ',');
    let mut values: Vec<i32> = Vec::new();
    let mut k: usize = 0;
    while k < ranges.len()
        invariant
            parts == split_on(v@, ','),
            ranges.len() == parts.len(),
            forall|j: int|
                0 <= j < ranges.len() ==> {
                    &&& (#[trigger] ranges[j]).0 <= ranges[j].1 <= v.len()
                    &&& v@.subrange(ranges[j].0 as int, ranges[j].1 as int) == parts[j]
                },
            k <= ranges.len(),
            values.len() == k,
            forall|j: int| 0 <= j < k ==> field_value(parts[j]) == Some(#[trigger] values[j]),
        decreases ranges.len() - k,
    {
        let (lo, hi) = ranges[k];
        match parse_field(v, lo, hi) {
            Some(value) => values.push(value),
            None => {
                assert(field_value(parts[k as int]) is None);
                return None;
            },
        }
        k = k + 1;
    }
    if values.len() < 4 {
        None
    } else {
        assert forall|j: int| 0 <= j < parts.len() implies (#[trigger] field_value(parts[j])) is Some by {
            assert(field_value(parts[j]) == Some(values[j]));
        }
        Some(Region { x: values[0], y: values[1], w: values[2], h: values[3] })
    }
}

/// Parses `x,y,w,h` (comma-separated integers, each trimmed), as printed by
/// the overlay selectors.
pub fn parse_region_csv(s: &str) -> (r: Option<Region>)
    ensures
        r == csv_region(s@),
{
    let v = chars_of(s);
    csv_chars(&v)
}

fn slurp_chars(v: &Vec<char>) -> (r: Option<Region>)
    ensures
        r == slurp_region(v@),
{
    let n = v.len();
    assert(v@.subrange(0, n as int) =~= v@);
    let space = match find_in(v, 0, n, ' ') {
        Some(i) => i,
        None => return None,
    };
    let comma = match find_in(v, 0, space, ',') {
        Some(i) => i,
        None => {
            assert(v@.take(space as int) =~= v@.subrange(0, space as int));
            return None;
        },
    };
    let ex = match find_in(v, space + 1, n, 'x') {
        Some(i) => i,
        None => {
            assert(v@.skip(space + 1) =~= v@.subrange(space + 1, n as int));
            return None;
        },
    };
    let ghost pos = v@.take(space as int);
    let ghost dim = v@.skip(space + 1);
    assert(pos =~= v@.subrange(0, space as int));
    assert(dim =~= v@.subrange(space + 1, n as int));
    assert(pos.take(comma as int) =~= v@.subrange(0, comma as int));
    assert(pos.skip(comma + 1) =~= v@.subrange(comma + 1, space as int));
    assert(dim.take(ex - space - 1) =~= v@.subrange(space + 1, ex as int));
    assert(dim.skip(ex - space) =~= v@.subrange(ex + 1, n as int));
    let x = parse_field(v, 0, comma);
    let y = parse_field(v, comma + 1, space);
    let w = parse_field(v, space + 1, ex);
    let h = parse_field(v, ex + 1, n);
    match (x, y, w, h) {
        (Some(x), Some(y), Some(w), Some(h)) => Some(Region { x, y, w, h }),
        _ => None,
    }
}

/// Parses `x,y wxh`, the form that `slurp` prints.
pub fn parse_slurp(s: &str) -> (r: Option<Region>)
    ensures
        r == slurp_region(s@),
{
    let v = chars_of(s);
    slurp_chars(&v)
}


/// `x,y wxh`: the geometry that grim, slurp, wl-screenrec and wf-recorder use.
pub open spec fn slurp_text(r: Region) -> Seq<char> {
    int_text(r.x as int) + seq![','] + int_text(r.y as int) + seq![' '] + int_text(r.w as int) + seq!['x']
        + int_text(r.h as int)
}

/// `x,y,w,h`: the geometry that screencapture takes and the overlay
/// selectors print.
pub open spec fn csv_text(r: Region) -> Seq<char> {
    int_text(r.x as int) + seq![','] + int_text(r.y as int) + seq![','] + int_text(r.w as int) + seq![',']
        + int_text(r.h as int)
}

/// `crop=w:h:x:y`: the ffmpeg filter that cuts the region out of the desktop.
pub open spec fn crop_text(r: Region) -> Seq<char> {
    seq!['c', 'r', 'o', 'p', '='] + int_text(r.w as int) + seq![':'] + int_text(r.h as int) + seq![':']
        + int_text(r.x as int) + seq![':'] + int_text(r.y as int)
}

/// Writes `r` as `x,y wxh`.
pub fn slurp_geometry(r: &Region) -> (s: String)
    ensures
        s@ == slurp_text(*r),
{
    let mut s = String::new();
    push_int(&mut s, r.x);
    push_char(&mut s, ',');
    push_int(&mut s, r.y);
    push_char(&mut s, ' ');
    push_int(&mut s, r.w);
    push_char(&mut s, 'x');
    push_int(&mut s, r.h);
    assert(s@ =~= slurp_text(*r));
    s
}

/// Writes `r` as `x,y,w,h`.
pub fn region_csv(r: &Region) -> (s: String)
    ensures
        s@ == csv_text(*r),
{
    let mut s = String::new();
    push_int(&mut s, r.x);
    push_char(&mut s, ',');
    push_int(&mut s, r.y);
    push_char(&mut s, ',');
    push_int(&mut s, r.w);
    push_char(&mut s, ',');
    push_int(&mut s, r.h);
    assert(s@ =~= csv_text(*r));
    s
}

/// Writes `r` as the ffmpeg filter `crop=w:h:x:y`.
pub fn crop_filter(r: &Region) -> (s: String)
    ensures
        s@ == crop_text(*r),
{
    let mut s = String::new();
    push_char(&mut s, 'c');
    push_char(&mut s, 'r');
    push_char(&mut s, 'o');
    push_char(&mut s, 'p');
    push_char(&mut s, '=');
    push_int(&mut s, r.w);
    push_char(&mut s, ':');
    push_int(&mut s, r.h);
    push_char(&mut s, ':');
    push_int(&mut s, r.x);
    push_char(&mut s, ':');
    push_int(&mut s, r.y);
    assert(s@ =~= crop_text(*r));
    s
}

/// Reading back the `x,y wxh` text of a region gives the region.
pub proof fn lemma_slurp_roundtrip(r: Region)
    ensures
        slurp_region(slurp_text(r)) == Some(r),
{
    let xs = int_text(r.x as int);
    let ys = int_text(r.y as int);
    let ws = int_text(r.w as int);
    let hs = int_text(r.h as int);
    lemma_int_text_lacks(r.x as int, ' ');
    lemma_int_text_lacks(r.y as int, ' ');
    lemma_int_text_lacks(r.x as int, ',');
    lemma_int_text_lacks(r.w as int, 'x');
    let pos = xs + seq![','] + ys;
    let dim = ws + seq!['x'] + hs;
    assert(lacks(pos, ' ')) by {
        assert forall|i: int| 0 <= i < pos.len() implies #[trigger] pos[i] != ' ' by {
            if i < xs.len() {
                assert(pos[i] == xs[i]);
            } else if i > xs.len() {
                assert(pos[i] == ys[i - xs.len() - 1]);
            }
        }
    }
    let s = slurp_text(r);
    assert(s =~= pos + seq![' '] + dim);
    lemma_find_after(pos, ' ', dim);
    assert(s.take(pos.len() as int) =~= pos);
    assert(s.skip(pos.len() as int + 1) =~= dim);
    lemma_find_after(xs, ',', ys);
    assert(pos.take(xs.len() as int) =~= xs);
    assert(pos.skip(xs.len() as int + 1) =~= ys);
    lemma_find_after(ws, 'x', hs);
    assert(dim.take(ws.len() as int) =~= ws);
    assert(dim.skip(ws.len() as int + 1) =~= hs);
    lemma_int_text_trimmed(r.x as int);
    lemma_int_text_trimmed(r.y as int);
    lemma_int_text_trimmed(r.w as int);
    lemma_int_text_trimmed(r.h as int);
    lemma_parse_int_text(r.x);
    lemma_parse_int_text(r.y);
    lemma_parse_int_text(r.w);
    lemma_parse_int_text(r.h);
}

/// Reading back the `x,y,w,h` text of a region gives the region.
pub proof fn lemma_csv_roundtrip(r: Region)
    ensures
        csv_region(csv_text(r)) == Some(r),
{
    let xs = int_text(r.x as int);
    let ys = int_text(r.y as int);
    let ws = int_text(r.w as int);
    let hs = int_text(r.h as int);
    lemma_int_text_lacks(r.x as int, ',');
    lemma_int_text_lacks(r.y as int, ',');
    lemma_int_text_lacks(r.w as int, ',');
    lemma_int_text_lacks(r.h as int, ',');
    let s = csv_text(r);
    let tail2 = ws + seq![','] + hs;
    let tail1 = ys + seq![','] + tail2;
    assert(s =~= xs + seq![','] + tail1);
    lemma_split_join(ws, ',', hs);
    lemma_split_join(ys, ',', tail2);
    lemma_split_join(xs, ',', tail1);
    lemma_split_lacking(xs, ',');
    lemma_split_lacking(ys, ',');
    lemma_split_lacking(ws, ',');
    lemma_split_lacking(hs, ',');
    let parts = split_on(s, ',');
    assert(parts =~~= seq![xs, ys, ws, hs]);
    lemma_int_text_trimmed(r.x as int);
    lemma_int_text_trimmed(r.y as int);
    lemma_int_text_trimmed(r.w as int);
    lemma_int_text_trimmed(r.h as int);
    lemma_parse_int_text(r.x);
    lemma_parse_int_text(r.y);
    lemma_parse_int_text(r.w);
    lemma_parse_int_text(r.h);
    assert forall|k: int| 0 <= k < parts.len() implies (#[trigger] field_value(parts[k])) is Some by {
        if k == 0 {
        } else if k == 1 {
        } else if k == 2 {
        } else {
        }
    }
}


/// Sides must exceed this many pixels for a screenshot or a recording.
pub const CAPTURE_MIN_SIDE: i32 = 4;

/// Sides must exceed this many pixels for text recognition.
pub const OCR_MIN_SIDE: i32 = 2;

/// The selection, when both of its sides exceed `min_side`.
pub open spec fn usable(selection: Option<Region>, min_side: i32) -> Option<Region> {
    match selection {
        Some(r) => if r.w > min_side && r.h > min_side {
            Some(r)
        } else {
            None
        },
        None => None,
    }
}

/// Keeps a selection only when both of its sides exceed `min_side`; a
/// cancelled or too small selection gives `None`.
pub fn usable_region(selection: Option<Region>, min_side: i32) -> (r: Option<Region>)
    ensures
        r == usable(selection, min_side),
        // Kept exactly when both sides exceed `min_side`, wherever it lies.
        forall|x: i32, y: i32, w: i32, h: i32|
            selection == Some(Region { x, y, w, h }) ==> r == if w > min_side && h > min_side {
                Some(Region { x, y, w, h })
            } else {
                None
            },
        selection is None ==> r is None,
{
    match selection {
        Some(r) => if r.w > min_side && r.h > min_side {
            Some(r)
        } else {
            None
        },
        None => None,
    }
}

/// The interactive tool that lets the user drag a rectangle.
#[derive(Debug, Clone, Copy, PartialEq, Eq, Structural)]
pub enum Selector {
    /// `slurp -d`, which prints `x,y wxh` and fails when cancelled.
    Slurp,
    /// A full-screen overlay script that prints `x,y,w,h`.
    Overlay,
}

/// The region that a selector's run reports: its standard output decoded
/// and trimmed, then read in the selector's form; a failed `slurp` run
/// selects nothing.
pub open spec fn selected_region(selector: Selector, exited_ok: bool, stdout: Seq<u8>) -> Option<Region> {
    let text = trim(utf8_lossy(stdout));
    match selector {
        Selector::Slurp => if exited_ok {
            slurp_region(text)
        } else {
            None
        },
        Selector::Overlay => csv_region(text),
    }
}

/// Reads the region out of a finished selector run, given whether the
/// process exited successfully and what it printed.
pub fn select_region_pub(selector: Selector, exited_ok: bool, stdout: &[u8]) -> (r: Option<Region>)
    ensures
        r == selected_region(selector, exited_ok, stdout@),
        selector == Selector::Slurp && !exited_ok ==> r is None,
        selector == Selector::Slurp && exited_ok ==> r == slurp_region(trim(utf8_lossy(stdout@))),
        selector == Selector::Overlay ==> r == csv_region(trim(utf8_lossy(stdout@))),
{
    if selector == Selector::Slurp && !exited_ok {
        return None;
    }
    let text = lossy_text(stdout);
    let all = chars_of(text.as_str());
    let (a, b) = trim_bounds(&all, 0, all.len());
    assert(all@.subrange(0, all@.len() as int) =~= all@);
    let trimmed = sub_chars(&all, a, b);
    match selector {
        Selector::Slurp => slurp_chars(&trimmed),
        Selector::Overlay => csv_chars(&trimmed),
    }
}


/// A selection is kept exactly when both of its sides exceed `min_side`,
/// wherever on screen it lies (negative coordinates included).
pub proof fn lemma_usable_ignores_position(x: i32, y: i32, w: i32, h: i32, min_side: i32)
    ensures
        usable(Some(Region { x, y, w, h }), min_side) == if w > min_side && h > min_side {
            Some(Region { x, y, w, h })
        } else {
            None
        },
{
}

} // verus!
