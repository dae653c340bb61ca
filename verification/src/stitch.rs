//! Vertical stitching of scrolled screen captures.
//!
//! For each consecutive pair of frames (A, B), the rows at the bottom of A
//! that reappear near the top of B (the "overlap") are located by a sampled
//! mean-squared-error search; the duplicate rows of B are dropped and the
//! unique remainder is placed below A.
use vstd::prelude::*;

verus! {

/// An RGBA8 image, row-major, four bytes per pixel.
pub struct Frame {
    pub width: u32,
    pub height: u32,
    pub rgba: Vec<u8>,
}

/// Byte position of channel `c` of pixel `(x, y)` in a row-major RGBA buffer
/// whose rows are `w` pixels wide.
pub open spec fn byte_index(w: int, x: int, y: int, c: int) -> int {
    (y * w + x) * 4 + c
}

impl Frame {
    /// The buffer holds exactly `width * height` pixels.
    pub open spec fn wf(&self) -> bool {
        self.rgba@.len() == self.width * self.height * 4
    }

    /// Channel `c` of pixel `(x, y)`.
    pub open spec fn px(&self, x: int, y: int, c: int) -> u8 {
        self.rgba@[byte_index(self.width as int, x, y, c)]
    }

    /// Reads channel `c` of pixel `(x, y)`.
    pub fn channel(&self, x: u32, y: u32, c: usize) -> (r: u8)
        requires
            self.wf(),
            x < self.width,
            y < self.height,
            c < 4,
        ensures
            r == self.px(x as int, y as int, c as int),
    {
        let len = self.rgba.len();
        proof {
            assert(len == self.rgba@.len());
            lemma_index_in_bounds(self.width as int, self.height as int, x as int, y as int, c as int);
        }
        let row: usize = (y as usize) * (self.width as usize);
        self.rgba[(row + x as usize) * 4 + c]
    }
}

/// A byte position inside a `w` x `h` buffer lies below `w * h * 4`.
pub proof fn lemma_index_in_bounds(w: int, h: int, x: int, y: int, c: int)
    requires
        0 <= x < w,
        0 <= y < h,
        0 <= c < 4,
    ensures
        0 <= y * w,
        y * w <= (h - 1) * w,
        0 <= byte_index(w, x, y, c) < w * h * 4,
{
    assert(0 <= y * w) by (nonlinear_arith)
        requires
            0 <= y,
            0 <= w,
    ;
    assert(y * w <= (h - 1) * w) by (nonlinear_arith)
        requires
            0 <= y < h,
            0 <= w,
    ;
    assert((h - 1) * w + w == h * w) by (nonlinear_arith);
}

/// Every byte of a row lies before the first byte of any later row.
pub proof fn lemma_index_before_row(w: int, x: int, y: int, c: int, y2: int)
    requires
        0 <= x < w,
        0 <= y < y2,
        0 <= c < 4,
    ensures
        byte_index(w, x, y, c) < y2 * w * 4,
{
    assert(y * w + w <= y2 * w) by (nonlinear_arith)
        requires
            y < y2,
            0 <= w,
    ;
    assert(y2 * w * 4 == (y2 * w) * 4) by (nonlinear_arith);
}


/// Largest value of `sq_diff`: three channels, each differing by at most 255.
pub open spec fn max_sq_diff() -> int {
    195075
}

/// Squared RGB distance (alpha ignored) between pixel `(x, ya)` of `a` and
/// pixel `(x, yb)` of `b`.
pub open spec fn sq_diff(a: &Frame, b: &Frame, x: int, ya: int, yb: int) -> int {
    let dr = a.px(x, ya, 0) - b.px(x, yb, 0);
    let dg = a.px(x, ya, 1) - b.px(x, yb, 1);
    let db = a.px(x, ya, 2) - b.px(x, yb, 2);
    dr * dr + dg * dg + db * db
}

/// Whether row `ay + dy` of `a` and row `by + dy` of `b` both exist.
pub open spec fn sampled(a: &Frame, ay: int, b: &Frame, by: int, dy: int) -> bool {
    ay + dy < a.height && by + dy < b.height
}

/// Sum of `sq_diff` over the sampled rows `dy < n` of column `x`.
pub open spec fn column_sum(a: &Frame, ay: int, b: &Frame, by: int, x: int, n: nat) -> int
    decreases n,
{
    if n == 0 {
        0
    } else {
        let dy = n - 1;
        column_sum(a, ay, b, by, x, (n - 1) as nat) + if sampled(a, ay, b, by, dy) {
            sq_diff(a, b, x, ay + dy, by + dy)
        } else {
            0
        }
    }
}

/// Number of sampled rows `dy < n`.
pub open spec fn column_count(a: &Frame, ay: int, b: &Frame, by: int, n: nat) -> int
    decreases n,
{
    if n == 0 {
        0
    } else {
        column_count(a, ay, b, by, (n - 1) as nat) + if sampled(a, ay, b, by, n - 1) {
            1int
        } else {
            0
        }
    }
}

/// Horizontal distance between sampled columns of a strip `w` pixels wide:
/// about 24 columns are sampled, and at least every column when `w < 48`.
pub open spec fn sample_step(w: int) -> int {
    if w / 24 > 1 {
        w / 24
    } else {
        1
    }
}

/// Sum over the sampled columns `dx, dx + step, ...` below `w`.
pub open spec fn strip_sum(a: &Frame, ay: int, b: &Frame, by: int, h: nat, w: int, dx: int) -> int
    decreases (if dx < 0 || dx >= w { 0 } else { w - dx }),
{
    if dx >= w || dx < 0 {
        0
    } else {
        proof {
            assert(sample_step(w) >= 1);
        }
        column_sum(a, ay, b, by, dx, h) + strip_sum(a, ay, b, by, h, w, dx + sample_step(w))
    }
}

/// Number of samples over the sampled columns `dx, dx + step, ...` below `w`.
pub open spec fn strip_count(a: &Frame, ay: int, b: &Frame, by: int, h: nat, w: int, dx: int) -> int
    decreases (if dx < 0 || dx >= w { 0 } else { w - dx }),
{
    if dx >= w || dx < 0 {
        0
    } else {
        proof {
            assert(sample_step(w) >= 1);
        }
        column_count(a, ay, b, by, h) + strip_count(a, ay, b, by, h, w, dx + sample_step(w))
    }
}

/// Sampled mean squared error between the `h` rows of `a` from `ay` and the
/// `h` rows of `b` from `by`, over the first `w` columns; `u64::MAX` when no
/// sample exists.
pub open spec fn strip_mse(a: &Frame, ay: int, b: &Frame, by: int, h: nat, w: int) -> u64 {
    let count = strip_count(a, ay, b, by, h, w, 0);
    if count == 0 {
        u64::MAX
    } else {
        (strip_sum(a, ay, b, by, h, w, 0) / count) as u64
    }
}

proof fn lemma_sq_bound(d: int)
    requires
        -255 <= d <= 255,
    ensures
        0 <= d * d <= 65025,
{
    assert(0 <= d * d <= 65025) by (nonlinear_arith)
        requires
            -255 <= d <= 255,
    ;
}

/// Squared RGB distance between pixel `(x, ya)` of `a` and `(x, yb)` of `b`.
fn pixel_sq_diff(a: &Frame, b: &Frame, x: u32, ya: u32, yb: u32) -> (r: u32)
    requires
        a.wf(),
        b.wf(),
        x < a.width,
        x < b.width,
        ya < a.height,
        yb < b.height,
    ensures
        r == sq_diff(a, b, x as int, ya as int, yb as int),
        r <= max_sq_diff(),
{
    let dr: i32 = a.channel(x, ya, 0) as i32 - b.channel(x, yb, 0) as i32;
    let dg: i32 = a.channel(x, ya, 1) as i32 - b.channel(x, yb, 1) as i32;
    let db: i32 = a.channel(x, ya, 2) as i32 - b.channel(x, yb, 2) as i32;
    proof {
        lemma_sq_bound(dr as int);
        lemma_sq_bound(dg as int);
        lemma_sq_bound(db as int);
    }
    (dr * dr + dg * dg + db * db) as u32
}

/// Sampled mean squared error between a strip of `a` starting at row `ay`
/// and a strip of `b` starting at row `by`, both `h` rows high and `w`
/// columns wide. Rows that fall outside either frame are not sampled.
pub fn compare_strip(a: &Frame, ay: u32, b: &Frame, by: u32, h: u32, w: u32) -> (r: u64)
    requires
        a.wf(),
        b.wf(),
        w <= a.width,
        w <= b.width,
        h == 0 || ay + h - 1 <= u32::MAX,
        h == 0 || by + h - 1 <= u32::MAX,
    ensures
        r == strip_mse(a, ay as int, b, by as int, h as nat, w as int),
{
    let step: u32 = if w / 24 > 1 { w / 24 } else { 1 };
    let mut sum: u128 = 0;
    let mut count: u64 = 0;
    let mut dx: u64 = 0;
    let ghost mut cols: int = 0;
    while dx < w as u64
        invariant
            step == sample_step(w as int),
            step >= 1,
            w <= a.width,
            w <= b.width,
            a.wf(),
            b.wf(),
            h == 0 || ay + h - 1 <= u32::MAX,
            h == 0 || by + h - 1 <= u32::MAX,
            0 <= cols <= dx,
            dx <= w + step,
            count <= cols * h,
            sum <= max_sq_diff() * count,
            sum + strip_sum(a, ay as int, b, by as int, h as nat, w as int, dx as int)
                == strip_sum(a, ay as int, b, by as int, h as nat, w as int, 0),
            count + strip_count(a, ay as int, b, by as int, h as nat, w as int, dx as int)
                == strip_count(a, ay as int, b, by as int, h as nat, w as int, 0),
        decreases w + step - dx,
    {
        let ghost sum0 = sum;
        let ghost count0 = count;
        let mut dy: u32 = 0;
        while dy < h
            invariant
                dx < w,
                w <= a.width,
                w <= b.width,
                a.wf(),
                b.wf(),
                h == 0 || ay + h - 1 <= u32::MAX,
                h == 0 || by + h - 1 <= u32::MAX,
                dy <= h,
                0 <= cols < w,
                count0 <= cols * h,
                count == count0 + column_count(a, ay as int, b, by as int, dy as nat),
                sum == sum0 + column_sum(a, ay as int, b, by as int, dx as int, dy as nat),
                column_count(a, ay as int, b, by as int, dy as nat) <= dy,
                sum <= max_sq_diff() * count,
            decreases h - dy,
        {
            let row_a: u32 = ay + dy;
            let row_b: u32 = by + dy;
            if row_a < a.height && row_b < b.height {
                let d = pixel_sq_diff(a, b, dx as u32, row_a, row_b);
                proof {
                    assert(cols * h + h <= (w as int) * (h as int)) by (nonlinear_arith)
                        requires
                            0 <= cols < w,
                            0 <= h,
                    ;
                    assert((w as int) * (h as int) <= 0xffff_ffff * 0xffff_ffffint) by (nonlinear_arith)
                        requires
                            0 <= w <= 0xffff_ffff,
                            0 <= h <= 0xffff_ffff,
                    ;
                }
                sum = sum + d as u128;
                count = count + 1;
            }
            dy = dy + 1;
        }
        proof {
            assert(count <= (cols + 1) * h) by (nonlinear_arith)
                requires
                    count <= count0 + h,
                    count0 <= cols * h,
            ;
        }
        dx = dx + step as u64;
        proof {
            cols = cols + 1;
        }
    }
    if count == 0 {
        u64::MAX
    } else {
        proof {
            assert((sum as int) / (count as int) <= max_sq_diff()) by (nonlinear_arith)
                requires
                    sum <= max_sq_diff() * count,
                    count > 0,
            ;
        }
        (sum / count as u128) as u64
    }
}


/// Mean squared error above which two frames are taken not to overlap.
pub open spec fn mse_threshold() -> u64 {
    250000
}

/// Number of leading rows of the next frame searched for the template:
/// half of `ha`, at least 30, at most `ha`.
pub open spec fn search_rows(ha: int) -> int {
    let half = if ha / 2 > 30 { ha / 2 } else { 30 };
    if half < ha { half } else { ha }
}

/// Height of the template strip cut from the bottom of a frame `ha` rows
/// high: a tenth of it, at least 8, at most half of the search window.
pub open spec fn strip_rows(ha: int) -> int {
    let tenth = if ha / 10 > 8 { ha / 10 } else { 8 };
    if tenth < search_rows(ha) / 2 { tenth } else { search_rows(ha) / 2 }
}

/// `dy` is a row of `b` at which the template strip of `a` is tried.
pub open spec fn is_candidate(a: &Frame, b: &Frame, dy: int) -> bool {
    let ha = a.height as int;
    let hb = b.height as int;
    &&& 0 <= dy
    &&& dy < search_rows(ha)
    &&& dy < hb
    &&& dy + strip_rows(ha) <= hb
}

/// Mean squared error of the bottom strip of `a` placed at row `dy` of `b`.
pub open spec fn candidate_mse(a: &Frame, b: &Frame, dy: int) -> u64 {
    let ha = a.height as int;
    let w = if a.width < b.width { a.width as int } else { b.width as int };
    strip_mse(a, ha - strip_rows(ha), b, dy, strip_rows(ha) as nat, w)
}

/// `d` is the first candidate of least error, and that error is below the
/// threshold.
pub open spec fn is_best_offset(a: &Frame, b: &Frame, d: int) -> bool {
    &&& is_candidate(a, b, d)
    &&& candidate_mse(a, b, d) <= mse_threshold()
    &&& forall|dy: int| is_candidate(a, b, dy) ==> candidate_mse(a, b, d) <= #[trigger] candidate_mse(a, b, dy)
    &&& forall|dy: int|
        is_candidate(a, b, dy) && dy < d ==> candidate_mse(a, b, d) < #[trigger] candidate_mse(a, b, dy)
}

/// Rows at the top of `b` that repeat the bottom of `a`: the template strip
/// plus the rows above its best match, or half of `b` when no candidate
/// matches well enough.
pub open spec fn overlap_rows(a: &Frame, b: &Frame) -> int {
    if exists|d: int| is_best_offset(a, b, d) {
        strip_rows(a.height as int) + choose|d: int| is_best_offset(a, b, d)
    } else {
        b.height as int / 2
    }
}

/// Finds how many rows from the top of `b` repeat the bottom of `a`.
pub fn find_overlap_rows(a: &Frame, b: &Frame) -> (r: u32)
    requires
        a.wf(),
        b.wf(),
    ensures
        r == overlap_rows(a, b),
        r <= b.height,
{
    let w: u32 = if a.width < b.width { a.width } else { b.width };
    let h_a = a.height;
    let h_b = b.height;
    let half: u32 = if h_a / 2 > 30 { h_a / 2 } else { 30 };
    let max_search: u32 = if half < h_a { half } else { h_a };
    let tenth: u32 = if h_a / 10 > 8 { h_a / 10 } else { 8 };
    let strip_h: u32 = if tenth < max_search / 2 { tenth } else { max_search / 2 };
    let template_y: u32 = h_a - strip_h;
    let limit: u32 = if max_search < h_b { max_search } else { h_b };

    let mut best_overlap: u32 = 0;
    let mut best_mse: u64 = u64::MAX;
    let ghost mut best_d: int = 0;
    let mut dy: u32 = 0;
    while dy < limit && dy + strip_h <= h_b
        invariant
            a.wf(),
            b.wf(),
            h_a == a.height,
            h_b == b.height,
            max_search == search_rows(h_a as int),
            max_search + strip_h <= u32::MAX,
            strip_h == strip_rows(h_a as int),
            template_y == h_a - strip_h,
            w == (if a.width < b.width { a.width } else { b.width }),
            limit == (if max_search < h_b { max_search } else { h_b }),
            dy <= limit,
            dy == 0 || dy - 1 + strip_h <= h_b,
            forall|d: int| 0 <= d < dy ==> is_candidate(a, b, d),
            forall|d: int| 0 <= d < dy ==> best_mse <= #[trigger] candidate_mse(a, b, d),
            best_mse < u64::MAX ==> {
                &&& 0 <= best_d < dy
                &&& candidate_mse(a, b, best_d) == best_mse
                &&& forall|d: int| 0 <= d < best_d ==> best_mse < #[trigger] candidate_mse(a, b, d)
                &&& best_overlap == strip_h + best_d
            },
        decreases limit - dy,
    {
        let mse = compare_strip(a, template_y, b, dy, strip_h, w);
        assert(mse == candidate_mse(a, b, dy as int));
        if mse < best_mse {
            best_mse = mse;
            best_overlap = strip_h + dy;
            proof {
                best_d = dy as int;
            }
        }
        dy = dy + 1;
    }
    proof {
        assert forall|d: int| is_candidate(a, b, d) implies 0 <= d < dy by {}
    }
    if best_mse > 250000 {
        proof {
            assert forall|d: int| !is_best_offset(a, b, d) by {
                if is_best_offset(a, b, d) {
                    assert(0 <= d < dy);
                    assert(best_mse <= candidate_mse(a, b, d));
                }
            }
        }
        h_b / 2
    } else {
        proof {
            assert(is_best_offset(a, b, best_d));
            let c = choose|d: int| is_best_offset(a, b, d);
            assert(is_best_offset(a, b, c));
            if c < best_d {
                assert(candidate_mse(a, b, c) < candidate_mse(a, b, best_d));
            } else if c > best_d {
                assert(candidate_mse(a, b, best_d) < candidate_mse(a, b, c));
            }
            assert(c == best_d);
        }
        best_overlap
    }
}


/// `overlap_rows` never exceeds the height of the second frame.
pub proof fn lemma_overlap_within(a: &Frame, b: &Frame)
    ensures
        0 <= overlap_rows(a, b) <= b.height,
{
    if exists|d: int| is_best_offset(a, b, d) {
        let d = choose|d: int| is_best_offset(a, b, d);
        assert(is_candidate(a, b, d));
    }
}

/// Rows of frame `i` that repeat the frame before it (none for the first).
pub open spec fn skip_rows(frames: Seq<Frame>, i: int) -> int {
    if i == 0 {
        0
    } else {
        overlap_rows(&frames[i - 1], &frames[i])
    }
}

/// Rows that frame `i` adds to the stitched image.
pub open spec fn new_rows(frames: Seq<Frame>, i: int) -> int {
    frames[i].height - skip_rows(frames, i)
}

/// Row of the stitched image at which the new rows of frame `i` start.
pub open spec fn row_offset(frames: Seq<Frame>, i: nat) -> int
    decreases i,
{
    if i == 0 {
        0
    } else {
        row_offset(frames, (i - 1) as nat) + new_rows(frames, i - 1)
    }
}

/// Height of the stitched image.
pub open spec fn stitched_height(frames: Seq<Frame>) -> int {
    row_offset(frames, frames.len())
}

/// Channel `c` of pixel `x` in row `row` of the new rows of frame `i`:
/// taken from the frame, or transparent black beyond the frame's width.
pub open spec fn stitched_px(frames: Seq<Frame>, i: int, row: int, x: int, c: int) -> u8 {
    if x < frames[i].width {
        frames[i].px(x, skip_rows(frames, i) + row, c)
    } else {
        0
    }
}

/// Offsets grow with the frame index.
pub proof fn lemma_offset_monotone(frames: Seq<Frame>, i: nat, j: nat)
    requires
        i <= j <= frames.len(),
    ensures
        row_offset(frames, i) <= row_offset(frames, j),
    decreases j - i,
{
    if i < j {
        lemma_offset_monotone(frames, i, (j - 1) as nat);
        if j - 1 > 0 {
            lemma_overlap_within(&frames[j - 2], &frames[j - 1]);
        }
    }
}

/// How many new rows each frame contributes to the stitched image: all rows
/// of the first frame, and for each later frame the rows below its overlap
/// with the frame before it.
pub fn frame_contributions(frames: &Vec<Frame>) -> (r: Vec<u32>)
    requires
        frames.len() >= 1,
        forall|i: int| 0 <= i < frames.len() ==> (#[trigger] frames[i]).wf(),
    ensures
        r.len() == frames.len(),
        forall|i: int| 0 <= i < frames.len() ==> #[trigger] r[i] == new_rows(frames@, i),
{
    let mut contributions: Vec<u32> = Vec::new();
    contributions.push(frames[0].height);
    let mut i: usize = 1;
    while i < frames.len()
        invariant
            1 <= i <= frames.len(),
            forall|k: int| 0 <= k < frames.len() ==> (#[trigger] frames[k]).wf(),
            contributions.len() == i,
            forall|k: int| 0 <= k < i ==> #[trigger] contributions[k] == new_rows(frames@, k),
        decreases frames.len() - i,
    {
        let overlap = find_overlap_rows(&frames[i - 1], &frames[i]);
        contributions.push(frames[i].height - overlap);
        i = i + 1;
    }
    contributions
}

/// Copies row `src_y` of `frame` into row `dst_y` of a canvas `w` pixels
/// wide, for the columns that the frame has.
fn copy_row(canvas: &mut Vec<u8>, w: u32, t: u32, dst_y: u32, frame: &Frame, src_y: u32)
    requires
        old(canvas).len() == w * t * 4,
        dst_y < t,
        frame.wf(),
        src_y < frame.height,
    ensures
        final(canvas).len() == old(canvas).len(),
        forall|k: int|
            0 <= k < dst_y * w * 4 || (dst_y + 1) * w * 4 <= k < old(canvas).len()
                ==> #[trigger] final(canvas)@[k] == old(canvas)@[k],
        forall|x: int, c: int|
            0 <= x < w && 0 <= c < 4 ==> #[trigger] final(canvas)@[byte_index(w as int, x, dst_y as int, c)]
                == if x < frame.width {
                frame.px(x, src_y as int, c)
            } else {
                old(canvas)@[byte_index(w as int, x, dst_y as int, c)]
            },
{
    let ghost start = canvas@;
    proof {
        assert((dst_y + 1) * w * 4 == dst_y * w * 4 + w * 4) by (nonlinear_arith);
        assert((dst_y + 1) * w * 4 <= w * t * 4) by (nonlinear_arith)
            requires
                dst_y < t,
        ;
    }
    let mut x: u32 = 0;
    while x < w
        invariant
            canvas.len() == start.len(),
            start.len() == w * t * 4,
            dst_y < t,
            (dst_y + 1) * w * 4 == dst_y * w * 4 + w * 4,
            (dst_y + 1) * w * 4 <= w * t * 4,
            frame.wf(),
            src_y < frame.height,
            x <= w,
            forall|k: int|
                0 <= k < dst_y * w * 4 || (dst_y + 1) * w * 4 <= k < start.len()
                    ==> #[trigger] canvas@[k] == start[k],
            forall|x2: int, c: int|
                x <= x2 < w && 0 <= c < 4 ==> #[trigger] canvas@[byte_index(w as int, x2, dst_y as int, c)]
                    == start[byte_index(w as int, x2, dst_y as int, c)],
            forall|x2: int, c: int|
                0 <= x2 < x && 0 <= c < 4 ==> #[trigger] canvas@[byte_index(w as int, x2, dst_y as int, c)]
                    == if x2 < frame.width {
                    frame.px(x2, src_y as int, c)
                } else {
                    start[byte_index(w as int, x2, dst_y as int, c)]
                },
        decreases w - x,
    {
        if x < frame.width {
            proof {
                lemma_index_in_bounds(w as int, t as int, x as int, dst_y as int, 3);
                assert(byte_index(w as int, x as int, dst_y as int, 0) >= dst_y * w * 4) by (nonlinear_arith)
                    requires
                        0 <= x,
                ;
                assert(byte_index(w as int, x as int, dst_y as int, 3) < (dst_y + 1) * w * 4) by (nonlinear_arith)
                    requires
                        x < w,
                ;
                assert forall|x2: int, c: int| 0 <= x2 < w && 0 <= c < 4 implies
                    #[trigger] byte_index(w as int, x2, dst_y as int, c) == dst_y * w * 4 + x2 * 4 + c by {
                    assert(byte_index(w as int, x2, dst_y as int, c) == dst_y * w * 4 + x2 * 4 + c) by (nonlinear_arith);
                }
            }
            let base: usize = ((dst_y as usize) * (w as usize) + x as usize) * 4;
            let v0 = frame.channel(x, src_y, 0);
            let v1 = frame.channel(x, src_y, 1);
            let v2 = frame.channel(x, src_y, 2);
            let v3 = frame.channel(x, src_y, 3);
            canvas.set(base, v0);
            canvas.set(base + 1, v1);
            canvas.set(base + 2, v2);
            canvas.set(base + 3, v3);
        }
        x = x + 1;
    }
}


/// Stitches vertically scrolled frames into one tall frame: the first frame
/// whole, then below it the rows of each later frame that follow its overlap
/// with the frame before. The result is as wide as the first frame; columns
/// that a narrower frame lacks stay transparent black.
pub fn stitch(frames: Vec<Frame>) -> (r: Frame)
    requires
        frames.len() >= 1,
        forall|i: int| 0 <= i < frames.len() ==> (#[trigger] frames[i]).wf(),
        stitched_height(frames@) <= u32::MAX,
        frames[0].width * stitched_height(frames@) * 4 <= usize::MAX,
    ensures
        r.wf(),
        r.width == frames[0].width,
        r.height == stitched_height(frames@),
        forall|i: int, row: int, x: int, c: int|
            0 <= i < frames.len() && 0 <= row < new_rows(frames@, i) && 0 <= x < r.width && 0 <= c < 4
                ==> #[trigger] r.px(x, row_offset(frames@, i as nat) + row, c) == stitched_px(frames@, i, row, x, c),
        frames.len() == 1 ==> r == frames[0],
        // The first frame comes first, whole and unchanged.
        frames[0].height <= r.height,
        forall|y: int, x: int, c: int|
            0 <= y < frames[0].height && 0 <= x < r.width && 0 <= c < 4 ==> #[trigger] r.px(x, y, c)
                == frames[0].px(x, y, c),
{
    if frames.len() == 1 {
        assert(row_offset(frames@, 1) == row_offset(frames@, 0) + new_rows(frames@, 0));
        let mut frames = frames;
        return frames.pop().unwrap();
    }
    let width = frames[0].width;
    let contributions = frame_contributions(&frames);
    let n = frames.len();

    let mut total: u32 = 0;
    let mut i: usize = 0;
    while i < n
        invariant
            n == frames.len(),
            contributions.len() == n,
            forall|k: int| 0 <= k < n ==> #[trigger] contributions[k] == new_rows(frames@, k),
            stitched_height(frames@) <= u32::MAX,
            i <= n,
            total == row_offset(frames@, i as nat),
        decreases n - i,
    {
        proof {
            lemma_offset_monotone(frames@, (i + 1) as nat, n as nat);
        }
        total = total + contributions[i];
        i = i + 1;
    }

    let len: usize = (width as usize) * (total as usize) * 4;
    let mut canvas: Vec<u8> = Vec::new();
    let mut k: usize = 0;
    while k < len
        invariant
            k <= len,
            canvas.len() == k,
            forall|j: int| 0 <= j < k ==> #[trigger] canvas@[j] == 0,
        decreases len - k,
    {
        canvas.push(0);
        k = k + 1;
    }

    let mut y_cursor: u32 = 0;
    let mut i: usize = 0;
    while i < n
        invariant
            n == frames.len(),
            n >= 2,
            width == frames[0].width,
            forall|k: int| 0 <= k < n ==> (#[trigger] frames[k]).wf(),
            contributions.len() == n,
            forall|k: int| 0 <= k < n ==> #[trigger] contributions[k] == new_rows(frames@, k),
            total == stitched_height(frames@),
            canvas.len() == width * total * 4,
            i <= n,
            y_cursor == row_offset(frames@, i as nat),
            forall|k: int| y_cursor * width * 4 <= k < canvas.len() ==> #[trigger] canvas@[k] == 0,
            forall|i2: int, row: int, x: int, c: int|
                0 <= i2 < i && 0 <= row < new_rows(frames@, i2) && 0 <= x < width && 0 <= c < 4
                    ==> #[trigger] canvas@[byte_index(width as int, x, row_offset(frames@, i2 as nat) + row, c)]
                    == stitched_px(frames@, i2, row, x, c),
        decreases n - i,
    {
        let frame = &frames[i];
        let contribution = contributions[i];
        let skip: u32 = frame.height - contribution;
        proof {
            if i > 0 {
                lemma_overlap_within(&frames@[i - 1], &frames@[i as int]);
            }
            assert(skip == skip_rows(frames@, i as int));
            lemma_offset_monotone(frames@, (i + 1) as nat, n as nat);
            assert(y_cursor + contribution <= total);
        }
        let mut src_y: u32 = skip;
        while src_y < frame.height
            invariant
                n == frames.len(),
                i < n,
                frame == frames[i as int],
                width == frames[0].width,
                forall|k: int| 0 <= k < n ==> (#[trigger] frames[k]).wf(),
                skip == skip_rows(frames@, i as int),
                contribution == new_rows(frames@, i as int),
                skip + contribution == frame.height,
                total == stitched_height(frames@),
                canvas.len() == width * total * 4,
                y_cursor == row_offset(frames@, i as nat),
                y_cursor + contribution <= total,
                skip <= src_y <= frame.height,
                forall|k: int| (y_cursor + (src_y - skip)) * width * 4 <= k < canvas.len() ==> #[trigger] canvas@[k] == 0,
                forall|i2: int, row: int, x: int, c: int|
                    0 <= i2 < i && 0 <= row < new_rows(frames@, i2) && 0 <= x < width && 0 <= c < 4
                        ==> #[trigger] canvas@[byte_index(width as int, x, row_offset(frames@, i2 as nat) + row, c)]
                        == stitched_px(frames@, i2, row, x, c),
                forall|row: int, x: int, c: int|
                    0 <= row < src_y - skip && 0 <= x < width && 0 <= c < 4
                        ==> #[trigger] canvas@[byte_index(width as int, x, y_cursor + row, c)]
                        == stitched_px(frames@, i as int, row, x, c),
            decreases frame.height - src_y,
        {
            let dst_y: u32 = y_cursor + (src_y - skip);
            let ghost before = canvas@;
            copy_row(&mut canvas, width, total, dst_y, frame, src_y);
            proof {
                assert forall|i2: int, row: int, x: int, c: int|
                    0 <= i2 < i && 0 <= row < new_rows(frames@, i2) && 0 <= x < width && 0 <= c < 4
                        implies #[trigger] canvas@[byte_index(width as int, x, row_offset(frames@, i2 as nat) + row, c)]
                        == stitched_px(frames@, i2, row, x, c) by {
                    lemma_offset_monotone(frames@, (i2 + 1) as nat, i as nat);
                    lemma_offset_monotone(frames@, 0, i2 as nat);
                    assert(row_offset(frames@, (i2 + 1) as nat) == row_offset(frames@, i2 as nat) + new_rows(frames@, i2));
                    lemma_index_before_row(width as int, x, row_offset(frames@, i2 as nat) + row, c, dst_y as int);
                    lemma_index_in_bounds(width as int, total as int, x, row_offset(frames@, i2 as nat) + row, c);
                }
                assert forall|row: int, x: int, c: int|
                    0 <= row < src_y + 1 - skip && 0 <= x < width && 0 <= c < 4
                        implies #[trigger] canvas@[byte_index(width as int, x, y_cursor + row, c)]
                        == stitched_px(frames@, i as int, row, x, c) by {
                    lemma_index_in_bounds(width as int, total as int, x, y_cursor + row, c);
                    if row < src_y - skip {
                        lemma_index_before_row(width as int, x, y_cursor + row, c, dst_y as int);
                    } else {
                        assert(byte_index(width as int, x, dst_y as int, c) >= dst_y * width * 4) by (nonlinear_arith)
                            requires
                                0 <= x,
                                0 <= c,
                        ;
                    }
                }
                assert forall|k: int| (y_cursor + (src_y + 1 - skip)) * width * 4 <= k < canvas.len()
                    implies #[trigger] canvas@[k] == 0 by {
                    assert((dst_y + 1) * width * 4 >= dst_y * width * 4) by (nonlinear_arith);
                }
            }
            src_y = src_y + 1;
        }
        y_cursor = y_cursor + contribution;
        i = i + 1;
    }
    proof {
        assert(row_offset(frames@, 1) == row_offset(frames@, 0) + new_rows(frames@, 0));
        lemma_offset_monotone(frames@, 1, n as nat);
        assert forall|y: int, x: int, c: int|
            0 <= y < frames[0].height && 0 <= x < width && 0 <= c < 4 implies canvas@[byte_index(
                width as int,
                x,
                y,
                c,
            )] == frames[0].px(x, y, c) by {
            assert(row_offset(frames@, 0) + y == y);
            assert(canvas@[byte_index(width as int, x, row_offset(frames@, 0) + y, c)] == stitched_px(
                frames@,
                0,
                y,
                x,
                c,
            ));
        }
    }
    Frame { width, height: total, rgba: canvas }
}


proof fn lemma_sq_diff_bound(a: &Frame, b: &Frame, x: int, ya: int, yb: int)
    ensures
        0 <= sq_diff(a, b, x, ya, yb) <= max_sq_diff(),
{
    lemma_sq_bound(a.px(x, ya, 0) - b.px(x, yb, 0));
    lemma_sq_bound(a.px(x, ya, 1) - b.px(x, yb, 1));
    lemma_sq_bound(a.px(x, ya, 2) - b.px(x, yb, 2));
}

proof fn lemma_column_bound(a: &Frame, ay: int, b: &Frame, by: int, x: int, n: nat)
    ensures
        0 <= column_count(a, ay, b, by, n) <= n,
        0 <= column_sum(a, ay, b, by, x, n) <= max_sq_diff() * column_count(a, ay, b, by, n),
    decreases n,
{
    if n > 0 {
        lemma_column_bound(a, ay, b, by, x, (n - 1) as nat);
        lemma_sq_diff_bound(a, b, x, ay + n - 1, by + n - 1);
    }
}

proof fn lemma_column_full(a: &Frame, ay: int, b: &Frame, by: int, n: nat)
    requires
        0 <= ay,
        0 <= by,
        ay + n <= a.height,
        by + n <= b.height,
    ensures
        column_count(a, ay, b, by, n) == n,
    decreases n,
{
    if n > 0 {
        lemma_column_full(a, ay, b, by, (n - 1) as nat);
    }
}

proof fn lemma_strip_bound(a: &Frame, ay: int, b: &Frame, by: int, h: nat, w: int, dx: int)
    ensures
        0 <= strip_count(a, ay, b, by, h, w, dx),
        0 <= strip_sum(a, ay, b, by, h, w, dx) <= max_sq_diff() * strip_count(a, ay, b, by, h, w, dx),
    decreases (if dx < 0 || dx >= w { 0 } else { w - dx }),
{
    if !(dx >= w || dx < 0) {
        assert(sample_step(w) >= 1);
        lemma_strip_bound(a, ay, b, by, h, w, dx + sample_step(w));
        lemma_column_bound(a, ay, b, by, dx, h);
    }
}

/// A sampled mean squared error is at most `3 * 255^2`, unless there was no
/// sample at all.
pub proof fn lemma_strip_mse_bound(a: &Frame, ay: int, b: &Frame, by: int, h: nat, w: int)
    ensures
        strip_mse(a, ay, b, by, h, w) == u64::MAX || strip_mse(a, ay, b, by, h, w) <= max_sq_diff(),
        strip_count(a, ay, b, by, h, w, 0) > 0 ==> strip_mse(a, ay, b, by, h, w) <= max_sq_diff(),
{
    lemma_strip_bound(a, ay, b, by, h, w, 0);
    let count = strip_count(a, ay, b, by, h, w, 0);
    let sum = strip_sum(a, ay, b, by, h, w, 0);
    if count > 0 {
        assert(sum / count <= max_sq_diff()) by (nonlinear_arith)
            requires
                0 <= sum <= max_sq_diff() * count,
                count > 0,
        ;
    }
}

/// Every candidate row has a sample when both frames have columns and the
/// template strip has rows.
proof fn lemma_candidate_sampled(a: &Frame, b: &Frame, dy: int)
    requires
        is_candidate(a, b, dy),
        a.width > 0,
        b.width > 0,
        strip_rows(a.height as int) > 0,
    ensures
        candidate_mse(a, b, dy) <= max_sq_diff(),
{
    let ha = a.height as int;
    let w = if a.width < b.width { a.width as int } else { b.width as int };
    let sh = strip_rows(ha);
    let ay = ha - sh;
    assert(sample_step(w) >= 1);
    lemma_column_full(a, ay, b, dy, sh as nat);
    lemma_strip_bound(a, ay, b, dy, sh as nat, w, sample_step(w));
    lemma_strip_mse_bound(a, ay, b, dy, sh as nat, w);
}

/// Among the candidates below `n`, one of least error that comes first.
proof fn lemma_first_best(a: &Frame, b: &Frame, n: int) -> (d: int)
    requires
        n >= 1,
        forall|dy: int| 0 <= dy < n ==> is_candidate(a, b, dy),
    ensures
        0 <= d < n,
        forall|dy: int| 0 <= dy < n ==> candidate_mse(a, b, d) <= #[trigger] candidate_mse(a, b, dy),
        forall|dy: int| 0 <= dy < d ==> candidate_mse(a, b, d) < #[trigger] candidate_mse(a, b, dy),
    decreases n,
{
    if n == 1 {
        0
    } else {
        let d0 = lemma_first_best(a, b, n - 1);
        if candidate_mse(a, b, n - 1) < candidate_mse(a, b, d0) {
            n - 1
        } else {
            d0
        }
    }
}

/// The error threshold never turns a match down: when the template strip
/// has rows, both frames have columns and it fits somewhere in the next
/// frame, the overlap is the strip plus the first row of least error, and
/// the half-height fallback is not used.
pub proof fn lemma_overlap_found(a: &Frame, b: &Frame)
    requires
        a.width > 0,
        b.width > 0,
        strip_rows(a.height as int) > 0,
        is_candidate(a, b, 0),
    ensures
        exists|d: int| is_best_offset(a, b, d),
        overlap_rows(a, b) == strip_rows(a.height as int) + choose|d: int| is_best_offset(a, b, d),
{
    let ha = a.height as int;
    let hb = b.height as int;
    let sh = strip_rows(ha);
    let lim = if search_rows(ha) < hb { search_rows(ha) } else { hb };
    let n = if lim < hb - sh + 1 { lim } else { hb - sh + 1 };
    assert forall|dy: int| 0 <= dy < n implies is_candidate(a, b, dy) by {}
    assert forall|dy: int| is_candidate(a, b, dy) implies 0 <= dy < n by {}
    let d = lemma_first_best(a, b, n);
    lemma_candidate_sampled(a, b, d);
    assert(is_best_offset(a, b, d));
}


proof fn lemma_sq_diff_symmetric(a: &Frame, b: &Frame, x: int, ya: int, yb: int)
    ensures
        sq_diff(a, b, x, ya, yb) == sq_diff(b, a, x, yb, ya),
{
    assert forall|p: int, q: int| #[trigger] ((p - q) * (p - q)) == (q - p) * (q - p) by {
        assert((p - q) * (p - q) == (q - p) * (q - p)) by (nonlinear_arith);
    }
}

proof fn lemma_column_symmetric(a: &Frame, ay: int, b: &Frame, by: int, x: int, n: nat)
    ensures
        column_sum(a, ay, b, by, x, n) == column_sum(b, by, a, ay, x, n),
        column_count(a, ay, b, by, n) == column_count(b, by, a, ay, n),
    decreases n,
{
    if n > 0 {
        lemma_column_symmetric(a, ay, b, by, x, (n - 1) as nat);
        lemma_sq_diff_symmetric(a, b, x, ay + n - 1, by + n - 1);
    }
}

proof fn lemma_strip_symmetric(a: &Frame, ay: int, b: &Frame, by: int, h: nat, w: int, dx: int)
    ensures
        strip_sum(a, ay, b, by, h, w, dx) == strip_sum(b, by, a, ay, h, w, dx),
        strip_count(a, ay, b, by, h, w, dx) == strip_count(b, by, a, ay, h, w, dx),
    decreases (if dx < 0 || dx >= w { 0 } else { w - dx }),
{
    if !(dx >= w || dx < 0) {
        assert(sample_step(w) >= 1);
        lemma_strip_symmetric(a, ay, b, by, h, w, dx + sample_step(w));
        lemma_column_symmetric(a, ay, b, by, dx, h);
    }
}

/// The strip error does not depend on which frame is named first.
pub proof fn lemma_strip_mse_symmetric(a: &Frame, ay: int, b: &Frame, by: int, h: nat, w: int)
    ensures
        strip_mse(a, ay, b, by, h, w) == strip_mse(b, by, a, ay, h, w),
{
    lemma_strip_symmetric(a, ay, b, by, h, w, 0);
}

/// The sampled rows of the two strips agree on every colour channel of the
/// first `w` columns.
pub open spec fn strips_match(a: &Frame, ay: int, b: &Frame, by: int, h: nat, w: int) -> bool {
    forall|dy: int, x: int, c: int|
        0 <= dy < h && 0 <= x < w && 0 <= c < 3 && sampled(a, ay, b, by, dy)
            ==> #[trigger] a.px(x, ay + dy, c) == #[trigger] b.px(x, by + dy, c)
}

proof fn lemma_column_zero(a: &Frame, ay: int, b: &Frame, by: int, h: nat, w: int, x: int, n: nat)
    requires
        strips_match(a, ay, b, by, h, w),
        0 <= x < w,
        n <= h,
    ensures
        column_sum(a, ay, b, by, x, n) == 0,
    decreases n,
{
    if n > 0 {
        lemma_column_zero(a, ay, b, by, h, w, x, (n - 1) as nat);
        let dy = n - 1;
        if sampled(a, ay, b, by, dy) {
            assert(a.px(x, ay + dy, 0) == b.px(x, by + dy, 0));
            assert(a.px(x, ay + dy, 1) == b.px(x, by + dy, 1));
            assert(a.px(x, ay + dy, 2) == b.px(x, by + dy, 2));
        }
    }
}

proof fn lemma_strip_zero(a: &Frame, ay: int, b: &Frame, by: int, h: nat, w: int, dx: int)
    requires
        strips_match(a, ay, b, by, h, w),
    ensures
        strip_sum(a, ay, b, by, h, w, dx) == 0,
    decreases (if dx < 0 || dx >= w { 0 } else { w - dx }),
{
    if !(dx >= w || dx < 0) {
        assert(sample_step(w) >= 1);
        lemma_strip_zero(a, ay, b, by, h, w, dx + sample_step(w));
        lemma_column_zero(a, ay, b, by, h, w, dx, h);
    }
}

proof fn lemma_column_first_sampled(a: &Frame, ay: int, b: &Frame, by: int, n: nat)
    requires
        n >= 1,
        sampled(a, ay, b, by, 0),
    ensures
        column_count(a, ay, b, by, n) >= 1,
    decreases n,
{
    if n > 1 {
        lemma_column_first_sampled(a, ay, b, by, (n - 1) as nat);
    } else {
        assert(column_count(a, ay, b, by, 0) == 0);
    }
}

/// Strips that agree wherever they are sampled have zero error, when there
/// is a sample.
pub proof fn lemma_strip_mse_zero(a: &Frame, ay: int, b: &Frame, by: int, h: nat, w: int)
    requires
        strips_match(a, ay, b, by, h, w),
        strip_count(a, ay, b, by, h, w, 0) > 0,
    ensures
        strip_mse(a, ay, b, by, h, w) == 0,
{
    lemma_strip_zero(a, ay, b, by, h, w, 0);
}

/// A strip compared with itself has zero error.
pub proof fn lemma_strip_mse_self(a: &Frame, ay: int, h: nat, w: int)
    requires
        0 < w,
        0 < h,
        0 <= ay < a.height,
    ensures
        strip_mse(a, ay, a, ay, h, w) == 0,
{
    assert(sample_step(w) >= 1);
    lemma_column_first_sampled(a, ay, a, ay, h);
    lemma_strip_bound(a, ay, a, ay, h, w, sample_step(w));
    lemma_strip_mse_zero(a, ay, a, ay, h, w);
}

/// At most one offset is the first one of least error.
proof fn lemma_best_unique(a: &Frame, b: &Frame, d1: int, d2: int)
    requires
        is_best_offset(a, b, d1),
        is_best_offset(a, b, d2),
    ensures
        d1 == d2,
{
    if d1 < d2 {
        assert(candidate_mse(a, b, d2) < candidate_mse(a, b, d1));
    } else if d2 < d1 {
        assert(candidate_mse(a, b, d1) < candidate_mse(a, b, d2));
    }
}

/// When `b` shows the content of `a` scrolled down by `k` rows (row `r` of
/// `b` is row `r + k` of `a`), the overlap is the `height - k` rows at the
/// bottom of `a` that reappear at the top of `b`. This holds when the
/// template strip (`strip` rows: a tenth of `a`'s height, at least 8, at
/// most half the window) matches at row `height - strip - k` of `b`, that
/// row lies inside the search window (`window` rows: half of `a`'s height,
/// at least 30, at most all of it), the strip fits in `b` there, and no
/// earlier row matches exactly.
pub proof fn lemma_scrolled_overlap(a: &Frame, b: &Frame, k: int, window: int, strip: int)
    requires
        a.width > 0,
        b.width > 0,
        0 <= k,
        window == vstd::math::min(vstd::math::max(a.height as int / 2, 30), a.height as int),
        strip == vstd::math::min(vstd::math::max(a.height as int / 10, 8), window / 2),
        strip > 0,
        0 <= a.height - strip - k < window,
        a.height - strip - k < b.height,
        a.height - k <= b.height,
        forall|r: int, x: int, c: int|
            0 <= r < a.height - k && 0 <= x < a.width && x < b.width && 0 <= c < 4
                ==> #[trigger] b.px(x, r, c) == a.px(x, r + k, c),
        forall|dy: int|
            0 <= dy < a.height - strip - k && dy + strip <= b.height ==> #[trigger] strip_mse(
                a,
                a.height - strip,
                b,
                dy,
                strip as nat,
                vstd::math::min(a.width as int, b.width as int),
            ) > 0,
    ensures
        overlap_rows(a, b) == a.height - k,
{
    let ha = a.height as int;
    assert(window == search_rows(ha));
    assert(strip == strip_rows(ha));
    let sh = strip_rows(ha);
    let d = ha - sh - k;
    assert(is_candidate(a, b, d));
    assert(vstd::math::min(a.width as int, b.width as int) == (if a.width < b.width {
        a.width as int
    } else {
        b.width as int
    }));
    assert forall|dy: int| is_candidate(a, b, dy) && dy < d implies #[trigger] candidate_mse(a, b, dy) > 0 by {
        assert(dy + strip <= b.height);
        assert(strip_mse(a, a.height - strip, b, dy, strip as nat, vstd::math::min(a.width as int, b.width as int)) > 0);
    }
    let ay = ha - sh;
    let w = if a.width < b.width { a.width as int } else { b.width as int };
    assert(strips_match(a, ay, b, d, sh as nat, w)) by {
        assert forall|dy: int, x: int, c: int|
            0 <= dy < sh && 0 <= x < w && 0 <= c < 3 && sampled(a, ay, b, d, dy)
                implies #[trigger] a.px(x, ay + dy, c) == #[trigger] b.px(x, d + dy, c) by {
            assert(b.px(x, d + dy, c) == a.px(x, d + dy + k, c));
        }
    }
    assert(sample_step(w) >= 1);
    lemma_column_full(a, ay, b, d, sh as nat);
    lemma_strip_bound(a, ay, b, d, sh as nat, w, sample_step(w));
    lemma_strip_mse_zero(a, ay, b, d, sh as nat, w);
    assert(candidate_mse(a, b, d) == 0);
    assert(is_best_offset(a, b, d));
    let c = choose|e: int| is_best_offset(a, b, e);
    lemma_best_unique(a, b, c, d);
}

} // verus!
