//! Scanline renderer.
//!
//! Each grid cell maps to a plane point through an aspect-corrected linear
//! map, the escape-time kernel counts its iterations, and the glyph mapper
//! picks its symbol.  A frame is one row of glyphs per scanline, in row
//! order.  Rows are independent, so a frame can also be produced as tagged
//! `(row index, row)` pairs by any partition of the rows and reassembled
//! strictly by index; reassembly is deterministic in the pair order.

use vstd::prelude::*;

use crate::fixed::abs_val;
use crate::fixed::mul_div;
use crate::fixed::mul_div_spec;
use crate::kernel::COORD_LIMIT;
use crate::kernel::escape_count;
use crate::kernel::escape_count_spec;
use crate::palette::shade;
use crate::palette::shade_spec;
use crate::viewport::Viewport;

verus! {

/// The plane coordinate sampled for column `x`: the center plus the
/// column's signed offset from the grid middle, scaled by the horizontal
/// extent.
pub open spec fn sample_u_spec(vp: Viewport, x: int) -> int {
    vp.center_x + mul_div_spec(vp.scale as int, 2 * x - (vp.width - 1), 2 * (vp.width - 1))
}

/// The plane coordinate sampled for row `y`: as for columns, but scaled by
/// the vertical extent `scale / aspect` with `aspect = width / height`.
pub open spec fn sample_v_spec(vp: Viewport, y: int) -> int {
    vp.center_y + mul_div_spec(
        vp.scale * vp.height,
        2 * y - (vp.height - 1),
        2 * (vp.height - 1) * vp.width,
    )
}

/// Samples the plane coordinate of column `x`.
pub fn sample_u(vp: &Viewport, x: usize) -> (u: i64)
    requires
        vp.wf(),
        x < vp.width,
    ensures
        u == sample_u_spec(*vp, x as int),
        -COORD_LIMIT <= u <= COORD_LIMIT,
{
    let w1 = (vp.width - 1) as i64;
    let off = 2 * (x as i64) - w1;
    proof {
        assert((vp.scale as int) * abs_val(off as int) <= i64::MAX) by (nonlinear_arith)
            requires
                1 <= vp.scale <= 100_000_000,
                -4095 <= off <= 4095,
        ;
    }
    let step = mul_div(vp.scale, off, 2 * w1);
    vp.center_x + step
}

/// Samples the plane coordinate of row `y`.
pub fn sample_v(vp: &Viewport, y: usize) -> (v: i64)
    requires
        vp.wf(),
        y < vp.height,
    ensures
        v == sample_v_spec(*vp, y as int),
        -COORD_LIMIT <= v <= COORD_LIMIT,
{
    let h1 = (vp.height - 1) as i64;
    let off = 2 * (y as i64) - h1;
    proof {
        assert(1 <= (vp.scale as int) * (vp.height as int) <= 409_600_000_000) by (nonlinear_arith)
            requires
                1 <= vp.scale <= 100_000_000,
                2 <= vp.height <= 4096,
        ;
        assert(1 <= (2 * (h1 as int)) * (vp.width as int) <= 40_000_000) by (nonlinear_arith)
            requires
                1 <= h1 <= 4095,
                2 <= vp.width <= 4096,
        ;
    }
    let num = vp.scale * (vp.height as i64);
    let den = 2 * h1 * (vp.width as i64);
    proof {
        assert((num as int) * abs_val(off as int) <= i64::MAX) by (nonlinear_arith)
            requires
                1 <= num <= 409_600_000_000,
                -4095 <= off <= 4095,
        ;
        assert((num as int) * abs_val(off as int) <= (den as int) * 500_000_000_000)
            by (nonlinear_arith)
            requires
                num == (vp.scale as int) * (vp.height as int),
                1 <= vp.scale <= 100_000_000,
                2 <= vp.height <= 4096,
                2 <= vp.width <= 4096,
                abs_val(off as int) <= vp.height - 1,
                0 <= abs_val(off as int),
                den == 2 * (h1 as int) * (vp.width as int),
                h1 == vp.height - 1,
        ;
    }
    let step = mul_div(num, off, den);
    proof {
        vstd::arithmetic::div_mod::lemma_multiply_divide_le(
            (num as int) * abs_val(off as int),
            den as int,
            500_000_000_000,
        );
    }
    vp.center_y + step
}

/// The glyph of the cell at column `x`, row `y`.
pub open spec fn cell_spec(vp: Viewport, pal: Seq<char>, x: int, y: int) -> char {
    shade_spec(
        escape_count_spec(sample_u_spec(vp, x), sample_v_spec(vp, y), vp.iter_bound as nat),
        vp.iter_bound as nat,
        pal,
    )
}

/// The row of glyphs of scanline `y`.
pub open spec fn row_spec(vp: Viewport, pal: Seq<char>, y: int) -> Seq<char> {
    Seq::new(vp.width as nat, |x: int| cell_spec(vp, pal, x, y))
}

/// The whole frame: one row per scanline, in row order.
pub open spec fn frame_spec(vp: Viewport, pal: Seq<char>) -> Seq<Seq<char>> {
    Seq::new(vp.height as nat, |y: int| row_spec(vp, pal, y))
}

/// Renders one scanline.
pub fn render_row(vp: &Viewport, pal: &Vec<char>, y: usize) -> (row: Vec<char>)
    requires
        vp.wf(),
        2 <= pal.len() <= 0xFFFF_FFFF,
        y < vp.height,
    ensures
        row@ == row_spec(*vp, pal@, y as int),
        row@.len() == vp.width,
{
    let v = sample_v(vp, y);
    let mut row: Vec<char> = Vec::new();
    let width = vp.width;
    let mut x: usize = 0;
    while x < width
        invariant
            vp.wf(),
            2 <= pal.len() <= 0xFFFF_FFFF,
            y < vp.height,
            width == vp.width,
            v == sample_v_spec(*vp, y as int),
            -COORD_LIMIT <= v <= COORD_LIMIT,
            0 <= x <= width,
            row@.len() == x,
            forall|j: int| 0 <= j < x ==> row@[j] == cell_spec(*vp, pal@, j, y as int),
        decreases width - x,
    {
        let u = sample_u(vp, x);
        let count = escape_count(u, v, vp.iter_bound);
        let glyph = shade(count, vp.iter_bound, pal);
        row.push(glyph);
        x = x + 1;
    }
    assert(row@ =~= row_spec(*vp, pal@, y as int));
    row
}

/// Renders a whole frame sequentially, scanline by scanline.  The frame
/// has exactly `height` rows of exactly `width` display cells each.
pub fn render(vp: &Viewport, pal: &Vec<char>) -> (frame: Vec<Vec<char>>)
    requires
        vp.wf(),
        2 <= pal.len() <= 0xFFFF_FFFF,
    ensures
        frame@.len() == vp.height,
        forall|y: int| 0 <= y < vp.height ==> (#[trigger] frame@[y])@ == row_spec(*vp, pal@, y),
        forall|y: int| 0 <= y < vp.height ==> (#[trigger] frame@[y])@.len() == vp.width,
{
    let mut frame: Vec<Vec<char>> = Vec::new();
    let height = vp.height;
    let mut y: usize = 0;
    while y < height
        invariant
            vp.wf(),
            2 <= pal.len() <= 0xFFFF_FFFF,
            height == vp.height,
            0 <= y <= height,
            frame@.len() == y,
            forall|j: int| 0 <= j < y ==> (#[trigger] frame@[j])@ == row_spec(*vp, pal@, j),
        decreases height - y,
    {
        let row = render_row(vp, pal, y);
        frame.push(row);
        y = y + 1;
    }
    frame
}

/// Renders the contiguous scanline range `y_from .. y_to` as tagged
/// `(row index, row)` pairs, the form a render worker hands back.
pub fn render_rows(vp: &Viewport, pal: &Vec<char>, y_from: usize, y_to: usize) -> (parts: Vec<
    (usize, Vec<char>),
>)
    requires
        vp.wf(),
        2 <= pal.len() <= 0xFFFF_FFFF,
        y_from <= y_to <= vp.height,
    ensures
        parts@.len() == y_to - y_from,
        forall|i: int|
            0 <= i < parts@.len() ==> part_index(parts@, i) == y_from + i && part_row(parts@, i)
                == row_spec(*vp, pal@, y_from + i),
{
    let mut parts: Vec<(usize, Vec<char>)> = Vec::new();
    let mut y: usize = y_from;
    while y < y_to
        invariant
            vp.wf(),
            2 <= pal.len() <= 0xFFFF_FFFF,
            y_from <= y <= y_to <= vp.height,
            parts@.len() == y - y_from,
            forall|i: int|
                0 <= i < parts@.len() ==> part_index(parts@, i) == y_from + i && part_row(
                    parts@,
                    i,
                ) == row_spec(*vp, pal@, y_from + i),
        decreases y_to - y,
    {
        let row = render_row(vp, pal, y);
        let ghost rowv = row@;
        let ghost prev = parts@;
        parts.push((y, row));
        assert forall|i: int|
            0 <= i < parts@.len() implies part_index(parts@, i) == y_from + i && part_row(
            parts@,
            i,
        ) == row_spec(*vp, pal@, y_from + i) by {
            if i < prev.len() {
                assert(parts@[i] == prev[i]);
                assert(part_index(prev, i) == y_from + i && part_row(prev, i) == row_spec(
                    *vp,
                    pal@,
                    y_from + i,
                ));
            } else {
                assert(parts@[i].0 == y && parts@[i].1@ == rowv);
            }
        }
        y = y + 1;
    }
    parts
}

/// The row index of the tagged pair at position `i`.
pub open spec fn part_index(parts: Seq<(usize, Vec<char>)>, i: int) -> int {
    parts[i].0 as int
}

/// The row contents of the tagged pair at position `i`.
pub open spec fn part_row(parts: Seq<(usize, Vec<char>)>, i: int) -> Seq<char> {
    parts[i].1@
}

/// The position of the first tagged pair at or after `from` that carries
/// row index `y`, or the pair count if none does.
pub open spec fn find_from(parts: Seq<(usize, Vec<char>)>, y: int, from: int) -> int
    decreases parts.len() - from,
{
    if from < 0 || from >= parts.len() {
        parts.len() as int
    } else if part_index(parts, from) == y {
        from
    } else {
        find_from(parts, y, from + 1)
    }
}

/// The position of the first tagged pair carrying row index `y`, or the
/// pair count if none does.
pub open spec fn find_part(parts: Seq<(usize, Vec<char>)>, y: int) -> int {
    find_from(parts, y, 0)
}

/// Whether some tagged pair carries row index `y`.
pub open spec fn row_covered(parts: Seq<(usize, Vec<char>)>, y: int) -> bool {
    find_part(parts, y) < parts.len()
}

/// Whether the tagged pairs cover every row index below `height`.
pub open spec fn covers(parts: Seq<(usize, Vec<char>)>, height: nat) -> bool {
    forall|y: int| 0 <= y < height ==> #[trigger] row_covered(parts, y)
}

/// A successful search lands on a pair that carries the searched index.
pub proof fn lemma_find_from_found(parts: Seq<(usize, Vec<char>)>, y: int, from: int)
    requires
        find_from(parts, y, from) < parts.len(),
    ensures
        from <= find_from(parts, y, from),
        part_index(parts, find_from(parts, y, from)) == y,
    decreases parts.len() - from,
{
    if 0 <= from < parts.len() && part_index(parts, from) != y {
        lemma_find_from_found(parts, y, from + 1);
    }
}

/// Positions that do not carry the searched index can be skipped: if no
/// position in `[from, j)` matches and `j` does, the search from `from`
/// lands on `j`.
pub proof fn lemma_find_from_hit(parts: Seq<(usize, Vec<char>)>, y: int, from: int, j: int)
    requires
        0 <= from <= j < parts.len(),
        forall|k: int| from <= k < j ==> #[trigger] part_index(parts, k) != y,
        part_index(parts, j) == y,
    ensures
        find_from(parts, y, from) == j,
    decreases j - from,
{
    if from < j {
        lemma_find_from_hit(parts, y, from + 1, j);
    }
}

/// Copies one row of glyphs.
fn copy_row(src: &Vec<char>) -> (r: Vec<char>)
    ensures
        r@ == src@,
{
    let mut r: Vec<char> = Vec::new();
    let mut j: usize = 0;
    while j < src.len()
        invariant
            0 <= j <= src@.len(),
            r@ == src@.take(j as int),
        decreases src@.len() - j,
    {
        r.push(src[j]);
        assert(r@ =~= src@.take(j + 1));
        j = j + 1;
    }
    assert(r@ =~= src@);
    r
}

/// Searches the tagged pairs for the first one carrying row index `y`.
fn find_row(parts: &Vec<(usize, Vec<char>)>, y: usize) -> (r: Option<Vec<char>>)
    ensures
        r is Some <==> row_covered(parts@, y as int),
        r is Some ==> r->Some_0@ == part_row(parts@, find_part(parts@, y as int)),
{
    let mut i: usize = 0;
    while i < parts.len()
        invariant
            0 <= i <= parts@.len(),
            find_part(parts@, y as int) == find_from(parts@, y as int, i as int),
        decreases parts@.len() - i,
    {
        if parts[i].0 == y {
            let row = copy_row(&parts[i].1);
            assert(find_from(parts@, y as int, i as int) == i);
            return Some(row);
        }
        i = i + 1;
    }
    None
}

/// Reassembles tagged rows strictly by row index, whatever order the pairs
/// arrived in.  Returns `None` when some row index below `height` is
/// missing, never a partially assembled frame; a duplicated index takes the
/// pair found first.
pub fn reassemble(parts: &Vec<(usize, Vec<char>)>, height: usize) -> (r: Option<Vec<Vec<char>>>)
    ensures
        r is Some <==> covers(parts@, height as nat),
        r is Some ==> r->Some_0@.len() == height,
        r is Some ==> forall|y: int|
            0 <= y < height ==> #[trigger] r->Some_0@[y]@ == part_row(
                parts@,
                find_part(parts@, y),
            ),
{
    let mut rows: Vec<Vec<char>> = Vec::new();
    let mut y: usize = 0;
    while y < height
        invariant
            0 <= y <= height,
            rows@.len() == y,
            forall|j: int| 0 <= j < y ==> #[trigger] row_covered(parts@, j),
            forall|j: int|
                0 <= j < y ==> #[trigger] rows@[j]@ == part_row(parts@, find_part(parts@, j)),
        decreases height - y,
    {
        let found = find_row(parts, y);
        if found.is_none() {
            return None;
        }
        let row = found.unwrap();
        rows.push(row);
        y = y + 1;
    }
    Some(rows)
}

/// Renders a frame as a sequence of contiguous row chunks, one per worker,
/// and reassembles them by row index — the sequential image of the
/// concurrent path.  The result equals the sequential `render` frame for
/// every worker count.
pub fn render_chunked(vp: &Viewport, pal: &Vec<char>, workers: usize) -> (frame: Vec<Vec<char>>)
    requires
        vp.wf(),
        2 <= pal.len() <= 0xFFFF_FFFF,
        1 <= workers,
    ensures
        frame@.len() == vp.height,
        forall|y: int| 0 <= y < vp.height ==> (#[trigger] frame@[y])@ == row_spec(*vp, pal@, y),
{
    let height = vp.height;
    let per = height / workers + (if height % workers != 0 {
        1
    } else {
        0
    });
    assert(per >= 1) by {
        vstd::arithmetic::div_mod::lemma_div_pos_is_pos(height as int, workers as int);
        if height % workers == 0 && height / workers == 0 {
            vstd::arithmetic::div_mod::lemma_fundamental_div_mod(height as int, workers as int);
        }
    }
    let mut parts: Vec<(usize, Vec<char>)> = Vec::new();
    let mut start: usize = 0;
    while start < height
        invariant
            vp.wf(),
            2 <= pal.len() <= 0xFFFF_FFFF,
            height == vp.height,
            1 <= per,
            0 <= start <= height,
            parts@.len() == start,
            forall|i: int|
                0 <= i < parts@.len() ==> #[trigger] part_index(parts@, i) == i && part_row(
                    parts@,
                    i,
                ) == row_spec(*vp, pal@, i),
        decreases height - start,
    {
        let end = if height - start < per {
            height
        } else {
            start + per
        };
        let mut chunk = render_rows(vp, pal, start, end);
        let ghost prev = parts@;
        let ghost ch = chunk@;
        parts.append(&mut chunk);
        assert forall|i: int|
            0 <= i < parts@.len() implies #[trigger] part_index(parts@, i) == i && part_row(
            parts@,
            i,
        ) == row_spec(*vp, pal@, i) by {
            if i < prev.len() {
                assert(parts@[i] == prev[i]);
                assert(part_index(prev, i) == i && part_row(prev, i) == row_spec(*vp, pal@, i));
            } else {
                assert(parts@[i] == ch[i - prev.len()]);
                assert(part_index(ch, i - prev.len()) == start + (i - prev.len()));
                assert(part_row(ch, i - prev.len()) == row_spec(*vp, pal@, start + (i
                    - prev.len())));
            }
        }
        start = end;
    }
    assert(covers(parts@, height as nat)) by {
        assert forall|y: int| 0 <= y < height implies #[trigger] row_covered(parts@, y) by {
            lemma_find_from_hit(parts@, y, 0, y);
        }
    }
    let assembled = reassemble(&parts, height);
    let frame = assembled.unwrap();
    assert forall|y: int| 0 <= y < vp.height implies (#[trigger] frame@[y])@ == row_spec(
        *vp,
        pal@,
        y,
    ) by {
        lemma_find_from_hit(parts@, y, 0, y);
        assert(frame@[y]@ == part_row(parts@, find_part(parts@, y)));
    }
    frame
}

/// The text of the first `n` rows: each row's glyphs followed by a row
/// terminator, in row order.
pub open spec fn text_of(rows: Seq<Vec<char>>, n: int) -> Seq<char>
    decreases n,
{
    if n <= 0 {
        Seq::empty()
    } else {
        text_of(rows, n - 1) + rows[n - 1]@ + seq!['\n']
    }
}

/// Flattens a frame into one text buffer, each row followed by a newline.
pub fn frame_text(frame: &Vec<Vec<char>>) -> (text: Vec<char>)
    ensures
        text@ == text_of(frame@, frame@.len() as int),
{
    let mut text: Vec<char> = Vec::new();
    let mut y: usize = 0;
    while y < frame.len()
        invariant
            0 <= y <= frame@.len(),
            text@ == text_of(frame@, y as int),
        decreases frame@.len() - y,
    {
        let mut x: usize = 0;
        while x < frame[y].len()
            invariant
                y < frame@.len(),
                0 <= x <= frame@[y as int]@.len(),
                text@ == text_of(frame@, y as int) + frame@[y as int]@.take(x as int),
            decreases frame@[y as int]@.len() - x,
        {
            text.push(frame[y][x]);
            assert(text@ =~= text_of(frame@, y as int) + frame@[y as int]@.take(x + 1));
            x = x + 1;
        }
        text.push('\n');
        assert(frame@[y as int]@.take(frame@[y as int]@.len() as int) =~= frame@[y as int]@);
        assert(text@ =~= text_of(frame@, y + 1));
        y = y + 1;
    }
    text
}

/// Reassembly is deterministic: whenever tagged pairs carry the rows the
/// renderer specifies — whatever their order, origin, or duplication — the
/// reassembled rows are exactly the sequential frame.
pub proof fn lemma_reassembly_deterministic(
    parts: Seq<(usize, Vec<char>)>,
    vp: Viewport,
    pal: Seq<char>,
    rows: Seq<Vec<char>>,
)
    requires
        rows.len() == vp.height,
        forall|i: int|
            0 <= i < parts.len() ==> #[trigger] part_row(parts, i) == row_spec(
                vp,
                pal,
                part_index(parts, i),
            ),
        covers(parts, vp.height as nat),
        forall|y: int|
            0 <= y < vp.height ==> #[trigger] rows[y]@ == part_row(parts, find_part(parts, y)),
    ensures
        forall|y: int| 0 <= y < vp.height ==> (#[trigger] rows[y])@ == frame_spec(vp, pal)[y],
{
    assert forall|y: int| 0 <= y < vp.height implies (#[trigger] rows[y])@ == frame_spec(vp, pal)[y] by {
        assert(row_covered(parts, y));
        lemma_find_from_found(parts, y, 0);
        assert(part_row(parts, find_part(parts, y)) == row_spec(vp, pal, y));
    }
}

} // verus!
