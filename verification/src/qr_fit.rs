//! Fitting the text picture of a QR code onto the 62 × 62 pixel area of the
//! display.

use vstd::prelude::*;
use vstd::std_specs::iter::IteratorSpec;
use vstd::arithmetic::div_mod::lemma_fundamental_div_mod_converse;
use image::{imageops, ImageBuffer, Luma};

verus! {

/// The bit of one character of a text picture: 0 for a space, 1 for any
/// other character.
pub open spec fn cell_bit(c: char) -> u8 {
    if c == ' ' {
        0
    } else {
        1
    }
}

/// The cells of a text picture: the text split at each line feed, each
/// character read as its `cell_bit`. A text of `n` line feeds has `n + 1`
/// rows.
pub open spec fn qr_cells(s: Seq<char>) -> Seq<Seq<u8>>
    decreases s.len(),
{
    if s.len() == 0 {
        seq![Seq::<u8>::empty()]
    } else {
        let rows = qr_cells(s.drop_last());
        if s.last() == '\n' {
            rows.push(Seq::<u8>::empty())
        } else {
            rows.update(rows.len() - 1, rows.last().push(cell_bit(s.last())))
        }
    }
}

/// The contents of a vector of rows.
pub open spec fn rows_view(v: Seq<Vec<u8>>) -> Seq<Seq<u8>> {
    v.map_values(|r: Vec<u8>| r@)
}

pub proof fn lemma_cells_nonempty(s: Seq<char>)
    ensures
        qr_cells(s).len() >= 1,
    decreases s.len(),
{
    if s.len() > 0 {
        lemma_cells_nonempty(s.drop_last());
    }
}

/// The number of cells in all rows together.
pub open spec fn cell_count(rows: Seq<Seq<u8>>) -> int
    decreases rows.len(),
{
    if rows.len() == 0 {
        0
    } else {
        cell_count(rows.drop_last()) + rows.last().len()
    }
}

proof fn lemma_cell_count_update_last(rows: Seq<Seq<u8>>, r: Seq<u8>)
    requires
        rows.len() >= 1,
    ensures
        cell_count(rows.update(rows.len() - 1, r)) == cell_count(rows.drop_last()) + r.len(),
{
    assert(rows.update(rows.len() - 1, r).drop_last() =~= rows.drop_last());
}

/// Every character of a picture but its line feeds is a cell, and the rows
/// are one more than the line feeds.
proof fn lemma_cell_count(s: Seq<char>)
    ensures
        cell_count(qr_cells(s)) + qr_cells(s).len() - 1 == s.len(),
        qr_cells(s).len() >= 1,
    decreases s.len(),
{
    lemma_cells_nonempty(s);
    if s.len() == 0 {
        let e = seq![Seq::<u8>::empty()];
        assert(e.drop_last() =~= Seq::<Seq<u8>>::empty());
        assert(cell_count(e) == cell_count(e.drop_last()) + e.last().len());
    } else {
        let rows = qr_cells(s.drop_last());
        lemma_cell_count(s.drop_last());
        if s.last() == '\n' {
            let r2 = rows.push(Seq::<u8>::empty());
            assert(r2.drop_last() =~= rows);
            assert(cell_count(r2) == cell_count(r2.drop_last()) + r2.last().len());
        } else {
            lemma_cell_count_update_last(rows, rows.last().push(cell_bit(s.last())));
            assert(rows == rows.drop_last().push(rows.last()));
            assert(cell_count(rows) == cell_count(rows.drop_last()) + rows.last().len());
        }
    }
}

proof fn lemma_cell_count_lower(rows: Seq<Seq<u8>>, k: int)
    requires
        k >= 0,
        forall|x: int| 0 <= x < rows.len() ==> #[trigger] rows[x].len() >= k,
    ensures
        cell_count(rows) >= rows.len() * k,
    decreases rows.len(),
{
    if rows.len() > 0 {
        lemma_cell_count_lower(rows.drop_last(), k);
        let n = rows.len() as int;
        assert((n - 1) * k + k == n * k) by (nonlinear_arith);
    }
}

/// The picture is at least as wide as it is tall: each of its rows has at
/// least as many cells as there are rows.
pub open spec fn picture_fits(s: Seq<char>) -> bool {
    forall|x: int| 0 <= x < qr_cells(s).len() ==> #[trigger] qr_cells(s)[x].len() >= qr_cells(s).len()
}

proof fn lemma_side_bound(s: Seq<char>)
    requires
        picture_fits(s),
    ensures
        qr_cells(s).len() * qr_cells(s).len() <= s.len(),
        qr_cells(s).len() >= 1,
{
    lemma_cell_count(s);
    lemma_cell_count_lower(qr_cells(s), qr_cells(s).len() as int);
}

/// Reads the text picture `qr` into its rows of cells.
fn read_cells(qr: &String) -> (cells: Vec<Vec<u8>>)
    ensures
        rows_view(cells@) == qr_cells(qr@),
{
    let mut rows: Vec<Vec<u8>> = Vec::new();
    let mut line: Vec<u8> = Vec::new();
    let chars = qr.as_str().chars();
    proof {
        broadcast use vstd::string::group_string_axioms;
        assert(qr@.take(0) =~= Seq::<char>::empty());
    }
    for c in it: chars
        invariant
            it.seq() == qr@,
            rows_view(rows@).push(line@) == qr_cells(qr@.take(it.index() as int)),
    {
        let ghost before = qr@.take(it.index() as int);
        let ghost after = qr@.take(it.index() + 1);
        proof {
            assert(after.drop_last() =~= before);
            assert(after.last() == c);
            lemma_cells_nonempty(before);
        }
        if c == '\n' {
            rows.push(line);
            line = Vec::new();
            proof {
                assert(rows_view(rows@).push(line@) =~= qr_cells(after));
            }
        } else {
            let b: u8 = if c == ' ' { 0 } else { 1 };
            line.push(b);
            proof {
                assert(rows_view(rows@).push(line@) =~= qr_cells(after));
            }
        }
    }
    rows.push(line);
    proof {
        assert(qr@.take(qr@.len() as int) =~= qr@);
        assert(rows_view(rows@) =~= qr_cells(qr@));
    }
    rows
}

/// Every cell of a picture is 0 or 1.
proof fn lemma_qr_cells_bits(s: Seq<char>)
    ensures
        all_bits(qr_cells(s)),
    decreases s.len(),
{
    if s.len() > 0 {
        lemma_qr_cells_bits(s.drop_last());
        lemma_cells_nonempty(s.drop_last());
    }
}

/// The grey level that shows a cell: black (0) for 1, white (255) for 0.
pub open spec fn luma(b: u8) -> u8 {
    if b == 1 {
        0
    } else {
        255
    }
}

/// The grey image of a square of cells, stored row by row: the pixel in
/// column `x` and row `y` has index `y * side + x` and shows `cells[x][y]`.
pub open spec fn qr_pixels(cells: Seq<Seq<u8>>) -> Seq<u8> {
    let p = cells.len() as int;
    Seq::new((p * p) as nat, |i: int| luma(cells[i % p][i / p]))
}

proof fn lemma_qr_pixel_at(cells: Seq<Seq<u8>>, x: int, y: int)
    requires
        0 <= x < cells.len(),
        0 <= y < cells.len(),
    ensures
        0 <= y * cells.len() + x < cells.len() * cells.len(),
        qr_pixels(cells)[y * cells.len() + x] == luma(cells[x][y]),
{
    let p = cells.len() as int;
    lemma_fundamental_div_mod_converse(y * p + x, p, y, x);
    assert(0 <= y * p + x < p * p) by (nonlinear_arith)
        requires
            0 <= x < p,
            0 <= y < p,
    ;
}

/// Draws the grey image of the square of `side` × `side` cells.
fn cells_image(cells: &Vec<Vec<u8>>, side: usize) -> (pixels: Vec<u8>)
    requires
        side == cells@.len(),
        forall|x: int| 0 <= x < side ==> #[trigger] cells@[x]@.len() >= side,
        side * side <= usize::MAX,
    ensures
        pixels@ == qr_pixels(rows_view(cells@)),
{
    let ghost rows = rows_view(cells@);
    let ghost image = qr_pixels(rows);
    let mut pixels: Vec<u8> = Vec::new();
    assert(image.take(0) =~= Seq::<u8>::empty());
    assert(0 * side == 0);
    for y in 0..side
        invariant
            side == cells@.len(),
            rows == rows_view(cells@),
            image == qr_pixels(rows),
            forall|x: int| 0 <= x < side ==> #[trigger] cells@[x]@.len() >= side,
            pixels@ == image.take(y * side),
    {
        for x in 0..side
            invariant
                side == cells@.len(),
                rows == rows_view(cells@),
                image == qr_pixels(rows),
                forall|x: int| 0 <= x < side ==> #[trigger] cells@[x]@.len() >= side,
                0 <= y < side,
                pixels@ == image.take(y * side + x),
        {
            let b = cells[x][y];
            let level: u8 = if b == 1 { 0 } else { 255 };
            proof {
                lemma_qr_pixel_at(rows, x as int, y as int);
                assert(rows[x as int] == cells@[x as int]@);
                assert(image.take(y * side + x + 1) =~= image.take(y * side + x).push(level));
            }
            pixels.push(level);
        }
        proof {
            assert((y + 1) * side == y * side + side) by (nonlinear_arith);
        }
    }
    proof {
        assert(image.len() == side * side);
        assert(image.take(side * side) =~= image);
    }
    pixels
}

/// The source position that the `Nearest` filter of
/// `image::imageops::resize` computes, before clamping, for output position
/// `i` when a side of `len` pixels is resized to `new_len`: the floor of
/// `(i + 0.5) * (len / new_len)`, computed by the crate in `f32`.
pub uninterp spec fn nearest_floor(len: u32, new_len: u32, i: int) -> int;

/// `v` brought into the positions `0 .. len - 1` of a side of `len` pixels.
pub open spec fn clamp_index(v: int, len: int) -> int {
    if v < 0 {
        0
    } else if v > len - 1 {
        len - 1
    } else {
        v
    }
}

/// The source position whose pixel the `Nearest` resize copies to output
/// position `i`, when a side of `len` pixels is resized to `new_len`. The
/// same formula serves columns and rows.
pub open spec fn nearest_source(len: u32, new_len: u32, i: int) -> int {
    clamp_index(nearest_floor(len, new_len, i), len as int)
}

/// Calls `image::imageops::resize` with `FilterType::Nearest` on the grey
/// (`Luma<u8>`) image of `width` × `height` pixels stored row by row in
/// `pixels`, and returns the new image stored the same way.
/// Trusted, from the source of the image crate (0.23, `imageops/sample.rs`:
/// `resize`, `vertical_sample`, `horizontal_sample`, `box_kernel`): the
/// result has `new_width * new_height` pixels; the pixel in column `x` and
/// row `y` is a copy of the source pixel in column
/// `clamp(nearest_floor(width, new_width, x))` and row
/// `clamp(nearest_floor(height, new_height, y))` (the filter's support is 0,
/// so exactly one source pixel is weighed, with weight 1; the rows are
/// sampled first, then the columns, by one formula); and a resize to the
/// same size keeps every pixel (the floor is then the position itself,
/// exactly computed in `f32` for sides up to 2^22). The `f32` value of the
/// floor in general is left to the name `nearest_floor`. The dimensions must
/// be positive: with a side of 0 the crate divides by a zero weight sum and
/// panics.
#[verifier::external_body]
fn resize_nearest(pixels: Vec<u8>, width: u32, height: u32, new_width: u32, new_height: u32) -> (res: Vec<u8>)
    requires
        0 < width,
        0 < height,
        0 < new_width,
        0 < new_height,
        pixels@.len() == width * height,
    ensures
        res@.len() == new_width * new_height,
        forall|x: int, y: int|
            0 <= x < new_width && 0 <= y < new_height ==> #[trigger] res@[y * new_width + x]
                == pixels@[clamp_index(nearest_floor(height, new_height, y), height as int) * width
                    + clamp_index(nearest_floor(width, new_width, x), width as int)],
        width == new_width && height == new_height && width <= 0x40_0000 && height <= 0x40_0000 ==> res@ == pixels@,
{
    match ImageBuffer::<Luma<u8>, Vec<u8>>::from_raw(width, height, pixels) {
        Some(image) => imageops::resize(&image, new_width, new_height, imageops::FilterType::Nearest).into_raw(),
        None => Vec::new(),
    }
}

/// The fitted grid of a 62 × 62 grey image stored row by row: entry
/// `[x][y]` is 1 where the pixel in column `x` and row `y` is black (0), 0
/// elsewhere.
pub open spec fn fitted(resized: Seq<u8>) -> Seq<Seq<u8>> {
    Seq::new(62, |x: int| Seq::new(62, |y: int| if resized[y * 62 + x] == 0 { 1u8 } else { 0u8 }))
}

/// The side of the square of cells of the picture `s`, as the resize takes it.
pub open spec fn picture_side(s: Seq<char>) -> u32 {
    qr_cells(s).len() as u32
}

/// What `fit` makes of the text picture `s`: entry `[x][y]` is the cell in
/// row `nearest_source(side, 62, x)` and column `nearest_source(side, 62, y)`
/// of the picture, `side` being its number of rows.
pub open spec fn fit_cells(s: Seq<char>) -> Seq<Seq<u8>> {
    let p = picture_side(s);
    Seq::new(62, |x: int| Seq::new(62, |y: int| qr_cells(s)[nearest_source(p, 62, x)][nearest_source(p, 62, y)]))
}

/// Reads a 62 × 62 grey image, stored row by row, back as the fitted grid:
/// 1 for a black pixel, 0 for any other.
pub fn fitted_grid(resized: &Vec<u8>) -> (res: Vec<Vec<u8>>)
    requires
        resized@.len() == 62 * 62,
    ensures
        rows_view(res@) == fitted(resized@),
{
    let mut res: Vec<Vec<u8>> = Vec::new();
    for x in 0..62usize
        invariant
            resized@.len() == 62 * 62,
            res@.len() == x,
            forall|i: int| 0 <= i < x ==> #[trigger] res@[i]@ == fitted(resized@)[i],
    {
        let mut column: Vec<u8> = Vec::new();
        for y in 0..62usize
            invariant
                resized@.len() == 62 * 62,
                0 <= x < 62,
                column@.len() == y,
                forall|j: int| 0 <= j < y ==> #[trigger] column@[j] == fitted(resized@)[x as int][j],
        {
            let level = resized[y * 62 + x];
            column.push(if level == 0 { 1 } else { 0 });
        }
        assert(column@ =~= fitted(resized@)[x as int]);
        res.push(column);
    }
    assert(rows_view(res@) =~= fitted(resized@));
    res
}

/// Every cell of a picture is 0 or 1.
pub open spec fn all_bits(cells: Seq<Seq<u8>>) -> bool {
    forall|x: int, y: int| 0 <= x < cells.len() && 0 <= y < cells[x].len() ==> #[trigger] cells[x][y] <= 1
}

proof fn lemma_fit_identity(rows: Seq<Seq<u8>>)
    requires
        all_bits(rows),
        rows.len() == 62,
        forall|x: int| 0 <= x < rows.len() ==> #[trigger] rows[x].len() >= rows.len(),
    ensures
        forall|x: int, y: int| 0 <= x < 62 && 0 <= y < 62 ==> #[trigger] fitted(qr_pixels(rows))[x][y] == rows[x][y],
{
    assert forall|x: int, y: int| 0 <= x < 62 && 0 <= y < 62 implies #[trigger] fitted(qr_pixels(rows))[x][y] == rows[x][y] by {
        lemma_qr_pixel_at(rows, x, y);
        assert(rows[x][y] <= 1);
    }
}

proof fn lemma_fit_of_resized(s: Seq<char>, resized: Seq<u8>)
    requires
        picture_fits(s),
        qr_cells(s).len() <= 0xffff_ffff,
        resized.len() == 62 * 62,
        forall|x: int, y: int|
            0 <= x < 62 && 0 <= y < 62 ==> #[trigger] resized[y * 62 + x]
                == qr_pixels(qr_cells(s))[nearest_source(picture_side(s), 62, y) * qr_cells(s).len()
                    + nearest_source(picture_side(s), 62, x)],
    ensures
        fitted(resized) == fit_cells(s),
{
    let rows = qr_cells(s);
    let p = picture_side(s);
    lemma_cells_nonempty(s);
    lemma_qr_cells_bits(s);
    assert(p as int == rows.len());
    assert forall|x: int, y: int| 0 <= x < 62 && 0 <= y < 62 implies #[trigger] fitted(resized)[x][y] == fit_cells(s)[x][y] by {
        let c = nearest_source(p, 62, x);
        let r = nearest_source(p, 62, y);
        assert(0 <= c < rows.len() && 0 <= r < rows.len());
        assert(resized[y * 62 + x] == qr_pixels(rows)[r * rows.len() + c]);
        lemma_qr_pixel_at(rows, c, r);
        assert(rows[c].len() >= rows.len());
        assert(rows[c][r] <= 1);
    }
    assert forall|x: int| 0 <= x < 62 implies #[trigger] fitted(resized)[x] =~= fit_cells(s)[x] by {}
    assert(fitted(resized) =~= fit_cells(s));
}

/// Fits the text picture of a QR code (rows separated by line feeds, a
/// space for a light module, any other character for a dark one) to the
/// 62 × 62 grid shown on the display: 1 for a dark pixel, 0 for a light one.
/// The picture's rows become the grid's first index: entry `[x][y]` is the
/// cell in row `nearest_source(side, 62, x)`, column
/// `nearest_source(side, 62, y)` of the picture (`fit_cells`).
pub fn fit(qr: String) -> (res: Vec<Vec<u8>>)
    requires
        picture_fits(qr@),
        qr@.len() <= usize::MAX,
    ensures
        rows_view(res@) == fit_cells(qr@),
        res@.len() == 62,
        forall|x: int| 0 <= x < 62 ==> (#[trigger] res@[x])@.len() == 62,
        forall|x: int, y: int| 0 <= x < 62 && 0 <= y < 62 ==> #[trigger] res@[x]@[y] <= 1,
        qr_cells(qr@).len() == 62 ==> forall|x: int, y: int|
            0 <= x < 62 && 0 <= y < 62 ==> #[trigger] res@[x]@[y] == qr_cells(qr@)[x][y],
{
    let cells = read_cells(&qr);
    let side = cells.len();
    let ghost rows = qr_cells(qr@);
    proof {
        lemma_side_bound(qr@);
        lemma_qr_cells_bits(qr@);
        assert forall|x: int| 0 <= x < side implies #[trigger] cells@[x]@.len() >= side by {
            assert(cells@[x]@ == rows[x]);
        }
        assert(side * side <= 0xffff_ffff_ffff_ffff);
        assert(side <= 0xffff_ffff) by (nonlinear_arith)
            requires
                side * side <= 0xffff_ffff_ffff_ffff,
                side >= 1,
        ;
    }
    let pixels = cells_image(&cells, side);
    let resized = resize_nearest(pixels, side as u32, side as u32, 62, 62);
    let res = fitted_grid(&resized);
    proof {
        let grid = rows_view(res@);
        lemma_fit_of_resized(qr@, resized@);
        assert(grid.len() == 62);
        assert(res@.len() == 62);
        assert forall|x: int| 0 <= x < 62 implies (#[trigger] res@[x])@.len() == 62 by {
            assert(res@[x]@ == grid[x]);
        }
        assert forall|x: int, y: int| 0 <= x < 62 && 0 <= y < 62 implies #[trigger] res@[x]@[y] <= 1 by {
            assert(res@[x]@ == grid[x]);
        }
        if side == 62 {
            lemma_fit_identity(rows);
            assert forall|x: int, y: int| 0 <= x < 62 && 0 <= y < 62 implies #[trigger] res@[x]@[y] == rows[x][y] by {
                assert(res@[x]@ == grid[x]);
            }
        }
    }
    res
}

proof fn lemma_side_fits_u32(s: Seq<char>)
    requires
        picture_fits(s),
        s.len() <= usize::MAX,
    ensures
        1 <= qr_cells(s).len() <= 0xffff_ffff,
        picture_side(s) as int == qr_cells(s).len(),
{
    lemma_side_bound(s);
    let n = qr_cells(s).len() as int;
    assert(n * n <= 0xffff_ffff_ffff_ffff);
    assert(n <= 0xffff_ffff) by (nonlinear_arith)
        requires
            n * n <= 0xffff_ffff_ffff_ffff,
            n >= 1,
    ;
}

/// The character that shows the opposite cell: a full block for a space, a
/// space for any other character; line feeds stay.
pub open spec fn complement_char(c: char) -> char {
    if c == ' ' {
        '\u{2588}'
    } else if c == '\n' {
        '\n'
    } else {
        ' '
    }
}

/// The picture with every cell turned to the opposite one.
pub open spec fn complement_text(s: Seq<char>) -> Seq<char> {
    s.map_values(|c: char| complement_char(c))
}

/// Every cell turned to the opposite one.
pub open spec fn flip_cells(rows: Seq<Seq<u8>>) -> Seq<Seq<u8>> {
    rows.map_values(|r: Seq<u8>| r.map_values(|b: u8| (1 - b) as u8))
}

proof fn lemma_complement_cells(s: Seq<char>)
    ensures
        qr_cells(complement_text(s)) == flip_cells(qr_cells(s)),
    decreases s.len(),
{
    let t = complement_text(s);
    if s.len() == 0 {
        assert(t =~= Seq::<char>::empty());
        assert(flip_cells(seq![Seq::<u8>::empty()]) =~~= seq![Seq::<u8>::empty()]);
        assert(flip_cells(seq![Seq::<u8>::empty()]) =~~= qr_cells(t));
    } else {
        let s0 = s.drop_last();
        lemma_complement_cells(s0);
        lemma_cells_nonempty(s0);
        assert(t.drop_last() =~= complement_text(s0));
        assert(t.last() == complement_char(s.last()));
        let rows = qr_cells(s0);
        if s.last() == '\n' {
            assert(flip_cells(rows.push(Seq::<u8>::empty())) =~~= flip_cells(rows).push(Seq::<u8>::empty()));
            assert(qr_cells(t) =~= flip_cells(qr_cells(s)));
        } else {
            let b = cell_bit(s.last());
            let n = rows.len() - 1;
            assert(cell_bit(complement_char(s.last())) == (1 - b) as u8);
            let fr = flip_cells(rows);
            assert(fr.last().push((1 - b) as u8) =~= rows.last().push(b).map_values(|c: u8| (1 - c) as u8));
            assert(flip_cells(rows.update(n, rows.last().push(b))) =~= fr.update(n, fr.last().push((1 - b) as u8)));
            assert(qr_cells(t) =~= flip_cells(qr_cells(s)));
        }
    }
}

/// Turning every cell of a picture to the opposite one turns every entry
/// of the fitted grid to the opposite one.
pub proof fn lemma_fit_complement(s: Seq<char>)
    requires
        picture_fits(s),
        s.len() <= usize::MAX,
    ensures
        picture_fits(complement_text(s)),
        forall|x: int, y: int| 0 <= x < 62 && 0 <= y < 62 ==>
            #[trigger] fit_cells(complement_text(s))[x][y] == 1 - fit_cells(s)[x][y],
{
    let t = complement_text(s);
    let rows = qr_cells(s);
    lemma_complement_cells(s);
    lemma_side_fits_u32(s);
    lemma_qr_cells_bits(s);
    assert(qr_cells(t).len() == rows.len());
    assert forall|x: int| 0 <= x < qr_cells(t).len() implies #[trigger] qr_cells(t)[x].len() >= qr_cells(t).len() by {
        assert(qr_cells(t)[x].len() == rows[x].len());
    }
    let p = picture_side(s);
    assert(picture_side(t) == p);
    assert forall|x: int, y: int| 0 <= x < 62 && 0 <= y < 62 implies
        #[trigger] fit_cells(t)[x][y] == 1 - fit_cells(s)[x][y] by {
        let c = nearest_source(p, 62, x);
        let r = nearest_source(p, 62, y);
        assert(0 <= c < rows.len() && 0 <= r < rows.len());
        assert(rows[c].len() >= rows.len());
        assert(rows[c][r] <= 1);
        assert(qr_cells(t)[c][r] == (1 - rows[c][r]) as u8);
    }
}

/// Transposing a square picture transposes the fitted grid: when the cells
/// of `t` are those of `s` with rows and columns swapped, entry `[x][y]` of
/// the grid of `t` is entry `[y][x]` of the grid of `s`.
pub proof fn lemma_fit_transpose(s: Seq<char>, t: Seq<char>)
    requires
        s.len() <= usize::MAX,
        qr_cells(t).len() == qr_cells(s).len(),
        forall|a: int| 0 <= a < qr_cells(s).len() ==> #[trigger] qr_cells(s)[a].len() == qr_cells(s).len(),
        forall|a: int| 0 <= a < qr_cells(t).len() ==> #[trigger] qr_cells(t)[a].len() == qr_cells(t).len(),
        forall|a: int, b: int| 0 <= a < qr_cells(s).len() && 0 <= b < qr_cells(s).len() ==>
            #[trigger] qr_cells(t)[a][b] == qr_cells(s)[b][a],
    ensures
        forall|x: int, y: int| 0 <= x < 62 && 0 <= y < 62 ==> #[trigger] fit_cells(t)[x][y] == fit_cells(s)[y][x],
{
    assert(picture_fits(s));
    lemma_side_fits_u32(s);
    let p = picture_side(s);
    assert(picture_side(t) == p);
    assert forall|x: int, y: int| 0 <= x < 62 && 0 <= y < 62 implies #[trigger] fit_cells(t)[x][y] == fit_cells(s)[y][x] by {
        let c = nearest_source(p, 62, x);
        let r = nearest_source(p, 62, y);
        assert(0 <= c < qr_cells(s).len() && 0 <= r < qr_cells(s).len());
        assert(qr_cells(t)[c][r] == qr_cells(s)[r][c]);
    }
}

} // verus!
