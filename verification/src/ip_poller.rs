//! What the display shows: a QR code of the controller's address, so that a
//! phone on the same network can open the garden's web page.

use vstd::prelude::*;
use vstd::string::*;
use vstd::arithmetic::div_mod::lemma_fundamental_div_mod_converse;
use qrcode::render::Renderer;
use qrcode::types::QrError;
use qrcode::{Color, QrCode};
use crate::display::{push_op, push_text, DrawOp, DrawOpView, Font, ops_view};
use crate::qr_fit::{cell_bit, fit, fit_cells, nearest_source, picture_fits, picture_side, qr_cells, rows_view};

verus! {

/// The error of the QR encoder.
#[verifier::external_type_specification]
#[verifier::external_body]
pub struct ExQrError(QrError);

/// The modules of the QR code (model 2, error correction level M, smallest
/// version) that `qrcode::QrCode::new` makes of the bytes of `data`: its
/// width and, row by row, whether each module is dark. `None` when the data
/// does not fit in a QR code.
pub uninterp spec fn qr_modules(data: Seq<char>) -> Option<(usize, Seq<bool>)>;

/// Whether every character of `s` is ASCII, one byte in UTF-8.
pub open spec fn ascii_text(s: Seq<char>) -> bool {
    forall|i: int| 0 <= i < s.len() ==> (s[i] as int) < 128
}

/// Calls `qrcode::QrCode::new` on `data` and reads the code back as its
/// width and its modules, row by row, `true` for a dark one.
/// Trusted, from the crate's source (0.12): the result is the named
/// `qr_modules` of `data`; a code is a normal QR code of version 1 to 40,
/// so its width is between 21 and 177, and it has width × width modules.
/// ASCII data of at most 600 characters always encodes: such data never
/// enters the Kanji states of the segment parser, each of its segments
/// holds at least one byte and costs at most a 20-bit header and 8 bits a
/// byte, the optimizer only merges segments where that does not lengthen
/// them, so the whole takes at most 28 bits a byte, within the 18672 data
/// bits of version 40 at level M; no segment count then overflows its
/// field in the version chosen, and the error-correction step fails only
/// on versions outside 1 to 40.
/// Which modules are dark is left unsaid, and so is whether longer or
/// non-ASCII data encodes.
#[verifier::external_body]
fn encode_qr(data: &str) -> (res: Result<(usize, Vec<bool>), QrError>)
    ensures
        ascii_text(data@) && data@.len() <= 600 ==> res is Ok,
        match res {
            Ok((width, dark)) => {
                &&& qr_modules(data@) == Some((width, dark@))
                &&& 21 <= width <= 177
                &&& dark@.len() == width * width
            },
            Err(_) => qr_modules(data@) is None,
        },
{
    match QrCode::new(data) {
        Ok(code) => Ok((code.width(), code.to_colors().into_iter().map(|c| c != Color::Light).collect())),
        Err(e) => Err(e),
    }
}

/// The character that shows a module: a full block when dark, a space when
/// light.
pub open spec fn module_char(dark: bool) -> char {
    if dark {
        '\u{2588}'
    } else {
        ' '
    }
}

/// Row `y` of a square of modules of side `width`, as characters.
pub open spec fn module_row(width: int, dark: Seq<bool>, y: int) -> Seq<char> {
    Seq::new(width as nat, |x: int| module_char(dark[y * width + x]))
}

/// The first `k` rows of a square of modules, separated by line feeds.
pub open spec fn module_rows_text(width: int, dark: Seq<bool>, k: nat) -> Seq<char>
    decreases k,
{
    if k <= 1 {
        module_row(width, dark, 0)
    } else {
        module_rows_text(width, dark, (k - 1) as nat) + seq!['\n'] + module_row(width, dark, k - 1)
    }
}

/// The text picture of a square of modules of side `width`: its rows,
/// separated by line feeds, with no border.
pub open spec fn module_text(width: int, dark: Seq<bool>) -> Seq<char> {
    module_rows_text(width, dark, width as nat)
}

/// Calls the character renderer of the qrcode crate on a square of modules
/// of side `width` (`true` for dark), without the quiet zone and with one
/// character per module, as `QrCode::render::<char>()` does in that setting.
/// Trusted, from the crate's source (0.12, `render/mod.rs` and
/// `render/string.rs`): the result is `module_text`: one character per
/// module, a full block (U+2588) for a dark one and a space for a light one,
/// rows separated by a line feed.
#[verifier::external_body]
fn render_text(width: usize, dark: &Vec<bool>) -> (res: String)
    requires
        width >= 1,
        dark@.len() == width * width,
    ensures
        res@ == module_text(width as int, dark@),
{
    let colors: Vec<Color> = dark.iter().map(|d| if *d { Color::Dark } else { Color::Light }).collect();
    Renderer::<char>::new(&colors, width, 4).quiet_zone(false).module_dimensions(1, 1).build()
}

/// The cells of row `y` of a square of modules.
pub open spec fn module_bits(width: int, dark: Seq<bool>, y: int) -> Seq<u8> {
    Seq::new(width as nat, |x: int| if dark[y * width + x] { 1u8 } else { 0u8 })
}

proof fn lemma_cells_append_plain(a: Seq<char>, r: Seq<char>)
    requires
        forall|i: int| 0 <= i < r.len() ==> #[trigger] r[i] != '\n',
    ensures
        qr_cells(a + r) == qr_cells(a).update(
            qr_cells(a).len() - 1,
            qr_cells(a).last() + r.map_values(|c: char| cell_bit(c)),
        ),
    decreases r.len(),
{
    let q = qr_cells(a);
    crate::qr_fit::lemma_cells_nonempty(a);
    if r.len() == 0 {
        assert(a + r =~= a);
        assert(q.last() + r.map_values(|c: char| cell_bit(c)) =~= q.last());
        assert(q.update(q.len() - 1, q.last()) =~= q);
    } else {
        let r0 = r.drop_last();
        lemma_cells_append_plain(a, r0);
        assert((a + r).drop_last() =~= a + r0);
        assert((a + r).last() == r.last());
        assert(r.last() != '\n');
        let prev = qr_cells(a + r0);
        assert(prev.len() == q.len());
        assert(prev.last() == q.last() + r0.map_values(|c: char| cell_bit(c)));
        assert(qr_cells(a + r) == prev.update(prev.len() - 1, prev.last().push(cell_bit(r.last()))));
        assert(prev.last().push(cell_bit(r.last())) =~= q.last() + r.map_values(|c: char| cell_bit(c)));
        assert(qr_cells(a + r) =~= q.update(q.len() - 1, q.last() + r.map_values(|c: char| cell_bit(c))));
    }
}

proof fn lemma_module_row_cells(width: int, dark: Seq<bool>, y: int)
    requires
        width >= 0,
    ensures
        forall|i: int| 0 <= i < module_row(width, dark, y).len() ==> #[trigger] module_row(width, dark, y)[i] != '\n',
        module_row(width, dark, y).map_values(|c: char| cell_bit(c)) == module_bits(width, dark, y),
{
    assert(module_row(width, dark, y).map_values(|c: char| cell_bit(c)) =~= module_bits(width, dark, y));
}

/// The cells of the text picture of the first `k` rows of a square of
/// modules are those rows, read as bits.
proof fn lemma_module_rows_cells(width: int, dark: Seq<bool>, k: nat)
    requires
        width >= 0,
        k >= 1,
    ensures
        qr_cells(module_rows_text(width, dark, k)) == Seq::new(k, |y: int| module_bits(width, dark, y)),
        module_rows_text(width, dark, k).len() == k * width + k - 1,
    decreases k,
{
    let e = Seq::<char>::empty();
    if k == 1 {
        let row = module_row(width, dark, 0);
        lemma_module_row_cells(width, dark, 0);
        lemma_cells_append_plain(e, row);
        assert(e + row =~= row);
        assert(qr_cells(e) =~= seq![Seq::<u8>::empty()]);
        assert(Seq::<u8>::empty() + module_bits(width, dark, 0) =~= module_bits(width, dark, 0));
        assert(qr_cells(row) =~= Seq::new(k, |y: int| module_bits(width, dark, y)));
    } else {
        let t = module_rows_text(width, dark, (k - 1) as nat);
        let row = module_row(width, dark, k - 1);
        lemma_module_rows_cells(width, dark, (k - 1) as nat);
        lemma_module_row_cells(width, dark, k - 1);
        let tn = t + seq!['\n'];
        assert(tn.drop_last() =~= t);
        assert(qr_cells(tn) == qr_cells(t).push(Seq::<u8>::empty()));
        lemma_cells_append_plain(tn, row);
        assert(tn + row =~= module_rows_text(width, dark, k));
        assert(Seq::<u8>::empty() + module_bits(width, dark, k - 1) =~= module_bits(width, dark, k - 1));
        assert(qr_cells(module_rows_text(width, dark, k)) =~= Seq::new(k, |y: int| module_bits(width, dark, y)));
        assert((k - 1) * width + (k - 1) - 1 + 1 + width == k * width + k - 1) by (nonlinear_arith);
    }
}

/// The text picture of a QR code of width `width` has `width` rows of
/// `width` cells each, one per module, 1 for a dark module; so `fit` can
/// always take it.
pub proof fn lemma_module_text_cells(width: int, dark: Seq<bool>)
    requires
        width >= 1,
    ensures
        qr_cells(module_text(width, dark)) == Seq::new(width as nat, |y: int| module_bits(width, dark, y)),
        picture_fits(module_text(width, dark)),
        module_text(width, dark).len() == width * width + width - 1,
{
    lemma_module_rows_cells(width, dark, width as nat);
}

/// The address the QR code points at: `http://` followed by the IP address.
pub open spec fn ip_url(ip: Seq<char>) -> Seq<char> {
    "http://"@ + ip
}

/// The address the QR code points at is `http://` followed by the whole
/// IP address: seven characters longer than it, starting `h`, `t`, `t`,
/// `p`, `:`, `/`, `/`, then the address character for character.
pub proof fn lemma_ip_url_chars(ip: Seq<char>)
    ensures
        ip_url(ip).len() == ip.len() + 7,
        ip_url(ip).subrange(0, 7) == seq!['h', 't', 't', 'p', ':', '/', '/'],
        forall|i: int| 0 <= i < ip.len() ==> #[trigger] ip_url(ip)[i + 7] == ip[i],
{
    reveal_strlit("http://");
    assert(ip_url(ip).subrange(0, 7) =~= seq!['h', 't', 't', 'p', ':', '/', '/']);
}

/// The web address of the controller at `ip`.
pub fn detected_ip_url(ip: &String) -> (res: String)
    ensures
        res@ == ip_url(ip@),
        res@.len() == ip@.len() + 7,
        res@.subrange(0, 7) == seq!['h', 't', 't', 'p', ':', '/', '/'],
        forall|i: int| 0 <= i < ip@.len() ==> #[trigger] res@[i + 7] == ip@[i],
{
    proof { lemma_ip_url_chars(ip@); }
    String::from_str("http://").concat(ip.as_str())
}

/// The pixels of a fitted grid: for each column `x` and row `y` below 62,
/// in that order, the display pixel (`x` + 1, `y` + 1), lit where the grid
/// holds 0.
pub open spec fn grid_pixels(grid: Seq<Seq<u8>>) -> Seq<DrawOpView> {
    Seq::new(62 * 62, |i: int| DrawOpView::Pixel { x: (i / 62 + 1) as i32, y: (i % 62 + 1) as i32, on: grid[i / 62][i % 62] == 0 })
}

/// The display position that a drawing operation sets, if it sets one.
pub open spec fn pixel_position(op: DrawOpView) -> Option<(int, int)> {
    match op {
        DrawOpView::Pixel { x, y, .. } => Some((x as int, y as int)),
        _ => None,
    }
}

/// Each pixel of the square from (1, 1) to (62, 62), inside the frame, is
/// set exactly once by the drawing of a fitted grid, and no other pixel is.
pub proof fn lemma_grid_pixels_cover_square(grid: Seq<Seq<u8>>)
    ensures
        grid_pixels(grid).len() == 62 * 62,
        forall|i: int| 0 <= i < 62 * 62 ==> ((#[trigger] pixel_position(grid_pixels(grid)[i])) matches Some((x, y))
            && 1 <= x <= 62 && 1 <= y <= 62),
        forall|i: int, j: int| 0 <= i < 62 * 62 && 0 <= j < 62 * 62 && i != j ==>
            #[trigger] pixel_position(grid_pixels(grid)[i]) != #[trigger] pixel_position(grid_pixels(grid)[j]),
        forall|x: int, y: int| 1 <= x <= 62 && 1 <= y <= 62 ==>
            #[trigger] pixel_position(grid_pixels(grid)[(x - 1) * 62 + (y - 1)]) == Some((x, y)),
{
    assert forall|i: int| 0 <= i < 62 * 62 implies ((#[trigger] pixel_position(grid_pixels(grid)[i])) matches Some((x, y))
        && 1 <= x <= 62 && 1 <= y <= 62) by {
        lemma_fundamental_div_mod_converse(i, 62, i / 62, i % 62);
        vstd::arithmetic::div_mod::lemma_fundamental_div_mod(i, 62);
        assert(0 <= i / 62 < 62 && 0 <= i % 62 < 62);
    }
    assert forall|i: int, j: int| 0 <= i < 62 * 62 && 0 <= j < 62 * 62 && i != j implies
        #[trigger] pixel_position(grid_pixels(grid)[i]) != #[trigger] pixel_position(grid_pixels(grid)[j]) by {
        vstd::arithmetic::div_mod::lemma_fundamental_div_mod(i, 62);
        vstd::arithmetic::div_mod::lemma_fundamental_div_mod(j, 62);
        assert(0 <= i / 62 < 62 && 0 <= i % 62 < 62);
        assert(0 <= j / 62 < 62 && 0 <= j % 62 < 62);
    }
    assert forall|x: int, y: int| 1 <= x <= 62 && 1 <= y <= 62 implies
        #[trigger] pixel_position(grid_pixels(grid)[(x - 1) * 62 + (y - 1)]) == Some((x, y)) by {
        lemma_fundamental_div_mod_converse((x - 1) * 62 + (y - 1), 62, x - 1, y - 1);
    }
}

/// The drawing of a fitted grid: clear, the 62 × 62 pixels at offset
/// (1, 1), a one pixel frame from (0, 0) to (63, 63), the text `192.168`
/// twice on the right, flush.
pub open spec fn qr_frame_ops(grid: Seq<Seq<u8>>) -> Seq<DrawOpView> {
    seq![DrawOpView::Clear] + grid_pixels(grid) + seq![
        DrawOpView::Rectangle { left: 0, top: 0, right: 63, bottom: 63, stroke_width: 1 },
        DrawOpView::Text { text: "192.168"@, x: 66, y: 0, font: Font::Font8x16 },
        DrawOpView::Text { text: "192.168"@, x: 66, y: 18, font: Font::Font8x16 },
        DrawOpView::Flush,
    ]
}

/// The drawing when the controller has no address: clear (twice), `NO IP`
/// in the 12 × 16 font at the top left corner, flush.
pub open spec fn no_ip_ops() -> Seq<DrawOpView> {
    seq![
        DrawOpView::Clear,
        DrawOpView::Clear,
        DrawOpView::Text { text: "NO IP"@, x: 0, y: 0, font: Font::Font12x16 },
        DrawOpView::Flush,
    ]
}

/// The operation that sets display pixel (`x` + 1, `y` + 1) for grid entry
/// `[x][y]` stands at position `1 + x * 62 + y` of a QR drawing.
pub proof fn lemma_frame_pixel(grid: Seq<Seq<u8>>, x: int, y: int)
    requires
        0 <= x < 62,
        0 <= y < 62,
    ensures
        qr_frame_ops(grid)[1 + x * 62 + y] == (DrawOpView::Pixel { x: (x + 1) as i32, y: (y + 1) as i32, on: grid[x][y] == 0 }),
{
    lemma_fundamental_div_mod_converse(x * 62 + y, 62, x, y);
    assert(qr_frame_ops(grid)[1 + x * 62 + y] == grid_pixels(grid)[x * 62 + y]);
}

/// Draws the text picture of a QR code: its fitted 62 × 62 grid, framed.
/// Display pixel (`x` + 1, `y` + 1) shows the cell in row
/// `nearest_source(side, 62, x)` and column `nearest_source(side, 62, y)` of
/// the picture, lit where that cell is light.
pub fn qr_frame(qr_text: String) -> (res: Vec<DrawOp>)
    requires
        picture_fits(qr_text@),
        qr_text@.len() <= usize::MAX,
    ensures
        ops_view(res@) == qr_frame_ops(fit_cells(qr_text@)),
        forall|x: int, y: int| 0 <= x < 62 && 0 <= y < 62 ==> #[trigger] ops_view(res@)[1 + x * 62 + y] == (DrawOpView::Pixel {
            x: (x + 1) as i32,
            y: (y + 1) as i32,
            on: qr_cells(qr_text@)[nearest_source(picture_side(qr_text@), 62, x)][nearest_source(picture_side(qr_text@), 62, y)] == 0,
        }),
{
    let grid = fit(qr_text);
    let ghost g = rows_view(grid@);
    let mut ops: Vec<DrawOp> = Vec::new();
    push_op(&mut ops, DrawOp::Clear);
    let ghost start = seq![DrawOpView::Clear];
    assert(ops_view(ops@) =~= start + grid_pixels(g).take(0));
    for x in 0..62usize
        invariant
            g == rows_view(grid@),
            grid@.len() == 62,
            forall|i: int| 0 <= i < 62 ==> (#[trigger] grid@[i])@.len() == 62,
            ops_view(ops@) == start + grid_pixels(g).take(x * 62),
    {
        for y in 0..62usize
            invariant
                g == rows_view(grid@),
                grid@.len() == 62,
                forall|i: int| 0 <= i < 62 ==> (#[trigger] grid@[i])@.len() == 62,
                0 <= x < 62,
                ops_view(ops@) == start + grid_pixels(g).take(x * 62 + y),
        {
            let cell = grid[x][y];
            let op = DrawOp::Pixel { x: x as i32 + 1, y: y as i32 + 1, on: cell == 0 };
            proof {
                lemma_fundamental_div_mod_converse(x * 62 + y, 62, x as int, y as int);
                assert(g[x as int] == grid@[x as int]@);
                assert(grid_pixels(g)[x * 62 + y] == op@);
                assert(grid_pixels(g).take(x * 62 + y + 1) =~= grid_pixels(g).take(x * 62 + y).push(op@));
            }
            push_op(&mut ops, op);
            proof {
                assert(start + grid_pixels(g).take(x * 62 + y + 1) =~= (start + grid_pixels(g).take(x * 62 + y)).push(op@));
            }
        }
    }
    assert(grid_pixels(g).take(62 * 62 as int) =~= grid_pixels(g));
    push_op(&mut ops, DrawOp::Rectangle { left: 0, top: 0, right: 63, bottom: 63, stroke_width: 1 });
    push_text(&mut ops, "192.168", 66, 0, Font::Font8x16);
    push_text(&mut ops, "192.168", 66, 18, Font::Font8x16);
    push_op(&mut ops, DrawOp::Flush);
    assert(ops_view(ops@) =~= qr_frame_ops(g));
    proof {
        assert forall|x: int, y: int| 0 <= x < 62 && 0 <= y < 62 implies #[trigger] ops_view(ops@)[1 + x * 62 + y] == (DrawOpView::Pixel {
            x: (x + 1) as i32,
            y: (y + 1) as i32,
            on: qr_cells(qr_text@)[nearest_source(picture_side(qr_text@), 62, x)][nearest_source(picture_side(qr_text@), 62, y)] == 0,
        }) by {
            lemma_frame_pixel(g, x, y);
        }
    }
    ops
}

/// What the display shows for the address `ip` (`None` when the controller
/// has none): the QR code of `http://` and the address, fitted and framed;
/// or `NO IP`. Fails when the address does not fit in a QR code, which an
/// ASCII address of at most 593 characters always does. Display
/// pixel (`x` + 1, `y` + 1) shows the module in row
/// `nearest_source(width, 62, x)` and column `nearest_source(width, 62, y)`
/// of the code, lit where that module is light.
pub fn poll_frame(ip: Option<String>) -> (res: Result<Vec<DrawOp>, QrError>)
    ensures
        ip matches Some(a) && ascii_text(a@) && a@.len() <= 593 ==> res is Ok,
        match ip {
            None => res matches Ok(ops) && ops_view(ops@) == no_ip_ops(),
            Some(ip) => match qr_modules(ip_url(ip@)) {
                None => res is Err,
                Some((width, dark)) => res matches Ok(ops)
                    && ops_view(ops@) == qr_frame_ops(fit_cells(module_text(width as int, dark)))
                    && forall|x: int, y: int| 0 <= x < 62 && 0 <= y < 62 ==> #[trigger] ops_view(ops@)[1 + x * 62 + y]
                        == (DrawOpView::Pixel {
                            x: (x + 1) as i32,
                            y: (y + 1) as i32,
                            on: !dark[nearest_source(width as u32, 62, x) * width + nearest_source(width as u32, 62, y)],
                        }),
            },
        },
{
    match ip {
        None => {
            let mut ops: Vec<DrawOp> = Vec::new();
            push_op(&mut ops, DrawOp::Clear);
            push_op(&mut ops, DrawOp::Clear);
            push_text(&mut ops, "NO IP", 0, 0, Font::Font12x16);
            push_op(&mut ops, DrawOp::Flush);
            assert(ops_view(ops@) =~= no_ip_ops());
            Ok(ops)
        },
        Some(ip) => {
            let url = detected_ip_url(&ip);
            proof {
                reveal_strlit("http://");
                if ascii_text(ip@) {
                    assert forall|i: int| 0 <= i < url@.len() implies (url@[i] as int) < 128 by {
                        if i >= 7 {
                            assert(url@[i] == ip@[i - 7]);
                        }
                    }
                }
            }
            match encode_qr(url.as_str()) {
                Err(e) => Err(e),
                Ok((width, dark)) => {
                    let text = render_text(width, &dark);
                    proof {
                        lemma_module_text_cells(width as int, dark@);
                        assert(width * width + width - 1 <= 177 * 177 + 177) by (nonlinear_arith)
                            requires
                                21 <= width <= 177,
                        ;
                    }
                    let ops = qr_frame(text);
                    proof {
                        let w = width as int;
                        let cells = qr_cells(module_text(w, dark@));
                        assert(picture_side(module_text(w, dark@)) == width as u32);
                        assert forall|x: int, y: int| 0 <= x < 62 && 0 <= y < 62 implies
                            #[trigger] ops_view(ops@)[1 + x * 62 + y] == (DrawOpView::Pixel {
                                x: (x + 1) as i32,
                                y: (y + 1) as i32,
                                on: !dark@[nearest_source(width as u32, 62, x) * width + nearest_source(width as u32, 62, y)],
                            }) by {
                            let c = nearest_source(width as u32, 62, x);
                            let r = nearest_source(width as u32, 62, y);
                            assert(0 <= c < w && 0 <= r < w);
                            assert(cells[c] == module_bits(w, dark@, c));
                            assert(cells[c][r] == (if dark@[c * w + r] { 1u8 } else { 0u8 }));
                        }
                    }
                    Ok(ops)
                },
            }
        },
    }
}

} // verus!
