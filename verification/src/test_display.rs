//! The greeting that shows the display works.

use vstd::prelude::*;
use crate::display::{push_op, push_text, DrawOp, DrawOpView, Font, ops_view};

verus! {

/// The greeting: four lines in the 6 × 8 font at heights 0, 10, 20 and 40,
/// then a flush.
pub open spec fn greeting() -> Seq<DrawOpView> {
    seq![
        DrawOpView::Text { text: "Selamat Idul Fitri"@, x: 0, y: 0, font: Font::Font6x8 },
        DrawOpView::Text { text: "1441H, mohon maaf"@, x: 0, y: 10, font: Font::Font6x8 },
        DrawOpView::Text { text: "lahir dan batin!"@, x: 0, y: 20, font: Font::Font6x8 },
        DrawOpView::Text { text: "- MADE IN RUST LANG -"@, x: 0, y: 40, font: Font::Font6x8 },
        DrawOpView::Flush,
    ]
}

/// The drawing of the test greeting.
pub fn test_display() -> (res: Vec<DrawOp>)
    ensures
        ops_view(res@) == greeting(),
{
    let mut ops: Vec<DrawOp> = Vec::new();
    push_text(&mut ops, "Selamat Idul Fitri", 0, 0, Font::Font6x8);
    push_text(&mut ops, "1441H, mohon maaf", 0, 10, Font::Font6x8);
    push_text(&mut ops, "lahir dan batin!", 0, 20, Font::Font6x8);
    push_text(&mut ops, "- MADE IN RUST LANG -", 0, 40, Font::Font6x8);
    push_op(&mut ops, DrawOp::Flush);
    assert(ops_view(ops@) =~= greeting());
    ops
}

} // verus!
