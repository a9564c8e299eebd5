//! Drawing on the OLED display, as a list of operations.

use vstd::prelude::*;

verus! {

/// The fonts the display text is set in.
#[derive(Debug, Clone, Copy, PartialEq, Eq, Structural)]
pub enum Font {
    Font6x8,
    Font8x16,
    Font12x16,
}

/// One drawing operation. Shapes and text are drawn in the lit colour.
#[derive(Debug)]
pub enum DrawOp {
    /// Clear the whole display.
    Clear,
    /// Set the pixel at (`x`, `y`), lit when `on`.
    Pixel { x: i32, y: i32, on: bool },
    /// Outline the rectangle with corners (`left`, `top`) and (`right`,
    /// `bottom`) with a stroke `stroke_width` pixels wide.
    Rectangle { left: i32, top: i32, right: i32, bottom: i32, stroke_width: u32 },
    /// Write `text` with its top left corner at (`x`, `y`).
    Text { text: String, x: i32, y: i32, font: Font },
    /// Send the drawing to the display.
    Flush,
}

/// A drawing operation, with its text as plain characters.
pub enum DrawOpView {
    Clear,
    Pixel { x: i32, y: i32, on: bool },
    Rectangle { left: i32, top: i32, right: i32, bottom: i32, stroke_width: u32 },
    Text { text: Seq<char>, x: i32, y: i32, font: Font },
    Flush,
}

impl View for DrawOp {
    type V = DrawOpView;

    open spec fn view(&self) -> DrawOpView {
        match self {
            DrawOp::Clear => DrawOpView::Clear,
            DrawOp::Pixel { x, y, on } => DrawOpView::Pixel { x: *x, y: *y, on: *on },
            DrawOp::Rectangle { left, top, right, bottom, stroke_width } => DrawOpView::Rectangle {
                left: *left,
                top: *top,
                right: *right,
                bottom: *bottom,
                stroke_width: *stroke_width,
            },
            DrawOp::Text { text, x, y, font } => DrawOpView::Text { text: text@, x: *x, y: *y, font: *font },
            DrawOp::Flush => DrawOpView::Flush,
        }
    }
}

/// The operations of a list, each as plain values.
pub open spec fn ops_view(ops: Seq<DrawOp>) -> Seq<DrawOpView> {
    ops.map_values(|op: DrawOp| op@)
}

/// Appends the operation that writes `text` at (`x`, `y`) in `font`.
pub fn push_text(ops: &mut Vec<DrawOp>, text: &str, x: i32, y: i32, font: Font)
    ensures
        ops_view(final(ops)@) == ops_view(old(ops)@).push(DrawOpView::Text { text: text@, x, y, font }),
{
    let op = DrawOp::Text { text: String::from_str(text), x, y, font };
    ops.push(op);
    proof {
        assert(ops_view(ops@) =~= ops_view(old(ops)@).push(DrawOpView::Text { text: text@, x, y, font }));
    }
}

/// Appends `op`.
pub fn push_op(ops: &mut Vec<DrawOp>, op: DrawOp)
    ensures
        ops_view(final(ops)@) == ops_view(old(ops)@).push(op@),
{
    let ghost v = op@;
    ops.push(op);
    proof {
        assert(ops_view(ops@) =~= ops_view(old(ops)@).push(v));
    }
}

} // verus!
