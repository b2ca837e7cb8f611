use vstd::prelude::*;

verus! {

/// A display color out of the small fixed palette the wall supports here.
#[derive(PartialEq, Eq, Structural, Clone, Copy, Debug)]
pub enum Color {
    Black,
    Red,
    Green,
    Yellow,
    Cyan,
    Magenta,
    Blue,
    White,
    Gray,
}

/// The color of the fruit cell.
pub const FRUIT_COLOR: Color = Color::Red;
/// The background color of empty cells.
pub const BACKGROUND_COLOR: Color = Color::Black;
/// Number of snake colors in the palette that roster slots cycle through.
pub const SNAKE_PALETTE_LEN: usize = 7;

/// The snake palette, cycling by roster index.
pub open spec fn snake_color_spec(i: int) -> Color {
    let k = i % (SNAKE_PALETTE_LEN as int);
    if k == 0 {
        Color::Green
    } else if k == 1 {
        Color::Yellow
    } else if k == 2 {
        Color::Cyan
    } else if k == 3 {
        Color::Magenta
    } else if k == 4 {
        Color::Blue
    } else if k == 5 {
        Color::White
    } else {
        Color::Gray
    }
}

/// The palette color assigned to roster slot `i`.
pub fn snake_color(i: usize) -> (c: Color)
    ensures
        c == snake_color_spec(i as int),
{
    let k = i % SNAKE_PALETTE_LEN;
    if k == 0 {
        Color::Green
    } else if k == 1 {
        Color::Yellow
    } else if k == 2 {
        Color::Cyan
    } else if k == 3 {
        Color::Magenta
    } else if k == 4 {
        Color::Blue
    } else if k == 5 {
        Color::White
    } else {
        Color::Gray
    }
}

} // verus!
