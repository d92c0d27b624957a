//! A minimal immediate-mode terminal UI toolkit: rectangular text windows are
//! composed offscreen into a cell grid and turned into a stream of cursor and
//! color commands. The caller owns the main loop and the real terminal; this
//! crate owns the cell-buffer model, the window stack and the compositor.
use vstd::prelude::*;

mod grid;
mod input;
mod terminal;
mod window;

pub use grid::{
    apply_patch, blit_spec, default_grid, default_pixel, grid_blit, grid_fill_default, grid_get,
    grid_get_spec, grid_index, grid_put, grid_put_spec, grid_wf, gview, in_grid,
    lemma_apply_patch_compose, lemma_apply_patch_twice, lemma_coords_index, lemma_index_coords,
    make_default_grid, wf_size,
};
pub use input::{
    echo_position, last_key_spec, no_key_spec, InputEvent, KeyCode, KeyEvent, LineAction,
    LineEditor, MODIFIER_ALT, MODIFIER_CONTROL, MODIFIER_SHIFT,
};
pub use terminal::{
    cells_emit, cells_emit_acc, composite_spec, fast_rows_spec, find_window, ids_of,
    lemma_clear_windows_render_default, lemma_find_window, lemma_find_window_first,
    lemma_find_window_none, lemma_render_deterministic, lemma_set_top_preserves, ops_view,
    render_accurate_ops_spec, render_fast_ops_spec, render_ops_spec, row_text_spec, rows_emit,
    rows_emit_acc, spec_white, tm_wf, wviews, RenderOp, RenderOpModel, Terminal, TerminalModel,
};
pub use window::{
    all_pens_outside, decorate_spec, default_border_symbols, lemma_decorate_idempotent,
    lemma_write_inside_exact, lemma_write_outside_unchanged, lemma_write_rec_len, pen_step,
    title_x, with_grid, wm_wf, write_at, write_rec, writes_across, writes_down, Window,
    WindowModel,
};

verus! {

/// Terminal-cell dimensions of a grid, in columns (`x`) and rows (`y`).
///
/// Both components must be non-negative for a grid to be well formed; a zero
/// dimension yields an empty, legal grid.
#[derive(Clone, Copy, PartialEq, Eq, Structural, Debug)]
pub struct Size {
    pub x: i32,
    pub y: i32,
}

impl Size {
    pub fn new(x: i32, y: i32) -> (s: Self)
        ensures
            s.x == x,
            s.y == y,
    {
        Size { x, y }
    }
}

/// A placement on the terminal, measured in cells from the top-left corner.
///
/// Signed, so a window may hang off the top or left edge; the compositor
/// clips rather than wraps.
#[derive(Clone, Copy, PartialEq, Eq, Structural, Debug)]
pub struct Position {
    pub x: i32,
    pub y: i32,
}

impl Position {
    pub fn new(x: i32, y: i32) -> (p: Self)
        ensures
            p.x == x,
            p.y == y,
    {
        Position { x, y }
    }
}

/// A 24-bit foreground color.
#[derive(Clone, Copy, PartialEq, Eq, Structural, Debug)]
pub struct Color {
    pub r: u8,
    pub g: u8,
    pub b: u8,
}

impl Color {
    pub fn rgb(r: u8, g: u8, b: u8) -> (c: Self)
        ensures
            c == (Color { r, g, b }),
    {
        Color { r, g, b }
    }

    pub fn white() -> (c: Self)
        ensures
            c == (Color { r: 255u8, g: 255u8, b: 255u8 }),
    {
        Color { r: 255, g: 255, b: 255 }
    }

    pub fn red() -> (c: Self)
        ensures
            c == (Color { r: 255u8, g: 0u8, b: 0u8 }),
    {
        Color { r: 255, g: 0, b: 0 }
    }

    pub fn green() -> (c: Self)
        ensures
            c == (Color { r: 0u8, g: 255u8, b: 0u8 }),
    {
        Color { r: 0, g: 255, b: 0 }
    }

    pub fn blue() -> (c: Self)
        ensures
            c == (Color { r: 0u8, g: 0u8, b: 255u8 }),
    {
        Color { r: 0, g: 0, b: 255 }
    }

    pub fn black() -> (c: Self)
        ensures
            c == (Color { r: 0u8, g: 0u8, b: 0u8 }),
    {
        Color { r: 0, g: 0, b: 0 }
    }
}

/// One terminal cell: a glyph (kept as a string so multi-byte box-drawing
/// characters pass through unchanged) and a foreground color.
#[derive(Debug)]
pub struct Pixel {
    pub text: String,
    pub color: Color,
}

/// The mathematical value of a [`Pixel`]: its glyph as a character sequence
/// and its color.
#[verifier::ext_equal]
pub struct PixelModel {
    pub text: Seq<char>,
    pub color: Color,
}

impl View for Pixel {
    type V = PixelModel;

    open spec fn view(&self) -> PixelModel {
        PixelModel { text: self.text@, color: self.color }
    }
}

impl Pixel {
    pub fn new(text: String, color: Color) -> (p: Self)
        ensures
            p@.text == text@,
            p@.color == color,
    {
        Pixel { text, color }
    }
}

impl Clone for Pixel {
    fn clone(&self) -> (p: Self)
        ensures
            p@ == self@,
    {
        Pixel { text: self.text.clone(), color: self.color }
    }
}

} // verus!
