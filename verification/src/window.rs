//! A window: a positioned, sized cell grid with decoration metadata and a
//! stable identity. Offers the text-drawing primitive (a pen walk over the
//! grid with newline, tab and back-line handling), self-decoration (borders,
//! corners and a centred title) and grid-to-grid copying.
use vstd::prelude::*;

use crate::grid::{
    apply_patch, blit_spec, default_grid, grid_blit, grid_index, grid_put, grid_put_spec, grid_wf,
    gview, in_grid, lemma_apply_patch_compose, lemma_apply_patch_twice, lemma_coords_index,
    make_default_grid, wf_size,
};
use crate::{Color, Pixel, PixelModel, Position, Size};
use vstd::string::StrSliceExecFns;

verus! {

/// The mathematical value of a [`Window`]: its grid contents together with
/// its placement and decoration metadata.
#[verifier::ext_equal]
pub struct WindowModel {
    pub id: u128,
    pub grid: Seq<PixelModel>,
    pub size: Size,
    pub pos: Position,
    pub border_color: Color,
    pub border_symbols: Seq<Seq<char>>,
    pub title: Seq<char>,
    pub title_color: Color,
}

/// A well-formed window has a legal size and a grid of exactly
/// `size.x * size.y` cells, and carries all eight border glyphs.
pub open spec fn wm_wf(m: WindowModel) -> bool {
    &&& wf_size(m.size)
    &&& m.grid.len() == m.size.x * m.size.y
    &&& m.border_symbols.len() == 8
}

/// The same window with its grid contents replaced.
pub open spec fn with_grid(m: WindowModel, g: Seq<PixelModel>) -> WindowModel {
    WindowModel { grid: g, ..m }
}

/// A positioned, decorated cell grid with a stable identity.
pub struct Window {
    pub id: u128,
    pub pixel_buffer: Vec<Pixel>,
    pub size: Size,
    pub pos: Position,
    pub border_color: Color,
    pub border_symbols: [String; 8],
    pub title: String,
    pub title_color: Color,
}

impl View for Window {
    type V = WindowModel;

    open spec fn view(&self) -> WindowModel {
        WindowModel {
            id: self.id,
            grid: gview(self.pixel_buffer@),
            size: self.size,
            pos: self.pos,
            border_color: self.border_color,
            border_symbols: Seq::new(8, |i: int| self.border_symbols@[i]@),
            title: self.title@,
            title_color: self.title_color,
        }
    }
}

impl Clone for Window {
    /// A clone is an independent snapshot with the same value, grid included.
    fn clone(&self) -> (w: Self)
        ensures
            w@ == self@,
    {
        let w = Window {
            id: self.id,
            pixel_buffer: self.pixel_buffer.clone(),
            size: self.size,
            pos: self.pos,
            border_color: self.border_color,
            border_symbols: self.border_symbols.clone(),
            title: self.title.clone(),
            title_color: self.title_color,
        };
        proof {
            assert(gview(w.pixel_buffer@) =~= gview(self.pixel_buffer@));
            assert(Seq::new(8, |i: int| w.border_symbols@[i]@) =~= Seq::new(
                8,
                |i: int| self.border_symbols@[i]@,
            ));
            assert(w@ =~= self@);
        }
        w
    }
}

/// Relies on rand's `thread_rng().gen_range` over the half-open range
/// `0..u128::MAX`: the sample lies inside the range. Nothing more is assumed
/// of a random draw.
#[verifier::external_body]
fn random_id() -> (id: u128)
    ensures
        id < u128::MAX,
{
    rand::Rng::gen_range(&mut rand::thread_rng(), 0..u128::MAX)
}

/// Relies on std's `ToString` for `char`: the string holds exactly that one
/// character.
#[verifier::external_body]
fn char_to_string(c: char) -> (s: String)
    ensures
        s@ == seq![c],
{
    c.to_string()
}

/// The conventional box-drawing border set, in the fixed order left, right,
/// top, bottom, top-left, top-right, bottom-right, bottom-left.
pub open spec fn default_border_symbols() -> Seq<Seq<char>> {
    seq![
        seq!['│'],
        seq!['│'],
        seq!['─'],
        seq!['─'],
        seq!['┌'],
        seq!['┐'],
        seq!['┘'],
        seq!['└'],
    ]
}

/// One step of the writing pen: every character advances the column by one;
/// a newline then returns the pen to the starting column and moves one row
/// down, a tab advances four further columns, and a back-line moves one row
/// up unless the pen is on its starting row. The pen never reads the grid.
pub open spec fn pen_step(rx: int, ry: int, c: char) -> (int, int) {
    if c == '\n' {
        (0, ry + 1)
    } else if c == '\t' {
        (rx + 5, ry)
    } else if c == '\r' {
        (rx + 1, if ry >= 1 { ry - 1 } else { ry })
    } else {
        (rx + 1, ry)
    }
}

/// The grid after writing `text` with the pen at offset `(rx, ry)` from the
/// starting position `(sx, sy)`: each character lands at the pen position
/// when that is inside the grid and is clipped otherwise, and the pen
/// advances either way.
pub open spec fn write_rec(
    g: Seq<PixelModel>,
    w: int,
    h: int,
    sx: int,
    sy: int,
    rx: int,
    ry: int,
    text: Seq<char>,
    color: Color,
) -> Seq<PixelModel>
    decreases text.len(),
{
    if text.len() == 0 {
        g
    } else {
        let c = text[0];
        let g1 = grid_put_spec(
            g,
            w,
            h,
            sx + rx,
            sy + ry,
            PixelModel { text: seq![c], color },
        );
        let p = pen_step(rx, ry, c);
        write_rec(g1, w, h, sx, sy, p.0, p.1, text.drop_first(), color)
    }
}

/// The grid after writing `text` starting at `(sx, sy)`.
pub open spec fn write_at(
    g: Seq<PixelModel>,
    w: int,
    h: int,
    sx: int,
    sy: int,
    text: Seq<char>,
    color: Color,
) -> Seq<PixelModel> {
    write_rec(g, w, h, sx, sy, 0, 0, text, color)
}

/// The cells a write replaces, with the value each one ends up holding.
/// Later characters shadow earlier ones on the same cell.
spec fn write_patch(
    w: int,
    h: int,
    sx: int,
    sy: int,
    rx: int,
    ry: int,
    text: Seq<char>,
    color: Color,
) -> Map<int, PixelModel>
    decreases text.len(),
{
    if text.len() == 0 {
        Map::empty()
    } else {
        let c = text[0];
        let first: Map<int, PixelModel> = if in_grid(w, h, sx + rx, sy + ry) {
            Map::empty().insert(
                grid_index(w, sx + rx, sy + ry),
                PixelModel { text: seq![c], color },
            )
        } else {
            Map::empty()
        };
        let p = pen_step(rx, ry, c);
        first.union_prefer_right(write_patch(w, h, sx, sy, p.0, p.1, text.drop_first(), color))
    }
}

/// A write only replaces cells; which cells, and with what, depends on the
/// arguments alone, never on the grid contents.
proof fn lemma_write_rec_patch(
    g: Seq<PixelModel>,
    w: int,
    h: int,
    sx: int,
    sy: int,
    rx: int,
    ry: int,
    text: Seq<char>,
    color: Color,
)
    requires
        grid_wf(g, w, h),
    ensures
        write_rec(g, w, h, sx, sy, rx, ry, text, color) == apply_patch(
            g,
            write_patch(w, h, sx, sy, rx, ry, text, color),
        ),
    decreases text.len(),
{
    if text.len() == 0 {
        assert(apply_patch(g, Map::empty()) =~= g);
    } else {
        let c = text[0];
        let pix = PixelModel { text: seq![c], color };
        let g1 = grid_put_spec(g, w, h, sx + rx, sy + ry, pix);
        let first: Map<int, PixelModel> = if in_grid(w, h, sx + rx, sy + ry) {
            Map::empty().insert(grid_index(w, sx + rx, sy + ry), pix)
        } else {
            Map::empty()
        };
        if in_grid(w, h, sx + rx, sy + ry) {
            lemma_coords_index(w, h, sx + rx, sy + ry);
        }
        assert(g1 =~= apply_patch(g, first));
        let p = pen_step(rx, ry, c);
        lemma_write_rec_patch(g1, w, h, sx, sy, p.0, p.1, text.drop_first(), color);
        lemma_apply_patch_compose(
            g,
            first,
            write_patch(w, h, sx, sy, p.0, p.1, text.drop_first(), color),
        );
    }
}

/// The column and row of a write do not change its length.
pub proof fn lemma_write_rec_len(
    g: Seq<PixelModel>,
    w: int,
    h: int,
    sx: int,
    sy: int,
    rx: int,
    ry: int,
    text: Seq<char>,
    color: Color,
)
    requires
        grid_wf(g, w, h),
    ensures
        write_rec(g, w, h, sx, sy, rx, ry, text, color).len() == g.len(),
    decreases text.len(),
{
    if text.len() != 0 {
        let c = text[0];
        if in_grid(w, h, sx + rx, sy + ry) {
            lemma_coords_index(w, h, sx + rx, sy + ry);
        }
        let g1 = grid_put_spec(g, w, h, sx + rx, sy + ry, PixelModel { text: seq![c], color });
        assert(g1.len() == g.len());
        let p = pen_step(rx, ry, c);
        lemma_write_rec_len(g1, w, h, sx, sy, p.0, p.1, text.drop_first(), color);
    }
}

/// Whether every pen position of the walk over `text` lies outside the grid.
pub open spec fn all_pens_outside(
    w: int,
    h: int,
    sx: int,
    sy: int,
    rx: int,
    ry: int,
    text: Seq<char>,
) -> bool
    decreases text.len(),
{
    text.len() == 0 || {
        let p = pen_step(rx, ry, text[0]);
        !in_grid(w, h, sx + rx, sy + ry) && all_pens_outside(
            w,
            h,
            sx,
            sy,
            p.0,
            p.1,
            text.drop_first(),
        )
    }
}

/// A write whose pen positions all lie outside the grid mutates no cells.
/// The pen still advances: the pen walk is a function of the text alone
/// (see [`pen_step`]), independent of the grid and of the clipping.
pub proof fn lemma_write_outside_unchanged(
    g: Seq<PixelModel>,
    w: int,
    h: int,
    sx: int,
    sy: int,
    rx: int,
    ry: int,
    text: Seq<char>,
    color: Color,
)
    requires
        all_pens_outside(w, h, sx, sy, rx, ry, text),
    ensures
        write_rec(g, w, h, sx, sy, rx, ry, text, color) == g,
    decreases text.len(),
{
    if text.len() != 0 {
        let p = pen_step(rx, ry, text[0]);
        lemma_write_outside_unchanged(g, w, h, sx, sy, p.0, p.1, text.drop_first(), color);
    }
}

/// Writing a control-free text whose pen run stays inside one row of the
/// grid replaces exactly the run's cells, each with its own character, and
/// leaves every other cell unchanged.
pub proof fn lemma_write_inside_exact(
    g: Seq<PixelModel>,
    w: int,
    h: int,
    sx: int,
    sy: int,
    rx: int,
    ry: int,
    text: Seq<char>,
    color: Color,
)
    requires
        grid_wf(g, w, h),
        forall|k: int|
            0 <= k < text.len() ==> text[k] != '\n' && text[k] != '\t' && text[k] != '\r',
        0 <= sx + rx,
        sx + rx + text.len() <= w,
        0 <= sy + ry < h,
    ensures
        write_rec(g, w, h, sx, sy, rx, ry, text, color).len() == g.len(),
        forall|k: int|
            0 <= k < text.len() ==> write_rec(g, w, h, sx, sy, rx, ry, text, color)[grid_index(
                w,
                sx + rx + k,
                sy + ry,
            )] == (PixelModel { text: seq![text[k]], color }),
        forall|x: int, y: int|
            in_grid(w, h, x, y) && !(y == sy + ry && sx + rx <= x < sx + rx + text.len())
                ==> write_rec(g, w, h, sx, sy, rx, ry, text, color)[grid_index(w, x, y)] == g[
                grid_index(w, x, y)],
    decreases text.len(),
{
    lemma_write_rec_len(g, w, h, sx, sy, rx, ry, text, color);
    if text.len() != 0 {
        let c = text[0];
        let pix = PixelModel { text: seq![c], color };
        let g1 = grid_put_spec(g, w, h, sx + rx, sy + ry, pix);
        let p = pen_step(rx, ry, c);
        assert(p.0 == rx + 1 && p.1 == ry);
        lemma_coords_index(w, h, sx + rx, sy + ry);
        lemma_write_inside_exact(g1, w, h, sx, sy, rx + 1, ry, text.drop_first(), color);
        let r = write_rec(g, w, h, sx, sy, rx, ry, text, color);
        assert forall|k: int| 0 <= k < text.len() implies r[grid_index(w, sx + rx + k, sy + ry)]
            == (PixelModel { text: seq![text[k]], color }) by {
            if k == 0 {
                // The first cell is written now and no later character
                // shadows it.
                lemma_coords_index(w, h, sx + rx, sy + ry);
                assert(g1[grid_index(w, sx + rx, sy + ry)] == pix);
            } else {
                assert(text.drop_first()[k - 1] == text[k]);
            }
        }
        assert forall|x: int, y: int|
            in_grid(w, h, x, y) && !(y == sy + ry && sx + rx <= x < sx + rx + text.len()) implies r[
            grid_index(w, x, y)] == g[grid_index(w, x, y)] by {
            lemma_coords_index(w, h, x, y);
            lemma_coords_index(w, h, sx + rx, sy + ry);
            // Distinct coordinates give distinct indices.
            assert(grid_index(w, x, y) != grid_index(w, sx + rx, sy + ry));
            assert(g1[grid_index(w, x, y)] == g[grid_index(w, x, y)]);
        }
    }
}

/// The grid after the window's left or right border column has been written
/// downward from row `y`.
pub open spec fn writes_down(
    g: Seq<PixelModel>,
    w: int,
    h: int,
    x: int,
    y: int,
    sym: Seq<char>,
    color: Color,
) -> Seq<PixelModel>
    decreases h - y,
{
    if y >= h {
        g
    } else {
        writes_down(write_at(g, w, h, x, y, sym, color), w, h, x, y + 1, sym, color)
    }
}

/// The grid after the window's top or bottom border row has been written
/// rightward from column `x`.
pub open spec fn writes_across(
    g: Seq<PixelModel>,
    w: int,
    h: int,
    y: int,
    x: int,
    sym: Seq<char>,
    color: Color,
) -> Seq<PixelModel>
    decreases w - x,
{
    if x >= w {
        g
    } else {
        writes_across(write_at(g, w, h, x, y, sym, color), w, h, y, x + 1, sym, color)
    }
}

/// The starting column of the centred title: underflow is clipped to zero
/// rather than wrapped.
pub open spec fn title_x(w: int, tlen: int) -> int {
    if tlen >= w {
        0
    } else {
        (w - tlen) / 2
    }
}

/// The grid after full decoration, in the fixed order: left column, right
/// column, top row, bottom row, the four corners, then the title centred on
/// the top row. Corners overwrite edge cells and the title overwrites
/// whatever it covers.
pub open spec fn decorate_spec(g: Seq<PixelModel>, m: WindowModel) -> Seq<PixelModel> {
    let w = m.size.x as int;
    let h = m.size.y as int;
    let g1 = writes_down(g, w, h, 0, 0, m.border_symbols[0], m.border_color);
    let g2 = writes_down(g1, w, h, w - 1, 0, m.border_symbols[1], m.border_color);
    let g3 = writes_across(g2, w, h, 0, 0, m.border_symbols[2], m.border_color);
    let g4 = writes_across(g3, w, h, h - 1, 0, m.border_symbols[3], m.border_color);
    let g5 = write_at(g4, w, h, 0, 0, m.border_symbols[4], m.border_color);
    let g6 = write_at(g5, w, h, w - 1, 0, m.border_symbols[5], m.border_color);
    let g7 = write_at(g6, w, h, w - 1, h - 1, m.border_symbols[6], m.border_color);
    let g8 = write_at(g7, w, h, 0, h - 1, m.border_symbols[7], m.border_color);
    write_at(g8, w, h, title_x(w, m.title.len() as int), 0, m.title, m.title_color)
}

impl Window {
    /// A well-formed window: legal size, grid of exactly `size.x * size.y`
    /// cells. Constructors establish this and every method preserves it.
    pub open spec fn wf(&self) -> bool {
        wm_wf(self@)
    }

    /// A fresh window: a default-cell grid of the given size at the given
    /// position, a random identity, white borders and title, the
    /// conventional box-drawing border set and the title literal "title".
    pub fn new(pos: Position, size: Size) -> (w: Window)
        requires
            wf_size(size),
        ensures
            w.wf(),
            w@.grid == default_grid(size.x as int, size.y as int),
            w@.size == size,
            w@.pos == pos,
            w@.border_color == (Color { r: 255u8, g: 255u8, b: 255u8 }),
            w@.border_symbols == default_border_symbols(),
            w@.title == "title"@,
            w@.title_color == (Color { r: 255u8, g: 255u8, b: 255u8 }),
    {
        let w = Window {
            id: random_id(),
            pixel_buffer: make_default_grid(size),
            size,
            pos,
            border_color: Color::rgb(255, 255, 255),
            border_symbols: [
                "│".to_owned(),
                "│".to_owned(),
                "─".to_owned(),
                "─".to_owned(),
                "┌".to_owned(),
                "┐".to_owned(),
                "┘".to_owned(),
                "└".to_owned(),
            ],
            title: "title".to_owned(),
            title_color: Color::rgb(255, 255, 255),
        };
        proof {
            reveal_strlit("│");
            reveal_strlit("─");
            reveal_strlit("┌");
            reveal_strlit("┐");
            reveal_strlit("┘");
            reveal_strlit("└");
            assert(w@.border_symbols[0] =~= seq!['│']);
            assert(w@.border_symbols[1] =~= seq!['│']);
            assert(w@.border_symbols[2] =~= seq!['─']);
            assert(w@.border_symbols[3] =~= seq!['─']);
            assert(w@.border_symbols[4] =~= seq!['┌']);
            assert(w@.border_symbols[5] =~= seq!['┐']);
            assert(w@.border_symbols[6] =~= seq!['┘']);
            assert(w@.border_symbols[7] =~= seq!['└']);
            assert(w@.border_symbols =~= default_border_symbols());
        }
        w
    }

    /// Draw `text` from grid-local `pos` with the given color: a pen walk
    /// where in-grid characters land on cells, out-of-grid characters are
    /// clipped, and newline, tab and back-line steer the pen either way.
    /// Writing never fails.
    pub fn write(&mut self, pos: Position, text: String, color: Color)
        requires
            old(self).wf(),
        ensures
            final(self).wf(),
            final(self)@ == with_grid(
                old(self)@,
                write_at(
                    old(self)@.grid,
                    old(self)@.size.x as int,
                    old(self)@.size.y as int,
                    pos.x as int,
                    pos.y as int,
                    text@,
                    color,
                ),
            ),
    {
        let ghost g0 = self@.grid;
        let ghost w = self.size.x as int;
        let ghost h = self.size.y as int;
        let ghost sx = pos.x as int;
        let ghost sy = pos.y as int;
        let n = text.as_str().unicode_len();
        let mut rx: i128 = 0;
        let mut ry: i128 = 0;
        let mut i: usize = 0;
        proof {
            assert(text@.skip(0) =~= text@);
        }
        while i < n
            invariant
                self.wf(),
                self.size == old(self).size,
                self.id == old(self).id,
                self.pos == old(self).pos,
                self.border_color == old(self).border_color,
                self.border_symbols@ == old(self).border_symbols@,
                self.title@ == old(self).title@,
                self.title_color == old(self).title_color,
                g0 == old(self)@.grid,
                w == self.size.x as int,
                h == self.size.y as int,
                sx == pos.x as int,
                sy == pos.y as int,
                n == text@.len(),
                0 <= i <= n,
                0 <= rx <= 5 * i,
                0 <= ry <= i,
                write_rec(g0, w, h, sx, sy, 0, 0, text@, color) == write_rec(
                    self@.grid,
                    w,
                    h,
                    sx,
                    sy,
                    rx as int,
                    ry as int,
                    text@.skip(i as int),
                    color,
                ),
            decreases n - i,
        {
            let c = text.as_str().get_char(i);
            let ghost gpre = self@.grid;
            let glyph = char_to_string(c);
            let px = pos.x as i128 + rx;
            let py = pos.y as i128 + ry;
            grid_put(&mut self.pixel_buffer, self.size, px, py, Pixel::new(glyph, color));
            rx = rx + 1;
            if c == '\n' {
                ry = ry + 1;
                rx = 0;
            } else if c == '\t' {
                rx = rx + 4;
            } else if c == '\r' {
                if ry >= 1 {
                    ry = ry - 1;
                }
            }
            proof {
                let rest = text@.skip(i as int);
                assert(rest[0] == text@[i as int]);
                assert(rest.drop_first() =~= text@.skip(i as int + 1));
            }
            i += 1;
        }
        proof {
            assert(text@.skip(n as int) =~= Seq::<char>::empty());
            assert(self@ =~= with_grid(old(self)@, write_at(g0, w, h, sx, sy, text@, color)));
        }
    }

    pub fn set_border_color(&mut self, color: Color)
        ensures
            final(self)@ == (WindowModel { border_color: color, ..old(self)@ }),
    {
        self.border_color = color;
    }

    pub fn set_border_symbols(&mut self, symbols: [String; 8])
        ensures
            final(self)@ == (WindowModel {
                border_symbols: Seq::new(8, |i: int| symbols@[i]@),
                ..old(self)@
            }),
    {
        self.border_symbols = symbols;
    }

    pub fn set_title(&mut self, title: String)
        ensures
            final(self)@ == (WindowModel { title: title@, ..old(self)@ }),
    {
        self.title = title;
    }

    pub fn set_title_color(&mut self, color: Color)
        ensures
            final(self)@ == (WindowModel { title_color: color, ..old(self)@ }),
    {
        self.title_color = color;
    }

    /// Change the size; the grid is reallocated and reset to default cells.
    pub fn resize(&mut self, size: Size)
        requires
            wf_size(size),
        ensures
            final(self).wf(),
            final(self)@ == (WindowModel {
                size,
                grid: default_grid(size.x as int, size.y as int),
                ..old(self)@
            }),
    {
        self.size = size;
        self.pixel_buffer = make_default_grid(size);
    }

    /// Refill the grid with default cells.
    pub fn clear(&mut self)
        requires
            old(self).wf(),
        ensures
            final(self).wf(),
            final(self)@ == with_grid(
                old(self)@,
                default_grid(old(self)@.size.x as int, old(self)@.size.y as int),
            ),
    {
        crate::grid::grid_fill_default(&mut self.pixel_buffer, self.size);
    }

    pub fn set_position(&mut self, pos: Position)
        ensures
            final(self)@ == (WindowModel { pos, ..old(self)@ }),
    {
        self.pos = pos;
    }

    /// Paint the borders, corners and centred title, in that fixed order,
    /// through the general writing primitive.
    pub fn decorate(&mut self)
        requires
            old(self).wf(),
        ensures
            final(self).wf(),
            final(self)@ == with_grid(old(self)@, decorate_spec(old(self)@.grid, old(self)@)),
    {
        let ghost m0 = self@;
        let ghost w = self.size.x as int;
        let ghost h = self.size.y as int;
        let ghost g0 = self@.grid;
        let width = self.size.x;
        let height = self.size.y;
        let bc = self.border_color;

        let mut y: i32 = 0;
        while y < height
            invariant
                self.wf(),
                meta_eq(self@, m0),
                width == m0.size.x,
                height == m0.size.y,
                bc == m0.border_color,
                w == m0.size.x as int,
                h == m0.size.y as int,
                0 <= y <= height,
                writes_down(self@.grid, w, h, 0, y as int, m0.border_symbols[0], m0.border_color)
                    == writes_down(g0, w, h, 0, 0, m0.border_symbols[0], m0.border_color),
            decreases height - y,
        {
            let sym = self.border_symbols[0].clone();
            self.write(Position::new(0, y), sym, bc);
            y += 1;
        }
        let ghost g1 = writes_down(g0, w, h, 0, 0, m0.border_symbols[0], m0.border_color);

        let mut y: i32 = 0;
        while y < height
            invariant
                self.wf(),
                meta_eq(self@, m0),
                width == m0.size.x,
                height == m0.size.y,
                bc == m0.border_color,
                w == m0.size.x as int,
                h == m0.size.y as int,
                0 <= y <= height,
                writes_down(
                    self@.grid,
                    w,
                    h,
                    w - 1,
                    y as int,
                    m0.border_symbols[1],
                    m0.border_color,
                ) == writes_down(g1, w, h, w - 1, 0, m0.border_symbols[1], m0.border_color),
            decreases height - y,
        {
            let sym = self.border_symbols[1].clone();
            self.write(Position::new(width - 1, y), sym, bc);
            y += 1;
        }
        let ghost g2 = writes_down(g1, w, h, w - 1, 0, m0.border_symbols[1], m0.border_color);

        let mut x: i32 = 0;
        while x < width
            invariant
                self.wf(),
                meta_eq(self@, m0),
                width == m0.size.x,
                height == m0.size.y,
                bc == m0.border_color,
                w == m0.size.x as int,
                h == m0.size.y as int,
                0 <= x <= width,
                writes_across(self@.grid, w, h, 0, x as int, m0.border_symbols[2], m0.border_color)
                    == writes_across(g2, w, h, 0, 0, m0.border_symbols[2], m0.border_color),
            decreases width - x,
        {
            let sym = self.border_symbols[2].clone();
            self.write(Position::new(x, 0), sym, bc);
            x += 1;
        }
        let ghost g3 = writes_across(g2, w, h, 0, 0, m0.border_symbols[2], m0.border_color);

        let mut x: i32 = 0;
        while x < width
            invariant
                self.wf(),
                meta_eq(self@, m0),
                width == m0.size.x,
                height == m0.size.y,
                bc == m0.border_color,
                w == m0.size.x as int,
                h == m0.size.y as int,
                0 <= x <= width,
                writes_across(
                    self@.grid,
                    w,
                    h,
                    h - 1,
                    x as int,
                    m0.border_symbols[3],
                    m0.border_color,
                ) == writes_across(g3, w, h, h - 1, 0, m0.border_symbols[3], m0.border_color),
            decreases width - x,
        {
            let sym = self.border_symbols[3].clone();
            self.write(Position::new(x, height - 1), sym, bc);
            x += 1;
        }

        let sym = self.border_symbols[4].clone();
        self.write(Position::new(0, 0), sym, bc);
        let sym = self.border_symbols[5].clone();
        self.write(Position::new(width - 1, 0), sym, bc);
        let sym = self.border_symbols[6].clone();
        self.write(Position::new(width - 1, height - 1), sym, bc);
        let sym = self.border_symbols[7].clone();
        self.write(Position::new(0, height - 1), sym, bc);

        let tl = self.title.as_str().unicode_len();
        let tx: i32 = if tl >= width as usize {
            0
        } else {
            ((width as u32 - tl as u32) / 2) as i32
        };
        let title = self.title.clone();
        let tc = self.title_color;
        self.write(Position::new(tx, 0), title, tc);
        proof {
            assert(self@ =~= with_grid(m0, decorate_spec(g0, m0)));
        }
    }

    /// Copy another window's grid into this one, offset by that window's
    /// position, clipping at both the low and the high edges.
    pub fn write_window(&mut self, window: &Window)
        requires
            old(self).wf(),
            window.wf(),
        ensures
            final(self).wf(),
            final(self)@ == with_grid(
                old(self)@,
                blit_spec(
                    old(self)@.grid,
                    old(self)@.size.x as int,
                    old(self)@.size.y as int,
                    window@.grid,
                    window@.size.x as int,
                    window@.size.y as int,
                    window@.pos.x as int,
                    window@.pos.y as int,
                ),
            ),
    {
        grid_blit(&mut self.pixel_buffer, self.size, &window.pixel_buffer, window.size, window.pos);
    }
}

/// Whether two window values agree on everything but their grid contents.
spec fn meta_eq(a: WindowModel, b: WindowModel) -> bool {
    &&& a.id == b.id
    &&& a.size == b.size
    &&& a.pos == b.pos
    &&& a.border_color == b.border_color
    &&& a.border_symbols == b.border_symbols
    &&& a.title == b.title
    &&& a.title_color == b.title_color
}

/// The cells decoration replaces, with their final values: the union of the
/// patches of its writes, later writes preferred. Independent of the grid.
spec fn down_patch(
    w: int,
    h: int,
    x: int,
    y: int,
    sym: Seq<char>,
    color: Color,
) -> Map<int, PixelModel>
    decreases h - y,
{
    if y >= h {
        Map::empty()
    } else {
        write_patch(w, h, x, y, 0, 0, sym, color).union_prefer_right(
            down_patch(w, h, x, y + 1, sym, color),
        )
    }
}

spec fn across_patch(
    w: int,
    h: int,
    y: int,
    x: int,
    sym: Seq<char>,
    color: Color,
) -> Map<int, PixelModel>
    decreases w - x,
{
    if x >= w {
        Map::empty()
    } else {
        write_patch(w, h, x, y, 0, 0, sym, color).union_prefer_right(
            across_patch(w, h, y, x + 1, sym, color),
        )
    }
}

spec fn decorate_patch(m: WindowModel) -> Map<int, PixelModel> {
    let w = m.size.x as int;
    let h = m.size.y as int;
    down_patch(w, h, 0, 0, m.border_symbols[0], m.border_color).union_prefer_right(
        down_patch(w, h, w - 1, 0, m.border_symbols[1], m.border_color),
    ).union_prefer_right(across_patch(w, h, 0, 0, m.border_symbols[2], m.border_color))
        .union_prefer_right(across_patch(w, h, h - 1, 0, m.border_symbols[3], m.border_color))
        .union_prefer_right(write_patch(w, h, 0, 0, 0, 0, m.border_symbols[4], m.border_color))
        .union_prefer_right(write_patch(w, h, w - 1, 0, 0, 0, m.border_symbols[5], m.border_color))
        .union_prefer_right(
        write_patch(w, h, w - 1, h - 1, 0, 0, m.border_symbols[6], m.border_color),
    ).union_prefer_right(write_patch(w, h, 0, h - 1, 0, 0, m.border_symbols[7], m.border_color))
        .union_prefer_right(
        write_patch(w, h, title_x(w, m.title.len() as int), 0, 0, 0, m.title, m.title_color),
    )
}

proof fn lemma_writes_down_patch(
    g: Seq<PixelModel>,
    w: int,
    h: int,
    x: int,
    y: int,
    sym: Seq<char>,
    color: Color,
)
    requires
        grid_wf(g, w, h),
    ensures
        writes_down(g, w, h, x, y, sym, color) == apply_patch(g, down_patch(w, h, x, y, sym, color)),
    decreases h - y,
{
    if y >= h {
        assert(apply_patch(g, Map::empty()) =~= g);
    } else {
        let g1 = write_at(g, w, h, x, y, sym, color);
        lemma_write_rec_patch(g, w, h, x, y, 0, 0, sym, color);
        lemma_write_rec_len(g, w, h, x, y, 0, 0, sym, color);
        lemma_writes_down_patch(g1, w, h, x, y + 1, sym, color);
        lemma_apply_patch_compose(
            g,
            write_patch(w, h, x, y, 0, 0, sym, color),
            down_patch(w, h, x, y + 1, sym, color),
        );
    }
}

proof fn lemma_writes_across_patch(
    g: Seq<PixelModel>,
    w: int,
    h: int,
    y: int,
    x: int,
    sym: Seq<char>,
    color: Color,
)
    requires
        grid_wf(g, w, h),
    ensures
        writes_across(g, w, h, y, x, sym, color) == apply_patch(
            g,
            across_patch(w, h, y, x, sym, color),
        ),
    decreases w - x,
{
    if x >= w {
        assert(apply_patch(g, Map::empty()) =~= g);
    } else {
        let g1 = write_at(g, w, h, x, y, sym, color);
        lemma_write_rec_patch(g, w, h, x, y, 0, 0, sym, color);
        lemma_write_rec_len(g, w, h, x, y, 0, 0, sym, color);
        lemma_writes_across_patch(g1, w, h, y, x + 1, sym, color);
        lemma_apply_patch_compose(
            g,
            write_patch(w, h, x, y, 0, 0, sym, color),
            across_patch(w, h, y, x + 1, sym, color),
        );
    }
}

/// Decoration only replaces cells, and which cells it replaces, and with
/// what, depends on the window's metadata alone.
proof fn lemma_decorate_patch(g: Seq<PixelModel>, m: WindowModel)
    requires
        grid_wf(g, m.size.x as int, m.size.y as int),
    ensures
        decorate_spec(g, m) == apply_patch(g, decorate_patch(m)),
{
    let w = m.size.x as int;
    let h = m.size.y as int;
    let p1 = down_patch(w, h, 0, 0, m.border_symbols[0], m.border_color);
    let p2 = down_patch(w, h, w - 1, 0, m.border_symbols[1], m.border_color);
    let p3 = across_patch(w, h, 0, 0, m.border_symbols[2], m.border_color);
    let p4 = across_patch(w, h, h - 1, 0, m.border_symbols[3], m.border_color);
    let p5 = write_patch(w, h, 0, 0, 0, 0, m.border_symbols[4], m.border_color);
    let p6 = write_patch(w, h, w - 1, 0, 0, 0, m.border_symbols[5], m.border_color);
    let p7 = write_patch(w, h, w - 1, h - 1, 0, 0, m.border_symbols[6], m.border_color);
    let p8 = write_patch(w, h, 0, h - 1, 0, 0, m.border_symbols[7], m.border_color);
    let p9 = write_patch(w, h, title_x(w, m.title.len() as int), 0, 0, 0, m.title, m.title_color);
    let g1 = writes_down(g, w, h, 0, 0, m.border_symbols[0], m.border_color);
    let g2 = writes_down(g1, w, h, w - 1, 0, m.border_symbols[1], m.border_color);
    let g3 = writes_across(g2, w, h, 0, 0, m.border_symbols[2], m.border_color);
    let g4 = writes_across(g3, w, h, h - 1, 0, m.border_symbols[3], m.border_color);
    let g5 = write_at(g4, w, h, 0, 0, m.border_symbols[4], m.border_color);
    let g6 = write_at(g5, w, h, w - 1, 0, m.border_symbols[5], m.border_color);
    let g7 = write_at(g6, w, h, w - 1, h - 1, m.border_symbols[6], m.border_color);
    let g8 = write_at(g7, w, h, 0, h - 1, m.border_symbols[7], m.border_color);

    lemma_writes_down_patch(g, w, h, 0, 0, m.border_symbols[0], m.border_color);
    assert(g1.len() == g.len());
    lemma_writes_down_patch(g1, w, h, w - 1, 0, m.border_symbols[1], m.border_color);
    lemma_apply_patch_compose(g, p1, p2);
    assert(g2.len() == g.len());
    lemma_writes_across_patch(g2, w, h, 0, 0, m.border_symbols[2], m.border_color);
    lemma_apply_patch_compose(g, p1.union_prefer_right(p2), p3);
    assert(g3.len() == g.len());
    lemma_writes_across_patch(g3, w, h, h - 1, 0, m.border_symbols[3], m.border_color);
    lemma_apply_patch_compose(g, p1.union_prefer_right(p2).union_prefer_right(p3), p4);
    assert(g4.len() == g.len());
    lemma_write_rec_patch(g4, w, h, 0, 0, 0, 0, m.border_symbols[4], m.border_color);
    lemma_apply_patch_compose(
        g,
        p1.union_prefer_right(p2).union_prefer_right(p3).union_prefer_right(p4),
        p5,
    );
    lemma_write_rec_len(g4, w, h, 0, 0, 0, 0, m.border_symbols[4], m.border_color);
    lemma_write_rec_patch(g5, w, h, w - 1, 0, 0, 0, m.border_symbols[5], m.border_color);
    lemma_apply_patch_compose(
        g,
        p1.union_prefer_right(p2).union_prefer_right(p3).union_prefer_right(p4)
            .union_prefer_right(p5),
        p6,
    );
    lemma_write_rec_len(g5, w, h, w - 1, 0, 0, 0, m.border_symbols[5], m.border_color);
    lemma_write_rec_patch(g6, w, h, w - 1, h - 1, 0, 0, m.border_symbols[6], m.border_color);
    lemma_apply_patch_compose(
        g,
        p1.union_prefer_right(p2).union_prefer_right(p3).union_prefer_right(p4)
            .union_prefer_right(p5).union_prefer_right(p6),
        p7,
    );
    lemma_write_rec_len(g6, w, h, w - 1, h - 1, 0, 0, m.border_symbols[6], m.border_color);
    lemma_write_rec_patch(g7, w, h, 0, h - 1, 0, 0, m.border_symbols[7], m.border_color);
    lemma_apply_patch_compose(
        g,
        p1.union_prefer_right(p2).union_prefer_right(p3).union_prefer_right(p4)
            .union_prefer_right(p5).union_prefer_right(p6).union_prefer_right(p7),
        p8,
    );
    lemma_write_rec_len(g7, w, h, 0, h - 1, 0, 0, m.border_symbols[7], m.border_color);
    lemma_write_rec_patch(
        g8,
        w,
        h,
        title_x(w, m.title.len() as int),
        0,
        0,
        0,
        m.title,
        m.title_color,
    );
    lemma_apply_patch_compose(
        g,
        p1.union_prefer_right(p2).union_prefer_right(p3).union_prefer_right(p4)
            .union_prefer_right(p5).union_prefer_right(p6).union_prefer_right(p7)
            .union_prefer_right(p8),
        p9,
    );
}

/// Decorating twice is decorating once: decoration replaces a fixed set of
/// cells with values that depend only on the window's metadata, so the
/// second pass rewrites exactly what the first pass already wrote.
pub proof fn lemma_decorate_idempotent(g: Seq<PixelModel>, m: WindowModel)
    requires
        grid_wf(g, m.size.x as int, m.size.y as int),
    ensures
        decorate_spec(decorate_spec(g, m), m) == decorate_spec(g, m),
{
    lemma_decorate_patch(g, m);
    lemma_decorate_patch(decorate_spec(g, m), m);
    lemma_apply_patch_twice(g, decorate_patch(m));
}

} // verus!
