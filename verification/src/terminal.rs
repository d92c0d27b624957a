//! The terminal driver's verified core: it owns the screen-sized composite
//! grid and the back-to-front window stack, captures the last key of each
//! frame, and turns the composited grid into a minimal stream of cursor and
//! color commands. The caller performs the commands on the real terminal
//! and hands back the drained input events and the queried screen size.
use vstd::prelude::*;

use crate::grid::{
    blit_spec, default_grid, grid_fill_default, grid_blit, grid_index, grid_wf, gview,
    lemma_coords_index, make_default_grid, wf_size,
};
use crate::input::{last_key_spec, no_key_spec, InputEvent, KeyEvent};
use crate::window::{wm_wf, Window, WindowModel};
use crate::{Color, Pixel, PixelModel, Position, Size};
use vstd::seq_lib::group_seq_properties;

verus! {

/// The mathematical value of a [`Terminal`].
#[verifier::ext_equal]
pub struct TerminalModel {
    pub size: Size,
    pub buffer: Seq<PixelModel>,
    pub windows: Seq<WindowModel>,
    pub key_event: KeyEvent,
}

/// A well-formed driver has a legal screen size, a composite grid of exactly
/// `size.x * size.y` cells, and well-formed window snapshots.
pub open spec fn tm_wf(m: TerminalModel) -> bool {
    &&& wf_size(m.size)
    &&& m.buffer.len() == m.size.x * m.size.y
    &&& forall|i: int| 0 <= i < m.windows.len() ==> wm_wf(#[trigger] m.windows[i])
}

/// The views of a window stack, back to front.
pub open spec fn wviews(ws: Seq<Window>) -> Seq<WindowModel> {
    Seq::new(ws.len(), |i: int| ws[i]@)
}

/// The terminal driver: screen size, the composite cell grid, the window
/// stack in back-to-front order, and the key captured by the latest frame.
pub struct Terminal {
    pub size: Size,
    pub pixel_buffer: Vec<Pixel>,
    pub windows: Vec<Window>,
    pub key_event: KeyEvent,
}

impl View for Terminal {
    type V = TerminalModel;

    open spec fn view(&self) -> TerminalModel {
        TerminalModel {
            size: self.size,
            buffer: gview(self.pixel_buffer@),
            windows: wviews(self.windows@),
            key_event: self.key_event,
        }
    }
}

/// The composite after the window stack has been drawn back to front: each
/// window's grid is copied over the buffer at the window's position, clipped
/// at all four screen edges, later windows over earlier ones.
pub open spec fn composite_spec(
    buf: Seq<PixelModel>,
    w: int,
    h: int,
    ws: Seq<WindowModel>,
) -> Seq<PixelModel>
    decreases ws.len(),
{
    if ws.len() == 0 {
        buf
    } else {
        composite_spec(
            blit_spec(
                buf,
                w,
                h,
                ws[0].grid,
                ws[0].size.x as int,
                ws[0].size.y as int,
                ws[0].pos.x as int,
                ws[0].pos.y as int,
            ),
            w,
            h,
            ws.drop_first(),
        )
    }
}

/// One drawing command for the real terminal: move the cursor to a cell,
/// change the foreground color, or emit a glyph at the cursor.
#[derive(Debug, PartialEq, Eq)]
pub enum RenderOp {
    MoveTo(i32, i32),
    SetColor(Color),
    Text(String),
}

/// The mathematical value of a [`RenderOp`].
#[verifier::ext_equal]
pub enum RenderOpModel {
    MoveTo(int, int),
    SetColor(Color),
    Text(Seq<char>),
}

impl View for RenderOp {
    type V = RenderOpModel;

    open spec fn view(&self) -> RenderOpModel {
        match self {
            RenderOp::MoveTo(x, y) => RenderOpModel::MoveTo(*x as int, *y as int),
            RenderOp::SetColor(c) => RenderOpModel::SetColor(*c),
            RenderOp::Text(s) => RenderOpModel::Text(s@),
        }
    }
}

/// The views of a command stream.
pub open spec fn ops_view(v: Seq<RenderOp>) -> Seq<RenderOpModel> {
    Seq::new(v.len(), |i: int| v[i]@)
}

/// The color every frame starts from, and restores on teardown.
pub open spec fn spec_white() -> Color {
    Color { r: 255u8, g: 255u8, b: 255u8 }
}

/// The commands for the cells of row `y` from column `x` on, with `last` the
/// color most recently sent to the terminal: a color change is emitted only
/// for a cell whose color differs from `last` (run-length color batching).
/// Also yields the last color after the row.
pub open spec fn cells_emit(
    g: Seq<PixelModel>,
    w: int,
    y: int,
    x: int,
    last: Color,
) -> (Seq<RenderOpModel>, Color)
    decreases w - x,
{
    if x >= w {
        (Seq::<RenderOpModel>::empty(), last)
    } else {
        let p = g[grid_index(w, x, y)];
        let rest = cells_emit(g, w, y, x + 1, p.color);
        let prefix: Seq<RenderOpModel> = if p.color == last {
            seq![RenderOpModel::Text(p.text)]
        } else {
            seq![RenderOpModel::SetColor(p.color), RenderOpModel::Text(p.text)]
        };
        (prefix + rest.0, rest.1)
    }
}

/// The commands for the rows from `y` down: one cursor move to the start of
/// each row, then the row's cells, with the batched color threaded through
/// the whole frame.
pub open spec fn rows_emit(
    g: Seq<PixelModel>,
    w: int,
    h: int,
    y: int,
    last: Color,
) -> (Seq<RenderOpModel>, Color)
    decreases h - y,
{
    if y >= h {
        (Seq::<RenderOpModel>::empty(), last)
    } else {
        let row = cells_emit(g, w, y, 0, last);
        let rest = rows_emit(g, w, h, y + 1, row.1);
        (seq![RenderOpModel::MoveTo(0, y)] + row.0 + rest.0, rest.1)
    }
}

/// The full command stream of the batching renderer, starting from white.
pub open spec fn render_ops_spec(g: Seq<PixelModel>, w: int, h: int) -> Seq<RenderOpModel> {
    rows_emit(g, w, h, 0, spec_white()).0
}

/// As [`cells_emit`], but with a cursor move before every single cell: the
/// correctness-reference renderer.
pub open spec fn cells_emit_acc(
    g: Seq<PixelModel>,
    w: int,
    y: int,
    x: int,
    last: Color,
) -> (Seq<RenderOpModel>, Color)
    decreases w - x,
{
    if x >= w {
        (Seq::<RenderOpModel>::empty(), last)
    } else {
        let p = g[grid_index(w, x, y)];
        let rest = cells_emit_acc(g, w, y, x + 1, p.color);
        let prefix: Seq<RenderOpModel> = if p.color == last {
            seq![RenderOpModel::MoveTo(x, y), RenderOpModel::Text(p.text)]
        } else {
            seq![
                RenderOpModel::MoveTo(x, y),
                RenderOpModel::SetColor(p.color),
                RenderOpModel::Text(p.text),
            ]
        };
        (prefix + rest.0, rest.1)
    }
}

pub open spec fn rows_emit_acc(
    g: Seq<PixelModel>,
    w: int,
    h: int,
    y: int,
    last: Color,
) -> (Seq<RenderOpModel>, Color)
    decreases h - y,
{
    if y >= h {
        (Seq::<RenderOpModel>::empty(), last)
    } else {
        let row = cells_emit_acc(g, w, y, 0, last);
        let rest = rows_emit_acc(g, w, h, y + 1, row.1);
        (row.0 + rest.0, rest.1)
    }
}

/// The full command stream of the per-cell-cursor renderer.
pub open spec fn render_accurate_ops_spec(g: Seq<PixelModel>, w: int, h: int) -> Seq<
    RenderOpModel,
> {
    rows_emit_acc(g, w, h, 0, spec_white()).0
}

/// The glyphs of row `y` from column `x` on, concatenated.
pub open spec fn row_text_spec(g: Seq<PixelModel>, w: int, y: int, x: int) -> Seq<char>
    decreases w - x,
{
    if x >= w {
        Seq::<char>::empty()
    } else {
        g[grid_index(w, x, y)].text + row_text_spec(g, w, y, x + 1)
    }
}

/// The rows of the fast renderer: one cursor move and one whole line string
/// per row.
pub open spec fn fast_rows_spec(g: Seq<PixelModel>, w: int, h: int, y: int) -> Seq<RenderOpModel>
    decreases h - y,
{
    if y >= h {
        Seq::<RenderOpModel>::empty()
    } else {
        seq![RenderOpModel::MoveTo(0, y), RenderOpModel::Text(row_text_spec(g, w, y, 0))]
            + fast_rows_spec(g, w, h, y + 1)
    }
}

/// The full command stream of the fast renderer: a single color for the
/// whole frame, then one line per row.
pub open spec fn render_fast_ops_spec(g: Seq<PixelModel>, w: int, h: int, c: Color) -> Seq<
    RenderOpModel,
> {
    seq![RenderOpModel::SetColor(c)] + fast_rows_spec(g, w, h, 0)
}

/// The index of the first window with the given id, front of the stack
/// first, if any.
pub open spec fn find_window(ws: Seq<WindowModel>, id: u128) -> Option<int>
    decreases ws.len(),
{
    if ws.len() == 0 {
        Option::None
    } else if ws[0].id == id {
        Option::Some(0int)
    } else {
        match find_window(ws.drop_first(), id) {
            Option::Some(i) => Option::Some(i + 1),
            Option::None => Option::None,
        }
    }
}

/// What [`find_window`] finds is the first match.
pub proof fn lemma_find_window(ws: Seq<WindowModel>, id: u128)
    ensures
        find_window(ws, id) matches Option::Some(i) ==> 0 <= i < ws.len() && ws[i].id == id
            && forall|k: int| 0 <= k < i ==> (#[trigger] ws[k]).id != id,
        find_window(ws, id) is None ==> forall|k: int|
            0 <= k < ws.len() ==> (#[trigger] ws[k]).id != id,
    decreases ws.len(),
{
    if ws.len() > 0 && ws[0].id != id {
        lemma_find_window(ws.drop_first(), id);
        assert forall|k: int| 1 <= k < ws.len() implies ws.drop_first()[k - 1] == ws[k] by {}
    }
}

/// The first match determines [`find_window`].
pub proof fn lemma_find_window_first(ws: Seq<WindowModel>, id: u128, i: int)
    requires
        0 <= i < ws.len(),
        ws[i].id == id,
        forall|k: int| 0 <= k < i ==> (#[trigger] ws[k]).id != id,
    ensures
        find_window(ws, id) == Option::Some(i),
    decreases ws.len(),
{
    if ws[0].id != id {
        assert(ws.drop_first()[i - 1] == ws[i]);
        assert forall|k: int| 0 <= k < i - 1 implies (#[trigger] ws.drop_first()[k]).id != id by {
            assert(ws.drop_first()[k] == ws[k + 1]);
        }
        lemma_find_window_first(ws.drop_first(), id, i - 1);
    }
}

/// No match anywhere determines [`find_window`] too.
pub proof fn lemma_find_window_none(ws: Seq<WindowModel>, id: u128)
    requires
        forall|k: int| 0 <= k < ws.len() ==> (#[trigger] ws[k]).id != id,
    ensures
        find_window(ws, id) is None,
    decreases ws.len(),
{
    if ws.len() > 0 {
        assert forall|k: int| 0 <= k < ws.len() - 1 implies (#[trigger] ws.drop_first()[k]).id
            != id by {
            assert(ws.drop_first()[k] == ws[k + 1]);
        }
        lemma_find_window_none(ws.drop_first(), id);
    }
}

impl Terminal {
    /// A well-formed driver; [`Terminal::init`] establishes this and every
    /// method preserves it.
    pub open spec fn wf(&self) -> bool {
        tm_wf(self@)
    }

    /// The driver's initial state for a requested screen size: a composite
    /// grid of default cells, no windows, and the no-key sentinel. The
    /// caller puts the real terminal into raw mode on the alternate screen
    /// before the first frame.
    pub fn init(size: Size) -> (t: Terminal)
        requires
            wf_size(size),
        ensures
            t.wf(),
            t@.size == size,
            t@.buffer == default_grid(size.x as int, size.y as int),
            t@.windows == Seq::<WindowModel>::empty(),
            t@.key_event == no_key_spec(),
    {
        let t = Terminal {
            size,
            pixel_buffer: make_default_grid(size),
            windows: Vec::new(),
            key_event: KeyEvent::no_key(),
        };
        proof {
            assert(wviews(t.windows@) =~= Seq::<WindowModel>::empty());
        }
        t
    }

    /// Reset the composite grid to default cells at the current size.
    pub fn clear(&mut self)
        requires
            old(self).wf(),
        ensures
            final(self).wf(),
            final(self)@ == (TerminalModel {
                buffer: default_grid(old(self)@.size.x as int, old(self)@.size.y as int),
                ..old(self)@
            }),
    {
        grid_fill_default(&mut self.pixel_buffer, self.size);
    }

    /// The per-frame synchronisation point: capture the last key among the
    /// events the caller drained (or the sentinel when there was none),
    /// adopt the queried screen size, and rebuild the composite grid at
    /// that size, reset to default cells. The window stack is kept.
    pub fn update(&mut self, events: &Vec<InputEvent>, size: Size)
        requires
            old(self).wf(),
            wf_size(size),
        ensures
            final(self).wf(),
            final(self)@.size == size,
            final(self)@.buffer == default_grid(size.x as int, size.y as int),
            final(self)@.windows == old(self)@.windows,
            final(self)@.key_event == last_key_spec(events@),
    {
        let mut key = KeyEvent::no_key();
        let n = events.len();
        let mut i: usize = 0;
        proof {
            assert(events@.take(0) =~= Seq::<InputEvent>::empty());
        }
        while i < n
            invariant
                n == events@.len(),
                0 <= i <= n,
                key == last_key_spec(events@.take(i as int)),
            decreases n - i,
        {
            match events[i] {
                InputEvent::Key(k) => {
                    key = k;
                },
                InputEvent::Other => {},
            }
            proof {
                let pre = events@.take(i as int);
                let cur = events@.take(i as int + 1);
                assert(cur.last() == events@[i as int]);
                assert(cur.drop_last() =~= pre);
            }
            i += 1;
        }
        proof {
            assert(events@.take(n as int) =~= events@);
        }
        self.key_event = key;
        self.size = size;
        grid_fill_default(&mut self.pixel_buffer, size);
        proof {
            assert(self.windows@ == old(self).windows@);
            assert forall|k: int| 0 <= k < self@.windows.len() implies wm_wf(
                #[trigger] self@.windows[k],
            ) by {
                assert(wm_wf(old(self)@.windows[k]));
                assert(self@.windows[k] == old(self)@.windows[k]);
            }
        }
    }

    /// Append an independent snapshot of the window to the top of the
    /// stack. No deduplication: registering a window twice draws it twice.
    pub fn write_window(&mut self, window: &Window)
        requires
            old(self).wf(),
            window.wf(),
        ensures
            final(self).wf(),
            final(self)@ == (TerminalModel {
                windows: old(self)@.windows.push(window@),
                ..old(self)@
            }),
    {
        self.windows.push(window.clone());
        proof {
            assert(wviews(self.windows@) =~= wviews(old(self).windows@).push(window@));
            assert(self@ =~= (TerminalModel { windows: old(self)@.windows.push(window@), ..old(self)@ }));
        }
    }

    /// Empty the window stack.
    pub fn clear_windows(&mut self)
        requires
            old(self).wf(),
        ensures
            final(self).wf(),
            final(self)@ == (TerminalModel {
                windows: Seq::<WindowModel>::empty(),
                ..old(self)@
            }),
    {
        self.windows.clear();
        proof {
            assert(wviews(self.windows@) =~= Seq::<WindowModel>::empty());
            assert(self@ =~= (TerminalModel {
                windows: Seq::<WindowModel>::empty(),
                ..old(self)@
            }));
        }
    }

    /// Move the first window whose id matches to the top of the stack,
    /// keeping the relative order of the others; without a match this is a
    /// no-op.
    pub fn set_top_window(&mut self, window: &Window)
        requires
            old(self).wf(),
        ensures
            final(self).wf(),
            final(self)@.size == old(self)@.size,
            final(self)@.buffer == old(self)@.buffer,
            final(self)@.key_event == old(self)@.key_event,
            find_window(old(self)@.windows, window@.id) matches Option::Some(i) ==> final(self)@.windows == old(self)@.windows.remove(i).push(old(self)@.windows[i]),
            find_window(old(self)@.windows, window@.id) is None ==> final(self)@.windows == old(self)@.windows,
    {
        let ghost ws0 = wviews(self.windows@);
        proof {
            assert(ws0 == old(self)@.windows);
        }
        let n = self.windows.len();
        let mut i: usize = 0;
        while i < n
            invariant
                old(self).wf(),
                n == self.windows@.len(),
                0 <= i <= n,
                self.size == old(self).size,
                self.pixel_buffer@ == old(self).pixel_buffer@,
                self.key_event == old(self).key_event,
                self.windows@ == old(self).windows@,
                ws0 == old(self)@.windows,
                forall|k: int| 0 <= k < i ==> (#[trigger] ws0[k]).id != window@.id,
            decreases n - i,
        {
            if self.windows[i].id == window.id {
                proof {
                    assert(ws0 == wviews(self.windows@));
                    assert(ws0[i as int] == self.windows@[i as int]@);
                    lemma_find_window_first(ws0, window@.id, i as int);
                }
                let moved = self.windows.remove(i);
                self.windows.push(moved);
                proof {
                    assert(wviews(self.windows@) =~= ws0.remove(i as int).push(ws0[i as int]));
                    assert forall|k: int| 0 <= k < self@.windows.len() implies wm_wf(
                        #[trigger] self@.windows[k],
                    ) by {
                        let nw = ws0.remove(i as int).push(ws0[i as int]);
                        if k == nw.len() - 1 {
                            assert(nw[k] == old(self)@.windows[i as int]);
                        } else if k < i {
                            assert(nw[k] == old(self)@.windows[k]);
                        } else {
                            assert(nw[k] == old(self)@.windows[k + 1]);
                        }
                    }
                }
                return ;
            }
            i += 1;
        }
        proof {
            lemma_find_window_none(ws0, window@.id);
        }
    }

    /// Draw every registered window into the composite grid, back to front.
    fn composite(&mut self)
        requires
            old(self).wf(),
        ensures
            final(self).wf(),
            final(self)@ == (TerminalModel {
                buffer: composite_spec(
                    old(self)@.buffer,
                    old(self)@.size.x as int,
                    old(self)@.size.y as int,
                    old(self)@.windows,
                ),
                ..old(self)@
            }),
    {
        let ghost b0 = self@.buffer;
        let ghost ws = self@.windows;
        let ghost w = self.size.x as int;
        let ghost h = self.size.y as int;
        let n = self.windows.len();
        let mut i: usize = 0;
        proof {
            assert(ws.skip(0) =~= ws);
        }
        while i < n
            invariant
                self.wf(),
                n == self.windows@.len(),
                0 <= i <= n,
                self.size == old(self).size,
                self.key_event == old(self).key_event,
                ws == wviews(self.windows@),
                wviews(self.windows@) == wviews(old(self).windows@),
                w == self.size.x as int,
                h == self.size.y as int,
                composite_spec(self@.buffer, w, h, ws.skip(i as int)) == composite_spec(
                    b0,
                    w,
                    h,
                    ws,
                ),
            decreases n - i,
        {
            let win_size = self.windows[i].size;
            let win_pos = self.windows[i].pos;
            proof {
                assert(wm_wf(self@.windows[i as int]));
                assert(ws[i as int] == self@.windows[i as int]);
            }
            grid_blit(
                &mut self.pixel_buffer,
                self.size,
                &self.windows[i].pixel_buffer,
                win_size,
                win_pos,
            );
            proof {
                let rest = ws.skip(i as int);
                assert(rest[0] == ws[i as int]);
                assert(rest.drop_first() =~= ws.skip(i as int + 1));
            }
            i += 1;
        }
        proof {
            assert(ws.skip(n as int) =~= Seq::<WindowModel>::empty());
            assert(self@ =~= (TerminalModel {
                buffer: composite_spec(b0, w, h, ws),
                ..old(self)@
            }));
        }
    }

    /// Composite the window stack, then emit the frame's commands: one
    /// cursor move per row, each cell's glyph, and a color change only
    /// where a cell's color differs from the last color sent.
    pub fn render(&mut self) -> (ops: Vec<RenderOp>)
        requires
            old(self).wf(),
        ensures
            final(self).wf(),
            final(self)@ == (TerminalModel {
                buffer: composite_spec(
                    old(self)@.buffer,
                    old(self)@.size.x as int,
                    old(self)@.size.y as int,
                    old(self)@.windows,
                ),
                ..old(self)@
            }),
            ops_view(ops@) == render_ops_spec(
                final(self)@.buffer,
                old(self)@.size.x as int,
                old(self)@.size.y as int,
            ),
    {
        self.composite();
        let ghost g = self@.buffer;
        let ghost w = self.size.x as int;
        let ghost h = self.size.y as int;
        let width = self.size.x;
        let height = self.size.y;
        let mut ops: Vec<RenderOp> = Vec::new();
        let mut last = Color::white();
        let mut y: i32 = 0;
        while y < height
            invariant
                self.wf(),
                g == self@.buffer,
                w == self.size.x as int,
                h == self.size.y as int,
                width == self.size.x,
                height == self.size.y,
                0 <= y <= height,
                ops_view(ops@) + rows_emit(g, w, h, y as int, last).0 == render_ops_spec(g, w, h),
            decreases height - y,
        {
            ops.push(RenderOp::MoveTo(0, y));
            proof {
                assert(ops_view(ops@) =~= ops_view(ops@.drop_last()) + seq![
                    RenderOpModel::MoveTo(0, y as int),
                ]);
                let row = cells_emit(g, w, y as int, 0, last);
                let rest = rows_emit(g, w, h, y as int + 1, row.1);
                assert((ops_view(ops@.drop_last()) + (seq![
                    RenderOpModel::MoveTo(0, y as int),
                ] + row.0 + rest.0)) =~= (ops_view(ops@) + row.0) + rest.0);
            }
            let mut x: i32 = 0;
            while x < width
                invariant
                    self.wf(),
                    g == self@.buffer,
                    w == self.size.x as int,
                    h == self.size.y as int,
                    width == self.size.x,
                    height == self.size.y,
                    0 <= y < height,
                    0 <= x <= width,
                    (ops_view(ops@) + cells_emit(g, w, y as int, x as int, last).0 + rows_emit(
                        g,
                        w,
                        h,
                        y as int + 1,
                        cells_emit(g, w, y as int, x as int, last).1,
                    ).0) == render_ops_spec(g, w, h),
                decreases width - x,
            {
                proof {
                    lemma_coords_index(w, h, x as int, y as int);
                }
                let idx = (x as i64 + y as i64 * width as i64) as usize;
                let ghost pre_ops = ops_view(ops@);
                let ghost row = cells_emit(g, w, y as int, x as int, last);
                let p_color = self.pixel_buffer[idx].color;
                let p_text = self.pixel_buffer[idx].text.clone();
                let ghost prefix: Seq<RenderOpModel> = if p_color == last {
                    seq![RenderOpModel::Text(p_text@)]
                } else {
                    seq![RenderOpModel::SetColor(p_color), RenderOpModel::Text(p_text@)]
                };
                if p_color.r != last.r || p_color.g != last.g || p_color.b != last.b {
                    ops.push(RenderOp::SetColor(p_color));
                    last = p_color;
                    ops.push(RenderOp::Text(p_text));
                } else {
                    ops.push(RenderOp::Text(p_text));
                }
                proof {
                    assert(ops_view(ops@) =~= pre_ops + prefix);
                    let rest = cells_emit(g, w, y as int, x as int + 1, p_color);
                    assert(row.0 == prefix + rest.0 && row.1 == rest.1);
                    assert(((pre_ops + prefix) + rest.0) =~= pre_ops + (prefix + rest.0));
                    assert(ops_view(ops@) + cells_emit(g, w, y as int, x as int + 1, last).0
                        == pre_ops + row.0);
                }
                x += 1;
            }
            y += 1;
        }
        ops
    }

    /// Composite the window stack, then emit the commands of the
    /// correctness-reference renderer: a cursor move before every cell,
    /// with the same color batching. Not for hot paths.
    pub fn render_accurate(&mut self) -> (ops: Vec<RenderOp>)
        requires
            old(self).wf(),
        ensures
            final(self).wf(),
            final(self)@ == (TerminalModel {
                buffer: composite_spec(
                    old(self)@.buffer,
                    old(self)@.size.x as int,
                    old(self)@.size.y as int,
                    old(self)@.windows,
                ),
                ..old(self)@
            }),
            ops_view(ops@) == render_accurate_ops_spec(
                final(self)@.buffer,
                old(self)@.size.x as int,
                old(self)@.size.y as int,
            ),
    {
        self.composite();
        let ghost g = self@.buffer;
        let ghost w = self.size.x as int;
        let ghost h = self.size.y as int;
        let width = self.size.x;
        let height = self.size.y;
        let mut ops: Vec<RenderOp> = Vec::new();
        let mut last = Color::white();
        let mut y: i32 = 0;
        while y < height
            invariant
                self.wf(),
                g == self@.buffer,
                w == self.size.x as int,
                h == self.size.y as int,
                width == self.size.x,
                height == self.size.y,
                0 <= y <= height,
                ops_view(ops@) + rows_emit_acc(g, w, h, y as int, last).0
                    == render_accurate_ops_spec(g, w, h),
            decreases height - y,
        {
            proof {
                let row = cells_emit_acc(g, w, y as int, 0, last);
                let rest = rows_emit_acc(g, w, h, y as int + 1, row.1);
                assert((ops_view(ops@) + (row.0 + rest.0)) =~= (ops_view(ops@) + row.0) + rest.0);
            }
            let mut x: i32 = 0;
            while x < width
                invariant
                    self.wf(),
                    g == self@.buffer,
                    w == self.size.x as int,
                    h == self.size.y as int,
                    width == self.size.x,
                    height == self.size.y,
                    0 <= y < height,
                    0 <= x <= width,
                    (ops_view(ops@) + cells_emit_acc(g, w, y as int, x as int, last).0
                        + rows_emit_acc(
                        g,
                        w,
                        h,
                        y as int + 1,
                        cells_emit_acc(g, w, y as int, x as int, last).1,
                    ).0) == render_accurate_ops_spec(g, w, h),
                decreases width - x,
            {
                proof {
                    lemma_coords_index(w, h, x as int, y as int);
                }
                let idx = (x as i64 + y as i64 * width as i64) as usize;
                let ghost pre_ops = ops_view(ops@);
                let ghost row = cells_emit_acc(g, w, y as int, x as int, last);
                let p_color = self.pixel_buffer[idx].color;
                let p_text = self.pixel_buffer[idx].text.clone();
                let ghost prefix: Seq<RenderOpModel> = if p_color == last {
                    seq![RenderOpModel::MoveTo(x as int, y as int), RenderOpModel::Text(p_text@)]
                } else {
                    seq![
                        RenderOpModel::MoveTo(x as int, y as int),
                        RenderOpModel::SetColor(p_color),
                        RenderOpModel::Text(p_text@),
                    ]
                };
                ops.push(RenderOp::MoveTo(x, y));
                if p_color.r != last.r || p_color.g != last.g || p_color.b != last.b {
                    ops.push(RenderOp::SetColor(p_color));
                    last = p_color;
                    ops.push(RenderOp::Text(p_text));
                } else {
                    ops.push(RenderOp::Text(p_text));
                }
                proof {
                    assert(ops_view(ops@) =~= pre_ops + prefix);
                    let rest = cells_emit_acc(g, w, y as int, x as int + 1, p_color);
                    assert(row.0 == prefix + rest.0 && row.1 == rest.1);
                    assert(((pre_ops + prefix) + rest.0) =~= pre_ops + (prefix + rest.0));
                    assert(ops_view(ops@) + cells_emit_acc(g, w, y as int, x as int + 1, last).0
                        == pre_ops + row.0);
                }
                x += 1;
            }
            y += 1;
        }
        ops
    }

    /// Composite the window stack, then emit the fast monochrome frame: the
    /// caller-supplied color once, then one cursor move and one whole line
    /// string per row.
    pub fn render_fast(&mut self, c: Color) -> (ops: Vec<RenderOp>)
        requires
            old(self).wf(),
        ensures
            final(self).wf(),
            final(self)@ == (TerminalModel {
                buffer: composite_spec(
                    old(self)@.buffer,
                    old(self)@.size.x as int,
                    old(self)@.size.y as int,
                    old(self)@.windows,
                ),
                ..old(self)@
            }),
            ops_view(ops@) == render_fast_ops_spec(
                final(self)@.buffer,
                old(self)@.size.x as int,
                old(self)@.size.y as int,
                c,
            ),
    {
        self.composite();
        let ghost g = self@.buffer;
        let ghost w = self.size.x as int;
        let ghost h = self.size.y as int;
        let width = self.size.x;
        let height = self.size.y;
        let mut ops: Vec<RenderOp> = Vec::new();
        ops.push(RenderOp::SetColor(c));
        proof {
            assert(ops_view(ops@) =~= seq![RenderOpModel::SetColor(c)]);
        }
        let mut y: i32 = 0;
        while y < height
            invariant
                self.wf(),
                g == self@.buffer,
                w == self.size.x as int,
                h == self.size.y as int,
                width == self.size.x,
                height == self.size.y,
                0 <= y <= height,
                ops_view(ops@) + fast_rows_spec(g, w, h, y as int) == render_fast_ops_spec(
                    g,
                    w,
                    h,
                    c,
                ),
            decreases height - y,
        {
            let mut line = String::new();
            let mut x: i32 = 0;
            while x < width
                invariant
                    self.wf(),
                    g == self@.buffer,
                    w == self.size.x as int,
                    h == self.size.y as int,
                    width == self.size.x,
                    height == self.size.y,
                    0 <= y < height,
                    0 <= x <= width,
                    line@ + row_text_spec(g, w, y as int, x as int) == row_text_spec(
                        g,
                        w,
                        y as int,
                        0,
                    ),
                decreases width - x,
            {
                proof {
                    lemma_coords_index(w, h, x as int, y as int);
                }
                let idx = (x as i64 + y as i64 * width as i64) as usize;
                let ghost pre = line@;
                vstd::string::StringExecFns::append(&mut line, self.pixel_buffer[idx].text.as_str());
                proof {
                    let cell = g[grid_index(w, x as int, y as int)].text;
                    assert(((pre + cell) + row_text_spec(g, w, y as int, x as int + 1)) =~= pre + (
                    cell + row_text_spec(g, w, y as int, x as int + 1)));
                }
                x += 1;
            }
            let ghost pre_ops = ops_view(ops@);
            ops.push(RenderOp::MoveTo(0, y));
            ops.push(RenderOp::Text(line));
            proof {
                let pair = seq![
                    RenderOpModel::MoveTo(0, y as int),
                    RenderOpModel::Text(row_text_spec(g, w, y as int, 0)),
                ];
                assert(ops_view(ops@) =~= pre_ops + pair);
                assert(((pre_ops + pair) + fast_rows_spec(g, w, h, y as int + 1)) =~= pre_ops + (
                pair + fast_rows_spec(g, w, h, y as int + 1)));
            }
            y += 1;
        }
        ops
    }
}

/// After the window stack is cleared, rendering copies nothing: the
/// composite a frame shows is exactly the default-cell grid the update
/// left behind.
pub proof fn lemma_clear_windows_render_default(w: int, h: int)
    ensures
        composite_spec(default_grid(w, h), w, h, Seq::<WindowModel>::empty()) == default_grid(
            w,
            h,
        ),
{
}

/// The render pipeline is deterministic: the composite depends only on the
/// grid the frame starts from, the screen size and the window stack, so two
/// frames over equal inputs show the same cells.
pub proof fn lemma_render_deterministic(
    buf1: Seq<PixelModel>,
    buf2: Seq<PixelModel>,
    w: int,
    h: int,
    ws1: Seq<WindowModel>,
    ws2: Seq<WindowModel>,
)
    requires
        buf1 == buf2,
        ws1 == ws2,
    ensures
        composite_spec(buf1, w, h, ws1) == composite_spec(buf2, w, h, ws2),
        render_ops_spec(composite_spec(buf1, w, h, ws1), w, h) == render_ops_spec(
            composite_spec(buf2, w, h, ws2),
            w,
            h,
        ),
{
}

/// The ids of a window stack, back to front.
pub open spec fn ids_of(ws: Seq<WindowModel>) -> Seq<u128> {
    ws.map_values(|wm: WindowModel| wm.id)
}

/// Moving the first matching window to the top keeps the multiset of window
/// ids, leaves that window in the last position, and preserves the relative
/// order of all the others.
pub proof fn lemma_set_top_preserves(ws: Seq<WindowModel>, i: int)
    requires
        0 <= i < ws.len(),
    ensures
        ids_of(ws.remove(i).push(ws[i])).to_multiset() == ids_of(ws).to_multiset(),
        ws.remove(i).push(ws[i]).last() == ws[i],
        ws.remove(i).push(ws[i]).drop_last() == ws.remove(i),
{
    broadcast use group_seq_properties;

    let s = ids_of(ws);
    assert(ids_of(ws.remove(i)) =~= s.remove(i));
    assert(ids_of(ws.remove(i).push(ws[i])) =~= s.remove(i).push(s[i]));
    s.to_multiset_ensures();
    s.remove(i).to_multiset_ensures();
    assert(s.remove(i).push(s[i]).to_multiset() =~= s.remove(i).to_multiset().insert(s[i]));
    assert(s.remove(i).to_multiset() =~= s.to_multiset().remove(s[i]));
    assert(s.contains(s[i]));
    assert(s.to_multiset().count(s[i]) > 0);
    assert(s.to_multiset().remove(s[i]).insert(s[i]) =~= s.to_multiset());
    assert(ws.remove(i).push(ws[i]).drop_last() =~= ws.remove(i));
}

} // verus!
