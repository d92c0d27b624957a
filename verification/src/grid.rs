//! The cell-grid data model: a logically 2-D, physically 1-D sequence of
//! cells indexed by `x + y * width`, with silent clipping of out-of-bounds
//! coordinates. Shared by windows (offscreen grids) and by the terminal
//! driver (the screen-sized composite target).
use vstd::prelude::*;
use vstd::arithmetic::div_mod::{
    lemma_fundamental_div_mod, lemma_fundamental_div_mod_converse, lemma_mod_bound,
};

use crate::{Color, Pixel, PixelModel, Position, Size};

verus! {

/// A size is well formed when both dimensions are non-negative and the cell
/// count fits the 32-bit index arithmetic of the grid.
pub open spec fn wf_size(s: Size) -> bool {
    0 <= s.x && 0 <= s.y && s.x * s.y <= i32::MAX
}

/// The default cell: a single space with white foreground.
pub open spec fn default_pixel() -> PixelModel {
    PixelModel { text: seq![' '], color: Color { r: 255u8, g: 255u8, b: 255u8 } }
}

/// A grid of width `w` and height `h` holds exactly `w * h` cells.
pub open spec fn grid_wf(g: Seq<PixelModel>, w: int, h: int) -> bool {
    0 <= w && 0 <= h && w * h <= i32::MAX && g.len() == w * h
}

/// Row-major index of the cell at column `x`, row `y`.
pub open spec fn grid_index(w: int, x: int, y: int) -> int {
    x + y * w
}

/// Whether `(x, y)` addresses a cell of a `w` by `h` grid.
pub open spec fn in_grid(w: int, h: int, x: int, y: int) -> bool {
    0 <= x < w && 0 <= y < h
}

/// A `w` by `h` grid of default cells.
pub open spec fn default_grid(w: int, h: int) -> Seq<PixelModel> {
    Seq::new((w * h) as nat, |i: int| default_pixel())
}

/// Replacing the cell at `(x, y)`; out-of-bounds coordinates are ignored.
pub open spec fn grid_put_spec(
    g: Seq<PixelModel>,
    w: int,
    h: int,
    x: int,
    y: int,
    p: PixelModel,
) -> Seq<PixelModel> {
    if in_grid(w, h, x, y) {
        g.update(grid_index(w, x, y), p)
    } else {
        g
    }
}

/// Reading the cell at `(x, y)`; out-of-bounds reads yield the default cell.
pub open spec fn grid_get_spec(g: Seq<PixelModel>, w: int, h: int, x: int, y: int) -> PixelModel {
    if in_grid(w, h, x, y) {
        g[grid_index(w, x, y)]
    } else {
        default_pixel()
    }
}

/// The mathematical contents of an executable grid.
pub open spec fn gview(s: Seq<Pixel>) -> Seq<PixelModel> {
    Seq::new(s.len(), |i: int| s[i]@)
}

/// A cell of a well-formed grid has its index inside the buffer, and the
/// index determines the coordinates.
pub proof fn lemma_coords_index(w: int, h: int, x: int, y: int)
    requires
        in_grid(w, h, x, y),
    ensures
        0 <= grid_index(w, x, y) < w * h,
        grid_index(w, x, y) % w == x,
        grid_index(w, x, y) / w == y,
{
    lemma_fundamental_div_mod_converse(x + y * w, w, y, x);
    assert(0 <= x + y * w < w * h) by (nonlinear_arith)
        requires
            0 <= x < w,
            0 <= y < h,
    ;
}

/// Every index of a well-formed grid addresses exactly one cell: its column
/// is `j % w` and its row is `j / w`.
pub proof fn lemma_index_coords(w: int, h: int, j: int)
    requires
        0 < w,
        0 <= j < w * h,
    ensures
        in_grid(w, h, j % w, j / w),
        j == grid_index(w, j % w, j / w),
{
    lemma_fundamental_div_mod(j, w);
    lemma_mod_bound(j, w);
    assert(0 <= j / w < h) by (nonlinear_arith)
        requires
            0 < w,
            0 <= j < w * h,
            j == w * (j / w) + j % w,
            0 <= j % w < w,
    ;
    assert(j == j % w + (j / w) * w) by (nonlinear_arith)
        requires
            j == w * (j / w) + j % w,
    ;
}

/// A set of pending cell replacements, keyed by grid index. Applying a patch
/// replaces exactly the cells in its domain and keeps the rest.
pub open spec fn apply_patch(g: Seq<PixelModel>, p: Map<int, PixelModel>) -> Seq<PixelModel> {
    Seq::new(g.len(), |j: int| if p.dom().contains(j) { p[j] } else { g[j] })
}

/// Applying two patches in order is applying their right-preferring union.
pub proof fn lemma_apply_patch_compose(
    g: Seq<PixelModel>,
    p: Map<int, PixelModel>,
    q: Map<int, PixelModel>,
)
    ensures
        apply_patch(apply_patch(g, p), q) == apply_patch(g, p.union_prefer_right(q)),
{
    assert(apply_patch(apply_patch(g, p), q) =~= apply_patch(g, p.union_prefer_right(q)));
}

/// Applying the same patch twice is the same as applying it once: the second
/// application replaces each patched cell with the value it already has.
pub proof fn lemma_apply_patch_twice(g: Seq<PixelModel>, p: Map<int, PixelModel>)
    ensures
        apply_patch(apply_patch(g, p), p) == apply_patch(g, p),
{
    assert(apply_patch(apply_patch(g, p), p) =~= apply_patch(g, p));
}

/// Copying a `sw` by `sh` source grid into a `dw` by `dh` destination grid
/// with its top-left corner at `(px, py)`, clipping at all four edges.
pub open spec fn blit_spec(
    dst: Seq<PixelModel>,
    dw: int,
    dh: int,
    src: Seq<PixelModel>,
    sw: int,
    sh: int,
    px: int,
    py: int,
) -> Seq<PixelModel> {
    Seq::new(
        dst.len(),
        |j: int|
            {
                let sx = j % dw - px;
                let sy = j / dw - py;
                if in_grid(sw, sh, sx, sy) {
                    src[grid_index(sw, sx, sy)]
                } else {
                    dst[j]
                }
            },
    )
}

/// The destination grid after the source cells before row `ty`, plus those of
/// row `ty` before column `tx`, have been copied.
spec fn blit_upto(
    dst: Seq<PixelModel>,
    dw: int,
    dh: int,
    src: Seq<PixelModel>,
    sw: int,
    sh: int,
    px: int,
    py: int,
    ty: int,
    tx: int,
) -> Seq<PixelModel> {
    Seq::new(
        dst.len(),
        |j: int|
            {
                let sx = j % dw - px;
                let sy = j / dw - py;
                if in_grid(sw, sh, sx, sy) && (sy < ty || (sy == ty && sx < tx)) {
                    src[grid_index(sw, sx, sy)]
                } else {
                    dst[j]
                }
            },
    )
}

proof fn lemma_blit_upto_start(
    dst: Seq<PixelModel>,
    dw: int,
    dh: int,
    src: Seq<PixelModel>,
    sw: int,
    sh: int,
    px: int,
    py: int,
)
    ensures
        blit_upto(dst, dw, dh, src, sw, sh, px, py, 0, 0) == dst,
{
    assert(blit_upto(dst, dw, dh, src, sw, sh, px, py, 0, 0) =~= dst);
}

proof fn lemma_blit_upto_row_end(
    dst: Seq<PixelModel>,
    dw: int,
    dh: int,
    src: Seq<PixelModel>,
    sw: int,
    sh: int,
    px: int,
    py: int,
    ty: int,
)
    ensures
        blit_upto(dst, dw, dh, src, sw, sh, px, py, ty, sw) == blit_upto(
            dst,
            dw,
            dh,
            src,
            sw,
            sh,
            px,
            py,
            ty + 1,
            0,
        ),
{
    assert(blit_upto(dst, dw, dh, src, sw, sh, px, py, ty, sw) =~= blit_upto(
        dst,
        dw,
        dh,
        src,
        sw,
        sh,
        px,
        py,
        ty + 1,
        0,
    ));
}

proof fn lemma_blit_upto_done(
    dst: Seq<PixelModel>,
    dw: int,
    dh: int,
    src: Seq<PixelModel>,
    sw: int,
    sh: int,
    px: int,
    py: int,
)
    ensures
        blit_upto(dst, dw, dh, src, sw, sh, px, py, sh, 0) == blit_spec(
            dst,
            dw,
            dh,
            src,
            sw,
            sh,
            px,
            py,
        ),
{
    assert(blit_upto(dst, dw, dh, src, sw, sh, px, py, sh, 0) =~= blit_spec(
        dst,
        dw,
        dh,
        src,
        sw,
        sh,
        px,
        py,
    ));
}

/// Copying one more source cell whose destination is in bounds updates that
/// one destination cell.
proof fn lemma_blit_step_in(
    dst: Seq<PixelModel>,
    dw: int,
    dh: int,
    src: Seq<PixelModel>,
    sw: int,
    sh: int,
    px: int,
    py: int,
    ty: int,
    tx: int,
)
    requires
        grid_wf(dst, dw, dh),
        0 <= ty < sh,
        0 <= tx < sw,
        in_grid(dw, dh, tx + px, ty + py),
    ensures
        blit_upto(dst, dw, dh, src, sw, sh, px, py, ty, tx + 1) == blit_upto(
            dst,
            dw,
            dh,
            src,
            sw,
            sh,
            px,
            py,
            ty,
            tx,
        ).update(grid_index(dw, tx + px, ty + py), src[grid_index(sw, tx, ty)]),
{
    let didx = grid_index(dw, tx + px, ty + py);
    lemma_coords_index(dw, dh, tx + px, ty + py);
    let lhs = blit_upto(dst, dw, dh, src, sw, sh, px, py, ty, tx + 1);
    let rhs = blit_upto(dst, dw, dh, src, sw, sh, px, py, ty, tx).update(
        didx,
        src[grid_index(sw, tx, ty)],
    );
    assert forall|j: int| 0 <= j < dst.len() implies lhs[j] == rhs[j] by {
        lemma_index_coords(dw, dh, j);
        if j != didx {
            // Equal coordinates would give the same index, so this cell's
            // source coordinates differ from (tx, ty).
            assert(!(j % dw == tx + px && j / dw == ty + py));
        }
    }
    assert(lhs =~= rhs);
}

/// Copying one more source cell whose destination is out of bounds changes
/// nothing.
proof fn lemma_blit_step_out(
    dst: Seq<PixelModel>,
    dw: int,
    dh: int,
    src: Seq<PixelModel>,
    sw: int,
    sh: int,
    px: int,
    py: int,
    ty: int,
    tx: int,
)
    requires
        grid_wf(dst, dw, dh),
        0 <= ty < sh,
        0 <= tx < sw,
        !in_grid(dw, dh, tx + px, ty + py),
    ensures
        blit_upto(dst, dw, dh, src, sw, sh, px, py, ty, tx + 1) == blit_upto(
            dst,
            dw,
            dh,
            src,
            sw,
            sh,
            px,
            py,
            ty,
            tx,
        ),
{
    let lhs = blit_upto(dst, dw, dh, src, sw, sh, px, py, ty, tx + 1);
    let rhs = blit_upto(dst, dw, dh, src, sw, sh, px, py, ty, tx);
    assert forall|j: int| 0 <= j < dst.len() implies lhs[j] == rhs[j] by {
        lemma_index_coords(dw, dh, j);
        // The destination of source cell (tx, ty) lies outside the grid, so
        // no index j corresponds to it.
        assert(!(j % dw == tx + px && j / dw == ty + py));
    }
    assert(lhs =~= rhs);
}

/// A fresh grid of default cells, sized to `size`.
pub fn make_default_grid(size: Size) -> (g: Vec<Pixel>)
    requires
        wf_size(size),
    ensures
        gview(g@) == default_grid(size.x as int, size.y as int),
        g@.len() == size.x * size.y,
{
    let n = (size.x * size.y) as usize;
    let cell = Pixel::new(" ".to_owned(), Color::white());
    let g = vec![cell; n];
    proof {
        reveal_strlit(" ");
        assert forall|i: int| 0 <= i < n implies g@[i]@ == default_pixel() by {
            assert(g@[i]@.text =~= seq![' ']);
        }
        assert(gview(g@) =~= default_grid(size.x as int, size.y as int));
    }
    g
}

/// Reset every cell of the grid to the default cell.
pub fn grid_fill_default(g: &mut Vec<Pixel>, size: Size)
    requires
        wf_size(size),
    ensures
        gview(final(g)@) == default_grid(size.x as int, size.y as int),
        final(g)@.len() == size.x * size.y,
{
    *g = make_default_grid(size);
}

/// Replace the cell at `(x, y)`, silently ignoring out-of-bounds coordinates.
pub fn grid_put(g: &mut Vec<Pixel>, size: Size, x: i128, y: i128, p: Pixel)
    requires
        wf_size(size),
        old(g)@.len() == size.x * size.y,
    ensures
        gview(final(g)@) == grid_put_spec(
            gview(old(g)@),
            size.x as int,
            size.y as int,
            x as int,
            y as int,
            p@,
        ),
        final(g)@.len() == old(g)@.len(),
{
    let ghost g0 = gview(old(g)@);
    if 0 <= x && x < size.x as i128 && 0 <= y && y < size.y as i128 {
        proof {
            lemma_coords_index(size.x as int, size.y as int, x as int, y as int);
        }
        let idx = (x + y * size.x as i128) as usize;
        g.set(idx, p);
        proof {
            assert(gview(g@) =~= g0.update(grid_index(size.x as int, x as int, y as int), p@));
        }
    } else {
        proof {
            assert(gview(g@) =~= g0);
        }
    }
}

/// Read the cell at `(x, y)`; out-of-bounds reads return the default cell.
pub fn grid_get(g: &Vec<Pixel>, size: Size, x: i128, y: i128) -> (p: Pixel)
    requires
        wf_size(size),
        g@.len() == size.x * size.y,
    ensures
        p@ == grid_get_spec(gview(g@), size.x as int, size.y as int, x as int, y as int),
{
    if 0 <= x && x < size.x as i128 && 0 <= y && y < size.y as i128 {
        proof {
            lemma_coords_index(size.x as int, size.y as int, x as int, y as int);
        }
        let idx = (x + y * size.x as i128) as usize;
        g[idx].clone()
    } else {
        proof {
            reveal_strlit(" ");
        }
        let p = Pixel::new(" ".to_owned(), Color::white());
        proof {
            assert(p@.text =~= seq![' ']);
        }
        p
    }
}

/// Copy `src` into `dst` with its top-left corner at `pos`, clipping at both
/// the low and the high edges of the destination.
pub fn grid_blit(dst: &mut Vec<Pixel>, dsize: Size, src: &Vec<Pixel>, ssize: Size, pos: Position)
    requires
        wf_size(dsize),
        old(dst)@.len() == dsize.x * dsize.y,
        wf_size(ssize),
        src@.len() == ssize.x * ssize.y,
    ensures
        gview(final(dst)@) == blit_spec(
            gview(old(dst)@),
            dsize.x as int,
            dsize.y as int,
            gview(src@),
            ssize.x as int,
            ssize.y as int,
            pos.x as int,
            pos.y as int,
        ),
        final(dst)@.len() == old(dst)@.len(),
{
    let ghost d0 = gview(old(dst)@);
    let ghost s = gview(src@);
    let ghost dw = dsize.x as int;
    let ghost dh = dsize.y as int;
    let ghost sw = ssize.x as int;
    let ghost sh = ssize.y as int;
    let ghost px = pos.x as int;
    let ghost py = pos.y as int;
    proof {
        lemma_blit_upto_start(d0, dw, dh, s, sw, sh, px, py);
    }
    let mut y: i32 = 0;
    while y < ssize.y
        invariant
            wf_size(dsize),
            wf_size(ssize),
            0 <= y <= ssize.y,
            dst@.len() == dsize.x * dsize.y,
            src@.len() == ssize.x * ssize.y,
            d0 == gview(old(dst)@),
            d0.len() == dw * dh,
            s == gview(src@),
            dw == dsize.x as int,
            dh == dsize.y as int,
            sw == ssize.x as int,
            sh == ssize.y as int,
            px == pos.x as int,
            py == pos.y as int,
            gview(dst@) == blit_upto(d0, dw, dh, s, sw, sh, px, py, y as int, 0),
        decreases ssize.y - y,
    {
        let mut x: i32 = 0;
        while x < ssize.x
            invariant
                wf_size(dsize),
                wf_size(ssize),
                0 <= y < ssize.y,
                0 <= x <= ssize.x,
                dst@.len() == dsize.x * dsize.y,
                src@.len() == ssize.x * ssize.y,
                d0 == gview(old(dst)@),
                d0.len() == dw * dh,
                s == gview(src@),
                dw == dsize.x as int,
                dh == dsize.y as int,
                sw == ssize.x as int,
                sh == ssize.y as int,
                px == pos.x as int,
                py == pos.y as int,
                gview(dst@) == blit_upto(d0, dw, dh, s, sw, sh, px, py, y as int, x as int),
            decreases ssize.x - x,
        {
            let dx = x as i64 + pos.x as i64;
            let dy = y as i64 + pos.y as i64;
            if 0 <= dx && dx < dsize.x as i64 && 0 <= dy && dy < dsize.y as i64 {
                proof {
                    lemma_coords_index(sw, sh, x as int, y as int);
                    lemma_coords_index(dw, dh, dx as int, dy as int);
                }
                let sidx = (x as i64 + y as i64 * ssize.x as i64) as usize;
                let didx = (dx + dy * dsize.x as i64) as usize;
                let p = src[sidx].clone();
                dst.set(didx, p);
                proof {
                    lemma_blit_step_in(d0, dw, dh, s, sw, sh, px, py, y as int, x as int);
                    assert(gview(dst@) =~= blit_upto(
                        d0,
                        dw,
                        dh,
                        s,
                        sw,
                        sh,
                        px,
                        py,
                        y as int,
                        x as int + 1,
                    ));
                }
            } else {
                proof {
                    lemma_blit_step_out(d0, dw, dh, s, sw, sh, px, py, y as int, x as int);
                }
            }
            x += 1;
        }
        proof {
            lemma_blit_upto_row_end(d0, dw, dh, s, sw, sh, px, py, y as int);
        }
        y += 1;
    }
    proof {
        lemma_blit_upto_done(d0, dw, dh, s, sw, sh, px, py);
    }
}

} // verus!
