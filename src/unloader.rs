//! Write view of a global tensor, rooted at the tile coordinate of one cube.
use vstd::prelude::*;

use crate::algorithm::{TileShape, TilingOrder};
use crate::problem::{layout_strides, product, MatrixLayout};

verus! {

/// Shape and strides of a global tensor, in elements.
#[derive(Clone, Debug)]
pub struct VirtualTensor {
    pub shape: Vec<usize>,
    pub strides: Vec<usize>,
}

/// A tensor seen from the tile at rows `x_offset`, columns `y_offset` of the
/// matrix that starts `batch_offset` elements into the tensor.
#[derive(Clone, Debug)]
pub struct TensorWriter {
    pub tensor: VirtualTensor,
    pub x_offset: u32,
    pub y_offset: u32,
    pub batch_offset: u32,
}

/// Element offset, in a tensor with the given row and column strides, of
/// the element `row`, `col` of the view.
pub open spec fn view_offset(
    batch_offset: u32,
    x_offset: u32,
    y_offset: u32,
    row_stride: usize,
    col_stride: usize,
    row: u32,
    col: u32,
) -> int {
    batch_offset + (x_offset + row) * row_stride + (y_offset + col) * col_stride
}

impl TensorWriter {
    pub fn new(tensor: VirtualTensor, x_offset: u32, y_offset: u32, batch_offset: u32) -> (r:
        TensorWriter)
        ensures
            r.tensor.shape@ == tensor.shape@,
            r.tensor.strides@ == tensor.strides@,
            r.x_offset == x_offset,
            r.y_offset == y_offset,
            r.batch_offset == batch_offset,
    {
        TensorWriter { tensor, x_offset, y_offset, batch_offset }
    }

    /// Strides of the two innermost axes.
    pub open spec fn matrix_strides(&self) -> (usize, usize) {
        let n = self.tensor.strides@.len() as int;
        (self.tensor.strides@[n - 2], self.tensor.strides@[n - 1])
    }

    /// Element offset in the tensor of the element `row`, `col` of the view.
    /// The view does not check bounds; the caller keeps the result within
    /// the tensor.
    pub fn offset(&self, row: u32, col: u32) -> (r: usize)
        requires
            self.tensor.strides@.len() >= 2,
            view_offset(
                self.batch_offset,
                self.x_offset,
                self.y_offset,
                self.matrix_strides().0,
                self.matrix_strides().1,
                row,
                col,
            ) <= usize::MAX,
        ensures
            r == view_offset(
                self.batch_offset,
                self.x_offset,
                self.y_offset,
                self.matrix_strides().0,
                self.matrix_strides().1,
                row,
                col,
            ),
    {
        let n = self.tensor.strides.len();
        let row_stride = self.tensor.strides[n - 2] as u64;
        let col_stride = self.tensor.strides[n - 1] as u64;
        let x = self.x_offset as u64 + row as u64;
        let y = self.y_offset as u64 + col as u64;
        proof {
            assert(x * row_stride <= usize::MAX && y * col_stride <= usize::MAX) by (nonlinear_arith)
                requires
                    self.batch_offset + x * row_stride + y * col_stride <= usize::MAX,
                    x >= 0,
                    y >= 0,
                    row_stride >= 0,
                    col_stride >= 0,
            ;
        }
        (self.batch_offset as u64 + x * row_stride + y * col_stride) as usize
    }
}

/// How the output tiles of a stage are laid out: the number of tiles along
/// each axis, the tile shape, and the order in which tiles are numbered.
#[derive(Clone, Copy, Debug, PartialEq, Eq, Structural)]
pub struct StageTiling {
    pub tiles_x: u32,
    pub tiles_y: u32,
    pub tile: TileShape,
    pub order: TilingOrder,
}

/// Tile coordinate (row of tiles, column of tiles) of the tile that plane
/// `compute_plane_offset` holds in accumulator `accumulator_offset`: the
/// tile numbered `compute_plane_offset * tiles_y + accumulator_offset`,
/// numbered row by row or column by column.
pub open spec fn tile_position(t: StageTiling, compute_plane_offset: u32, accumulator_offset: u32) -> (
    int,
    int,
) {
    let nth = compute_plane_offset * t.tiles_y + accumulator_offset;
    match t.order {
        TilingOrder::RowMajor => (nth / (t.tiles_y as int), nth % (t.tiles_y as int)),
        TilingOrder::ColMajor => (nth % (t.tiles_x as int), nth / (t.tiles_x as int)),
    }
}

/// Offset in the output of the first element of the tile.
pub open spec fn tile_base(
    w: TensorWriter,
    t: StageTiling,
    compute_plane_offset: u32,
    accumulator_offset: u32,
) -> int {
    let (tx, ty) = tile_position(t, compute_plane_offset, accumulator_offset);
    w.batch_offset + (w.x_offset + tx * t.tile.m) * w.matrix_strides().0 + (w.y_offset + ty
        * t.tile.n) * w.matrix_strides().1
}

/// Distance from the tile's first element to its element `i`, `j`.
pub open spec fn tile_rel(row_stride: int, col_stride: int, i: int, j: int) -> int {
    i * row_stride + j * col_stride
}

/// Offset of the tile element `i`, `j`.
pub open spec fn tile_pos(base: int, row_stride: int, col_stride: int, i: int, j: int) -> int {
    base + tile_rel(row_stride, col_stride, i, j)
}

/// Whether `i`, `j` is an element of a tile of shape `t`.
pub open spec fn in_tile(t: TileShape, i: int, j: int) -> bool {
    0 <= i < t.m && 0 <= j < t.n
}

/// No two elements of a tile of shape `t` share an offset under these strides.
pub open spec fn tile_injective(row_stride: int, col_stride: int, t: TileShape) -> bool {
    forall|i1: int, j1: int, i2: int, j2: int|
        in_tile(t, i1, j1) && in_tile(t, i2, j2) && #[trigger] tile_rel(
            row_stride,
            col_stride,
            i1,
            j1,
        ) == #[trigger] tile_rel(row_stride, col_stride, i2, j2) ==> i1 == i2 && j1 == j2
}

/// Whether `p` is the offset of some element of the tile.
pub open spec fn covered(p: int, base: int, row_stride: int, col_stride: int, t: TileShape) -> bool {
    exists|i: int, j: int|
        in_tile(t, i, j) && p == #[trigger] tile_pos(base, row_stride, col_stride, i, j)
}

spec fn before(i2: int, j2: int, i: int, j: int) -> bool {
    i2 < i || (i2 == i && j2 < j)
}

spec fn covered_before(
    p: int,
    base: int,
    row_stride: int,
    col_stride: int,
    t: TileShape,
    i: int,
    j: int,
) -> bool {
    exists|i2: int, j2: int|
        in_tile(t, i2, j2) && before(i2, j2, i, j) && p == #[trigger] tile_pos(
            base,
            row_stride,
            col_stride,
            i2,
            j2,
        )
}

/// With a positive column stride and rows at least a tile row apart (a
/// row-major layout), or a positive row stride and columns at least a tile
/// column apart (a column-major layout), no two tile elements share an
/// offset.
pub proof fn lemma_tile_injective(row_stride: int, col_stride: int, t: TileShape)
    requires
        (col_stride > 0 && row_stride >= t.n * col_stride) || (row_stride > 0 && col_stride
            >= t.m * row_stride),
    ensures
        tile_injective(row_stride, col_stride, t),
{
    assert forall|i1: int, j1: int, i2: int, j2: int|
        in_tile(t, i1, j1) && in_tile(t, i2, j2) && #[trigger] tile_rel(
            row_stride,
            col_stride,
            i1,
            j1,
        ) == #[trigger] tile_rel(row_stride, col_stride, i2, j2) implies i1 == i2 && j1
        == j2 by {
        if col_stride > 0 && row_stride >= t.n * col_stride {
            lemma_digits_unique(col_stride, row_stride, t.n as int, j1, i1, j2, i2);
        } else {
            lemma_digits_unique(row_stride, col_stride, t.m as int, i1, j1, i2, j2);
        }
    }
}

/// Two-digit numbers with digit `a < n` of weight `u > 0` and digit `b` of
/// weight `v >= n * u` are equal only with equal digits.
proof fn lemma_digits_unique(u: int, v: int, n: int, a1: int, b1: int, a2: int, b2: int)
    requires
        u > 0,
        v >= n * u,
        0 <= a1 < n,
        0 <= a2 < n,
        b1 >= 0,
        b2 >= 0,
        a1 * u + b1 * v == a2 * u + b2 * v,
    ensures
        a1 == a2 && b1 == b2,
{
    assert(a1 * u < n * u && a2 * u < n * u && a1 * u >= 0 && a2 * u >= 0) by (nonlinear_arith)
        requires
            u > 0,
            0 <= a1 < n,
            0 <= a2 < n,
    ;
    if b1 < b2 {
        assert(b2 * v >= b1 * v + v) by (nonlinear_arith)
            requires
                b2 >= b1 + 1,
                v >= 0,
        ;
    } else if b1 > b2 {
        assert(b1 * v >= b2 * v + v) by (nonlinear_arith)
            requires
                b1 >= b2 + 1,
                v >= 0,
        ;
    }
    assert(b1 * v == b2 * v);
    assert(a1 == a2) by (nonlinear_arith)
        requires
            u > 0,
            a1 * u == a2 * u,
    ;
}

/// In a tensor whose strides are those of `layout` over its shape, the
/// tile element `i`, `j` that `Unloader::write` stores lands at the batch
/// offset plus the naive position of matrix row `X = x_offset + tx * m + i`
/// and column `Y = y_offset + ty * n + j`: `X * cols + Y` row by row, or
/// `Y * rows + X` column by column.
pub proof fn lemma_write_lands_at_naive_offset(
    w: TensorWriter,
    t: StageTiling,
    compute_plane_offset: u32,
    accumulator_offset: u32,
    layout: MatrixLayout,
    i: int,
    j: int,
)
    requires
        w.tensor.shape@.len() >= 2,
        w.tensor.strides@.len() == w.tensor.shape@.len(),
        forall|a: int|
            0 <= a < w.tensor.strides@.len() ==> w.tensor.strides@[a] as int == layout_strides(
                w.tensor.shape@,
                layout,
            )[a],
    ensures
        ({
            let n = w.tensor.shape@.len() as int;
            let rows = w.tensor.shape@[n - 2] as int;
            let cols = w.tensor.shape@[n - 1] as int;
            let (tx, ty) = tile_position(t, compute_plane_offset, accumulator_offset);
            let x = w.x_offset + tx * t.tile.m + i;
            let y = w.y_offset + ty * t.tile.n + j;
            tile_pos(
                tile_base(w, t, compute_plane_offset, accumulator_offset),
                w.matrix_strides().0 as int,
                w.matrix_strides().1 as int,
                i,
                j,
            ) == w.batch_offset + match layout {
                MatrixLayout::RowMajor => x * cols + y,
                MatrixLayout::ColMajor => y * rows + x,
            }
        }),
{
    let s = w.tensor.shape@;
    let n = s.len() as int;
    let (tx, ty) = tile_position(t, compute_plane_offset, accumulator_offset);
    let x0 = w.x_offset + tx * t.tile.m;
    let y0 = w.y_offset + ty * t.tile.n;
    let (rs, cs) = (w.matrix_strides().0 as int, w.matrix_strides().1 as int);
    assert(rs == layout_strides(s, layout)[n - 2]);
    assert(cs == layout_strides(s, layout)[n - 1]);
    assert(s.subrange(n, n) =~= Seq::<usize>::empty());
    assert(s.subrange(n - 1, n).drop_first() =~= Seq::<usize>::empty());
    assert(product(s.subrange(n - 1, n)) == s[n - 1] * product(s.subrange(n, n)));
    assert(x0 * rs + i * rs == (x0 + i) * rs) by (nonlinear_arith);
    assert(y0 * cs + j * cs == (y0 + j) * cs) by (nonlinear_arith);
    let pos = tile_pos(
        tile_base(w, t, compute_plane_offset, accumulator_offset),
        rs,
        cs,
        i,
        j,
    );
    assert(pos == w.batch_offset + (x0 + i) * rs + (y0 + j) * cs);
    match layout {
        MatrixLayout::RowMajor => {
            assert(rs == s[n - 1] as int);
            assert(cs == 1);
        },
        MatrixLayout::ColMajor => {
            assert(rs == 1);
            assert(cs == s[n - 2] as int);
        },
    }
}

/// Writes result tiles of a cube into a global tensor.
#[derive(Clone, Debug)]
pub struct Unloader {
    pub tensor_view: TensorWriter,
}

impl Unloader {
    /// An unloader whose view is rooted at the given tile coordinate.
    pub fn new(tensor: VirtualTensor, x_offset: u32, y_offset: u32, batch_offset: u32) -> (r:
        Unloader)
        ensures
            r.tensor_view.tensor.shape@ == tensor.shape@,
            r.tensor_view.tensor.strides@ == tensor.strides@,
            r.tensor_view.x_offset == x_offset,
            r.tensor_view.y_offset == y_offset,
            r.tensor_view.batch_offset == batch_offset,
    {
        Unloader { tensor_view: TensorWriter::new(tensor, x_offset, y_offset, batch_offset) }
    }

    /// Copy one result tile from the row-major staging `slice` into `out`:
    /// the tile that `compute_plane_offset` and `accumulator_offset`
    /// designate in the stage, element `i`, `j` going to
    /// `base + i * row_stride + j * col_stride`. Offsets outside the tile are
    /// left as they were; when no two tile elements share an offset, each
    /// element holds its staging value. Bounds are the caller's: every
    /// element of the tile must lie within `out`.
    pub fn write<T: Copy>(
        &self,
        out: &mut Vec<T>,
        slice: &Vec<T>,
        compute_plane_offset: u32,
        accumulator_offset: u32,
        tiling: StageTiling,
    )
        requires
            self.tensor_view.tensor.strides@.len() >= 2,
            tiling.tiles_x > 0,
            tiling.tiles_y > 0,
            slice@.len() == tiling.tile.m * tiling.tile.n,
            tiling.tile.m > 0 && tiling.tile.n > 0 ==> tile_pos(
                tile_base(self.tensor_view, tiling, compute_plane_offset, accumulator_offset),
                self.tensor_view.matrix_strides().0 as int,
                self.tensor_view.matrix_strides().1 as int,
                tiling.tile.m - 1,
                tiling.tile.n - 1,
            ) < old(out)@.len(),
        ensures
            final(out)@.len() == old(out)@.len(),
            forall|p: int|
                0 <= p < old(out)@.len() && !covered(
                    p,
                    tile_base(self.tensor_view, tiling, compute_plane_offset, accumulator_offset),
                    self.tensor_view.matrix_strides().0 as int,
                    self.tensor_view.matrix_strides().1 as int,
                    tiling.tile,
                ) ==> #[trigger] final(out)@[p] == old(out)@[p],
            tile_injective(
                self.tensor_view.matrix_strides().0 as int,
                self.tensor_view.matrix_strides().1 as int,
                tiling.tile,
            ) ==> forall|i: int, j: int|
                in_tile(tiling.tile, i, j) ==> #[trigger] final(out)@[tile_pos(
                    tile_base(self.tensor_view, tiling, compute_plane_offset, accumulator_offset),
                    self.tensor_view.matrix_strides().0 as int,
                    self.tensor_view.matrix_strides().1 as int,
                    i,
                    j,
                )] == slice@[i * tiling.tile.n + j],
    {
        let ghost base = tile_base(self.tensor_view, tiling, compute_plane_offset, accumulator_offset);
        let ghost old_out = out@;
        let n = self.tensor_view.tensor.strides.len();
        let rs = self.tensor_view.tensor.strides[n - 2];
        let cs = self.tensor_view.tensor.strides[n - 1];
        let tm = tiling.tile.m;
        let tn = tiling.tile.n;
        if tm == 0 || tn == 0 {
            return;
        }
        proof {
            assert(compute_plane_offset * tiling.tiles_y + accumulator_offset <= u64::MAX)
                by (nonlinear_arith)
                requires
                    compute_plane_offset <= u32::MAX,
                    tiling.tiles_y <= u32::MAX,
                    accumulator_offset <= u32::MAX,
            ;
        }
        let nth = compute_plane_offset as u64 * tiling.tiles_y as u64 + accumulator_offset as u64;
        let (tx, ty) = match tiling.order {
            TilingOrder::RowMajor => (nth / tiling.tiles_y as u64, nth % tiling.tiles_y as u64),
            TilingOrder::ColMajor => (nth % tiling.tiles_x as u64, nth / tiling.tiles_x as u64),
        };
        assert(tx == tile_position(tiling, compute_plane_offset, accumulator_offset).0);
        assert(ty == tile_position(tiling, compute_plane_offset, accumulator_offset).1);
        let len = out.len();
        let ghost x0 = self.tensor_view.x_offset + tx * tm;
        let ghost y0 = self.tensor_view.y_offset + ty * tn;
        proof {
            assert(x0 >= 0 && y0 >= 0 && x0 * rs >= 0 && y0 * cs >= 0) by (nonlinear_arith)
                requires
                    x0 == self.tensor_view.x_offset + tx * tm,
                    y0 == self.tensor_view.y_offset + ty * tn,
                    tx >= 0,
                    ty >= 0,
                    tm >= 0,
                    tn >= 0,
                    rs >= 0,
                    cs >= 0,
            ;
            assert((tm - 1) * rs >= 0 && (tn - 1) * cs >= 0) by (nonlinear_arith)
                requires
                    tm >= 1,
                    tn >= 1,
                    rs >= 0,
                    cs >= 0,
            ;
            assert(base + (tm - 1) * rs + (tn - 1) * cs < len);
        }
        // Each part of the base offset is below the length of `out`; a part
        // whose stride is zero is zero whatever its coordinate.
        let row_part: u64 = if rs == 0 {
            assert(x0 * rs == 0) by (nonlinear_arith)
                requires
                    rs == 0,
            ;
            0
        } else {
            proof {
                assert(x0 <= x0 * rs) by (nonlinear_arith)
                    requires
                        x0 >= 0,
                        rs >= 1,
                ;
            }
            (self.tensor_view.x_offset as u64 + tx * tm as u64) * rs as u64
        };
        let col_part: u64 = if cs == 0 {
            assert(y0 * cs == 0) by (nonlinear_arith)
                requires
                    cs == 0,
            ;
            0
        } else {
            proof {
                assert(y0 <= y0 * cs) by (nonlinear_arith)
                    requires
                        y0 >= 0,
                        cs >= 1,
                ;
            }
            (self.tensor_view.y_offset as u64 + ty * tn as u64) * cs as u64
        };
        assert(row_part == x0 * rs);
        assert(col_part == y0 * cs);
        assert(base == self.tensor_view.batch_offset + x0 * rs + y0 * cs);
        let b = (self.tensor_view.batch_offset as u64 + row_part + col_part) as usize;
        assert(b == base);
        let ghost t = tiling.tile;
        let mut i: u32 = 0;
        let mut k: usize = 0;
        let sl = slice.len();
        while i < tm
            invariant
                t == tiling.tile,
                tm == t.m,
                tn == t.n,
                tm > 0 && tn > 0,
                k == i * tn,
                sl == slice@.len() == tm * tn,
                b == base,
                rs == self.tensor_view.matrix_strides().0,
                cs == self.tensor_view.matrix_strides().1,
                base + (tm - 1) * rs + (tn - 1) * cs < len,
                out@.len() == len == old_out.len(),
                i <= tm,
                forall|p: int|
                    0 <= p < len && !covered_before(p, base, rs as int, cs as int, t, i as int, 0)
                        ==> #[trigger] out@[p] == old_out[p],
                tile_injective(rs as int, cs as int, t) ==> forall|i2: int, j2: int|
                    in_tile(t, i2, j2) && before(i2, j2, i as int, 0) ==> #[trigger] out@[tile_pos(
                        base,
                        rs as int,
                        cs as int,
                        i2,
                        j2,
                    )] == slice@[i2 * tn + j2],
            decreases tm - i,
        {
            proof {
                assert(i * rs <= (tm - 1) * rs && i * tn + tn <= tm * tn) by (nonlinear_arith)
                    requires
                        i < tm,
                        rs >= 0,
                        tn >= 0,
                ;
            }
            let row = b + i as usize * rs;
            let mut j: u32 = 0;
            while j < tn
                invariant
                    t == tiling.tile,
                    tm == t.m,
                    tn == t.n,
                    i < tm,
                    k == i * tn + j,
                    i * tn + tn <= tm * tn,
                    sl == slice@.len() == tm * tn,
                    b == base,
                    row == base + i * rs,
                    i * rs <= (tm - 1) * rs,
                    base + (tm - 1) * rs + (tn - 1) * cs < len,
                    out@.len() == len == old_out.len(),
                    j <= tn,
                    forall|p: int|
                        0 <= p < len && !covered_before(
                            p,
                            base,
                            rs as int,
                            cs as int,
                            t,
                            i as int,
                            j as int,
                        ) ==> #[trigger] out@[p] == old_out[p],
                    tile_injective(rs as int, cs as int, t) ==> forall|i2: int, j2: int|
                        in_tile(t, i2, j2) && before(i2, j2, i as int, j as int)
                            ==> #[trigger] out@[tile_pos(base, rs as int, cs as int, i2, j2)]
                            == slice@[i2 * tn + j2],
                decreases tn - j,
            {
                proof {
                    assert(j * cs <= (tn - 1) * cs) by (nonlinear_arith)
                        requires
                            j < tn,
                            cs >= 0,
                    ;
                }
                let w = row + j as usize * cs;
                let v = slice[k];
                let ghost prev = out@;
                out.set(w, v);
                proof {
                    let ii = i as int;
                    let jj = j as int;
                    assert(w == tile_pos(base, rs as int, cs as int, ii, jj));
                    assert(in_tile(t, ii, jj) && before(ii, jj, ii, jj + 1));
                    assert(covered_before(w as int, base, rs as int, cs as int, t, ii, jj + 1));
                    assert forall|p: int|
                        0 <= p < len && !covered_before(
                            p,
                            base,
                            rs as int,
                            cs as int,
                            t,
                            ii,
                            jj + 1,
                        ) implies #[trigger] out@[p] == old_out[p] by {
                        assert(p != w);
                        assert(out@[p] == prev[p]);
                        if covered_before(p, base, rs as int, cs as int, t, ii, jj) {
                            let (i2, j2) = choose|i2: int, j2: int|
                                in_tile(t, i2, j2) && before(i2, j2, ii, jj) && p == #[trigger] tile_pos(
                                    base,
                                    rs as int,
                                    cs as int,
                                    i2,
                                    j2,
                                );
                            assert(before(i2, j2, ii, jj + 1));
                        }
                    }
                    if tile_injective(rs as int, cs as int, t) {
                        assert forall|i2: int, j2: int|
                            in_tile(t, i2, j2) && before(i2, j2, ii, jj + 1) implies #[trigger] out@[tile_pos(
                            base,
                            rs as int,
                            cs as int,
                            i2,
                            j2,
                        )] == slice@[i2 * tn + j2] by {
                            let pos = tile_pos(base, rs as int, cs as int, i2, j2);
                            if i2 == ii && j2 == jj {
                                assert(pos == w);
                                assert(out@[pos] == v);
                                assert(i2 * tn + j2 == k);
                            } else {
                                assert(tile_rel(rs as int, cs as int, i2, j2) != tile_rel(
                                    rs as int,
                                    cs as int,
                                    ii,
                                    jj,
                                ));
                                assert(before(i2, j2, ii, jj));
                                assert(w == base + tile_rel(rs as int, cs as int, ii, jj));
                                assert(pos == base + tile_rel(rs as int, cs as int, i2, j2));
                                assert(pos != w);
                                assert(0 <= i2 * rs <= (tm - 1) * rs && 0 <= j2 * cs <= (tn - 1)
                                    * cs) by (nonlinear_arith)
                                    requires
                                        0 <= i2 < tm,
                                        0 <= j2 < tn,
                                        rs >= 0,
                                        cs >= 0,
                                ;
                                let rel = i2 * (rs as int) + j2 * (cs as int);
                                assert(rel == tile_rel(rs as int, cs as int, i2, j2));
                                assert(0 <= rel <= (tm - 1) * (rs as int) + (tn - 1) * (cs as int))
                                    by (nonlinear_arith)
                                    requires
                                        0 <= i2 < tm,
                                        0 <= j2 < tn,
                                        rs >= 0,
                                        cs >= 0,
                                        rel == i2 * (rs as int) + j2 * (cs as int),
                                ;
                                assert(prev.len() == len);
                                assert(base + (tm - 1) * (rs as int) + (tn - 1) * (cs as int) < len);
                                assert(pos == base + rel);
                                assert(base >= 0);
                                assert(0 <= pos < prev.len());
                                assert(out@[pos] == prev[pos]);
                            }
                        }
                    }
                }
                j = j + 1;
                k = k + 1;
            }
            proof {
                let ii = i as int;
                assert forall|p: int|
                    0 <= p < len && !covered_before(p, base, rs as int, cs as int, t, ii + 1, 0)
                        implies #[trigger] out@[p] == old_out[p] by {
                    if covered_before(p, base, rs as int, cs as int, t, ii, tn as int) {
                        let (i2, j2) = choose|i2: int, j2: int|
                            in_tile(t, i2, j2) && before(i2, j2, ii, tn as int) && p
                                == #[trigger] tile_pos(base, rs as int, cs as int, i2, j2);
                        assert(before(i2, j2, ii + 1, 0));
                    }
                }
                assert(i * tn + tn == (i + 1) * tn) by (nonlinear_arith);
            }
            i = i + 1;
        }
        proof {
            assert forall|p: int|
                0 <= p < len && !covered(p, base, rs as int, cs as int, t) implies #[trigger] out@[p]
                == old_out[p] by {
                if covered_before(p, base, rs as int, cs as int, t, tm as int, 0) {
                    let (i2, j2) = choose|i2: int, j2: int|
                        in_tile(t, i2, j2) && before(i2, j2, tm as int, 0) && p
                            == #[trigger] tile_pos(base, rs as int, cs as int, i2, j2);
                    assert(in_tile(t, i2, j2) && p == tile_pos(base, rs as int, cs as int, i2, j2));
                }
            }
        }
    }
}

} // verus!
