//! Description of a matrix multiplication: dimensions, batch shapes, operand
//! layouts and line sizes, with the shapes and strides of its three tensors.
use vstd::prelude::*;

verus! {

/// Memory layout of the two innermost axes of a matrix operand.
#[derive(Clone, Copy, Debug, PartialEq, Eq, Structural)]
pub enum MatrixLayout {
    RowMajor,
    ColMajor,
}

/// One of the three tensors of a matrix multiplication.
#[derive(Clone, Copy, Debug, PartialEq, Eq, Structural)]
pub enum Ident {
    Lhs,
    Rhs,
    Out,
}

/// Why a problem description is refused.
#[derive(Clone, Copy, Debug, PartialEq, Eq, Structural)]
pub enum ProblemError {
    /// The two operands have batch shapes of different ranks.
    BatchRankMismatch,
    /// Two batch extents differ and neither is 1.
    BatchNotBroadcastable,
    /// A tensor's strides or element count, or the number of output
    /// batches, do not fit in `usize`.
    TooLarge,
}

/// A matrix multiplication `Out = Lhs * Rhs` of `m x k` by `k x n` matrices,
/// batched over `lhs_batches` and `rhs_batches`.
#[derive(Clone, Debug)]
pub struct MatmulProblem {
    pub m: usize,
    pub n: usize,
    pub k: usize,
    pub lhs_batches: Vec<usize>,
    pub rhs_batches: Vec<usize>,
    pub lhs_layout: MatrixLayout,
    pub rhs_layout: MatrixLayout,
    pub lhs_line_size: u8,
    pub rhs_line_size: u8,
    pub out_line_size: u8,
}

/// Product of a sequence of extents.
pub open spec fn product(s: Seq<usize>) -> int
    decreases s.len(),
{
    if s.len() == 0 {
        1
    } else {
        s[0] * product(s.drop_first())
    }
}

/// The two batch shapes can be broadcast together: same rank, and at each
/// axis equal extents or one of them 1.
pub open spec fn broadcast_compatible(l: Seq<usize>, r: Seq<usize>) -> bool {
    &&& l.len() == r.len()
    &&& forall|i: int| 0 <= i < l.len() ==> l[i] == r[i] || l[i] == 1 || r[i] == 1
}

/// Broadcast of two compatible batch shapes: the larger extent at each axis.
pub open spec fn batch_broadcast(l: Seq<usize>, r: Seq<usize>) -> Seq<usize> {
    Seq::new(l.len(), |i: int| if l[i] >= r[i] { l[i] } else { r[i] })
}

/// Row-major strides of `shape`: each axis steps over the product of the
/// extents of the axes after it, so the last axis has stride 1.
pub open spec fn row_major_strides(shape: Seq<usize>) -> Seq<int> {
    Seq::new(shape.len(), |i: int| product(shape.subrange(i + 1, shape.len() as int)))
}

/// Strides of a tensor whose two innermost axes are stored in `layout`; the
/// batch axes are always row-major over whole matrices.
pub open spec fn layout_strides(shape: Seq<usize>, layout: MatrixLayout) -> Seq<int> {
    let n = shape.len() as int;
    match layout {
        MatrixLayout::RowMajor => row_major_strides(shape),
        MatrixLayout::ColMajor => row_major_strides(shape).update(n - 2, 1).update(
            n - 1,
            shape[n - 2] as int,
        ),
    }
}

/// Offset of the element at `idx` through `strides`.
pub open spec fn strided_offset(idx: Seq<int>, strides: Seq<int>) -> int
    decreases idx.len(),
{
    if idx.len() == 0 || strides.len() == 0 {
        0
    } else {
        strided_offset(idx.drop_last(), strides.drop_last()) + idx.last() * strides.last()
    }
}

/// Row-major linear index of `idx` in `shape`, by Horner's rule.
pub open spec fn row_major_index(idx: Seq<int>, shape: Seq<usize>) -> int
    decreases idx.len(),
{
    if idx.len() == 0 || shape.len() == 0 {
        0
    } else {
        row_major_index(idx.drop_last(), shape.drop_last()) * shape.last() + idx.last()
    }
}

/// Linear position of `idx` in a batch of matrices of `shape` stored in
/// `layout`: whole matrices one after the other, each stored row by row or
/// column by column.
pub open spec fn naive_offset(idx: Seq<int>, shape: Seq<usize>, layout: MatrixLayout) -> int {
    let n = shape.len() as int;
    let rows = shape[n - 2] as int;
    let cols = shape[n - 1] as int;
    let batch = row_major_index(idx.subrange(0, n - 2), shape.subrange(0, n - 2));
    let (i, j) = (idx[n - 2], idx[n - 1]);
    match layout {
        MatrixLayout::RowMajor => batch * (rows * cols) + i * cols + j,
        MatrixLayout::ColMajor => batch * (rows * cols) + j * rows + i,
    }
}

proof fn lemma_product_concat(a: Seq<usize>, b: Seq<usize>)
    ensures
        product(a + b) == product(a) * product(b),
    decreases a.len(),
{
    if a.len() > 0 {
        assert((a + b).drop_first() =~= a.drop_first() + b);
        lemma_product_concat(a.drop_first(), b);
        assert(a[0] * (product(a.drop_first()) * product(b)) == (a[0] * product(a.drop_first()))
            * product(b)) by (nonlinear_arith);
    } else {
        assert(a + b =~= b);
    }
}

proof fn lemma_product_pair(a: Seq<usize>, x: usize, y: usize)
    ensures
        product(a + seq![x, y]) == product(a) * x * y,
{
    lemma_product_concat(a, seq![x, y]);
    assert(seq![x, y].drop_first() =~= seq![y]);
    assert(seq![y].drop_first() =~= Seq::<usize>::empty());
    reveal_with_fuel(product, 3);
    assert(product(a) * (x * (y * 1)) == product(a) * x * y) by (nonlinear_arith);
}

proof fn lemma_suffix_step(s: Seq<usize>, i: int)
    requires
        0 <= i < s.len(),
    ensures
        product(s.subrange(i, s.len() as int)) == s[i] * product(
            s.subrange(i + 1, s.len() as int),
        ),
{
    assert(s.subrange(i, s.len() as int).drop_first() =~= s.subrange(i + 1, s.len() as int));
}

proof fn lemma_offset_scale(idx: Seq<int>, v: Seq<int>, w: Seq<int>, c: int)
    requires
        idx.len() == v.len() == w.len(),
        forall|i: int| 0 <= i < v.len() ==> w[i] == v[i] * c,
    ensures
        strided_offset(idx, w) == c * strided_offset(idx, v),
    decreases idx.len(),
{
    if idx.len() > 0 {
        lemma_offset_scale(idx.drop_last(), v.drop_last(), w.drop_last(), c);
        let a = strided_offset(idx.drop_last(), v.drop_last());
        assert(c * a + idx.last() * (v.last() * c) == c * (a + idx.last() * v.last()))
            by (nonlinear_arith);
    }
}

proof fn lemma_row_major_prefix(s: Seq<usize>)
    requires
        s.len() >= 1,
    ensures
        forall|i: int|
            0 <= i < s.len() - 1 ==> #[trigger] row_major_strides(s)[i] == row_major_strides(
                s.drop_last(),
            )[i] * s.last(),
{
    let n = s.len() as int;
    assert forall|i: int| 0 <= i < n - 1 implies #[trigger] row_major_strides(s)[i]
        == row_major_strides(s.drop_last())[i] * s.last() by {
        let a = s.drop_last().subrange(i + 1, n - 1);
        assert(s.subrange(i + 1, n) =~= a + seq![s.last()]);
        lemma_product_concat(a, seq![s.last()]);
        assert(seq![s.last()].drop_first() =~= Seq::<usize>::empty());
        reveal_with_fuel(product, 2);
        assert(product(seq![s.last()]) == s.last());
    }
}

proof fn lemma_row_major_offset(idx: Seq<int>, s: Seq<usize>)
    requires
        idx.len() == s.len(),
    ensures
        strided_offset(idx, row_major_strides(s)) == row_major_index(idx, s),
    decreases s.len(),
{
    let n = s.len() as int;
    if n > 0 {
        let st = row_major_strides(s);
        lemma_row_major_prefix(s);
        assert(s.subrange(n, n) =~= Seq::<usize>::empty());
        assert(st.last() == 1);
        lemma_offset_scale(
            idx.drop_last(),
            row_major_strides(s.drop_last()),
            st.drop_last(),
            s.last() as int,
        );
        lemma_row_major_offset(idx.drop_last(), s.drop_last());
        let a = row_major_index(idx.drop_last(), s.drop_last());
        assert(s.last() * a == a * s.last()) by (nonlinear_arith);
    }
}

/// Strides reproduce naive addressing: for a tensor of rank at least two in
/// either layout, the offset that the strides of `layout_strides` give to
/// an index equals its position when whole matrices are stored one after the
/// other, each row by row (`RowMajor`) or column by column (`ColMajor`).
pub proof fn lemma_strides_match_naive_offset(
    shape: Seq<usize>,
    layout: MatrixLayout,
    idx: Seq<int>,
)
    requires
        shape.len() >= 2,
        idx.len() == shape.len(),
    ensures
        strided_offset(idx, layout_strides(shape, layout)) == naive_offset(idx, shape, layout),
{
    let n = shape.len() as int;
    let b = idx.subrange(0, n - 2);
    let bs = shape.subrange(0, n - 2);
    let rows = shape[n - 2] as int;
    let cols = shape[n - 1] as int;
    let (i, j) = (idx[n - 2], idx[n - 1]);
    assert(idx.drop_last().drop_last() =~= b);
    assert(shape.drop_last().drop_last() =~= bs);
    let bi = row_major_index(b, bs);
    match layout {
        MatrixLayout::RowMajor => {
            lemma_row_major_offset(idx, shape);
            assert(row_major_index(idx.drop_last(), shape.drop_last()) == bi * rows + i);
            assert((bi * rows + i) * cols + j == bi * (rows * cols) + i * cols + j)
                by (nonlinear_arith);
        },
        MatrixLayout::ColMajor => {
            let st = layout_strides(shape, layout);
            let inner = st.drop_last().drop_last();
            assert forall|t: int| 0 <= t < n - 2 implies inner[t] == row_major_strides(bs)[t] * (
            rows * cols) by {
                let a = bs.subrange(t + 1, n - 2);
                assert(shape.subrange(t + 1, n) =~= a + seq![shape[n - 2], shape[n - 1]]);
                lemma_product_pair(a, shape[n - 2], shape[n - 1]);
                assert(product(a) * rows * cols == product(a) * (rows * cols)) by (nonlinear_arith);
            }
            lemma_offset_scale(b, row_major_strides(bs), inner, rows * cols);
            lemma_row_major_offset(b, bs);
            assert(st.drop_last().drop_last() == inner);
            assert(strided_offset(idx, st) == strided_offset(idx.drop_last(), st.drop_last()) + j
                * rows);
            assert(strided_offset(idx.drop_last(), st.drop_last()) == strided_offset(b, inner) + i
                * 1);
            assert((rows * cols) * bi == bi * (rows * cols)) by (nonlinear_arith);
        },
    }
}

/// Every suffix of `s`, the whole of it included, has a product that
/// `usize` can hold: its row-major strides and its element count fit.
pub open spec fn suffixes_fit(s: Seq<usize>) -> bool {
    forall|i: int|
        0 <= i <= s.len() ==> #[trigger] product(s.subrange(i, s.len() as int)) <= usize::MAX
}

/// The strides and element counts of every tensor of the problem, and the
/// number of output batches, fit in `usize`.
pub open spec fn sizes_fit(m: usize, n: usize, k: usize, l: Seq<usize>, r: Seq<usize>) -> bool {
    &&& suffixes_fit(l + seq![m, k])
    &&& suffixes_fit(r + seq![k, n])
    &&& suffixes_fit(batch_broadcast(l, r) + seq![m, n])
    &&& suffixes_fit(batch_broadcast(l, r))
}

fn compatible(l: &Vec<usize>, r: &Vec<usize>) -> (b: bool)
    ensures
        b == broadcast_compatible(l@, r@),
{
    if l.len() != r.len() {
        return false;
    }
    let mut i: usize = 0;
    while i < l.len()
        invariant
            i <= l.len(),
            l.len() == r.len(),
            forall|j: int| 0 <= j < i ==> l@[j] == r@[j] || l@[j] == 1 || r@[j] == 1,
        decreases l.len() - i,
    {
        if !(l[i] == r[i] || l[i] == 1 || r[i] == 1) {
            return false;
        }
        i = i + 1;
    }
    true
}

fn broadcast(l: &Vec<usize>, r: &Vec<usize>) -> (out: Vec<usize>)
    requires
        l.len() == r.len(),
    ensures
        out@ == batch_broadcast(l@, r@),
{
    let mut out: Vec<usize> = Vec::new();
    let mut i: usize = 0;
    while i < l.len()
        invariant
            i <= l.len(),
            l.len() == r.len(),
            out@ =~= batch_broadcast(l@, r@).subrange(0, i as int),
        decreases l.len() - i,
    {
        if l[i] >= r[i] {
            out.push(l[i]);
        } else {
            out.push(r[i]);
        }
        i = i + 1;
    }
    out
}

/// `batch` followed by `rows` and `cols`.
fn with_matrix_axes(batch: &Vec<usize>, rows: usize, cols: usize) -> (r: Vec<usize>)
    ensures
        r@ == batch@ + seq![rows, cols],
{
    let mut r: Vec<usize> = Vec::new();
    let mut i: usize = 0;
    while i < batch.len()
        invariant
            i <= batch.len(),
            r@ =~= batch@.subrange(0, i as int),
        decreases batch.len() - i,
    {
        r.push(batch[i]);
        i = i + 1;
    }
    r.push(rows);
    r.push(cols);
    assert(r@ =~= batch@ + seq![rows, cols]);
    r
}

/// The product of `v`, or `None` when some suffix product of `v` exceeds
/// `usize::MAX`.
fn checked_product(v: &Vec<usize>) -> (r: Option<usize>)
    ensures
        match r {
            Some(p) => p == product(v@) && suffixes_fit(v@),
            None => !suffixes_fit(v@),
        },
{
    let n = v.len();
    let mut acc: usize = 1;
    let mut i: usize = n;
    proof {
        assert(v@.subrange(n as int, n as int) =~= Seq::<usize>::empty());
    }
    while i > 0
        invariant
            i <= n == v.len(),
            acc == product(v@.subrange(i as int, n as int)),
            forall|j: int|
                i <= j <= n ==> #[trigger] product(v@.subrange(j, n as int)) <= usize::MAX,
        decreases i,
    {
        proof {
            lemma_suffix_step(v@, i - 1);
            assert(product(v@.subrange(i - 1, n as int)) == acc * v@[i - 1]) by (nonlinear_arith)
                requires
                    product(v@.subrange(i - 1, n as int)) == v@[i - 1] * product(
                        v@.subrange(i as int, n as int),
                    ),
                    acc == product(v@.subrange(i as int, n as int)),
            ;
        }
        match acc.checked_mul(v[i - 1]) {
            Some(x) => acc = x,
            None => {
                assert(product(v@.subrange(i - 1, n as int)) > usize::MAX);
                return None;
            },
        }
        i = i - 1;
    }
    proof {
        assert(v@.subrange(0, n as int) =~= v@);
    }
    Some(acc)
}

/// Whether `size` is a usable line width for an axis of extent `extent`.
pub open spec fn line_size_divides(size: u8, extent: usize) -> bool {
    size > 0 && extent % (size as usize) == 0
}

/// The largest of `supported` that divides `extent`, or 0 when none does.
pub open spec fn best_line_size(supported: Seq<u8>, extent: usize) -> u8
    decreases supported.len(),
{
    if supported.len() == 0 {
        0
    } else {
        let b = best_line_size(supported.drop_last(), extent);
        let c = supported.last();
        if line_size_divides(c, extent) && c > b {
            c
        } else {
            b
        }
    }
}

/// Line width for an axis of extent `extent` and stride `stride`: 1 unless
/// the axis is contiguous, else the largest of `supported` that divides the
/// extent, or 1 when none does.
pub open spec fn spec_line_size(supported: Seq<u8>, extent: usize, stride: int) -> u8 {
    if stride != 1 || best_line_size(supported, extent) == 0 {
        1
    } else {
        best_line_size(supported, extent)
    }
}

/// Line width for reading a tensor along `axis`: 1 when that axis is not
/// contiguous (stride other than 1); else the largest width the device
/// supports that divides the axis extent, or 1 when none does.
pub fn tensor_line_size(
    supported: &Vec<u8>,
    shape: &Vec<usize>,
    strides: &Vec<usize>,
    axis: usize,
) -> (r: u8)
    requires
        axis < shape.len(),
        axis < strides.len(),
    ensures
        r == spec_line_size(supported@, shape@[axis as int], strides@[axis as int] as int),
{
    if strides[axis] != 1 {
        return 1;
    }
    let extent = shape[axis];
    let mut best: u8 = 0;
    let mut i: usize = 0;
    while i < supported.len()
        invariant
            i <= supported.len(),
            best == best_line_size(supported@.subrange(0, i as int), extent),
        decreases supported.len() - i,
    {
        proof {
            assert(supported@.subrange(0, i + 1).drop_last() =~= supported@.subrange(0, i as int));
        }
        let c = supported[i];
        if c > 0 && extent % (c as usize) == 0 && c > best {
            best = c;
        }
        i = i + 1;
    }
    proof {
        assert(supported@.subrange(0, i as int) =~= supported@);
    }
    if best == 0 {
        1
    } else {
        best
    }
}

/// A problem that keeps every field of `self` but the three line sizes.
pub open spec fn same_but_line_sizes(a: MatmulProblem, b: MatmulProblem) -> bool {
    &&& a.m == b.m && a.n == b.n && a.k == b.k
    &&& a.lhs_batches@ == b.lhs_batches@ && a.rhs_batches@ == b.rhs_batches@
    &&& a.lhs_layout == b.lhs_layout && a.rhs_layout == b.rhs_layout
}

impl MatmulProblem {
    pub open spec fn spec_layout(&self, ident: Ident) -> MatrixLayout {
        match ident {
            Ident::Lhs => self.lhs_layout,
            Ident::Rhs => self.rhs_layout,
            Ident::Out => MatrixLayout::RowMajor,
        }
    }

    /// The batch shape of the output.
    pub open spec fn spec_batch_dims(&self) -> Seq<usize> {
        batch_broadcast(self.lhs_batches@, self.rhs_batches@)
    }

    /// Shape of a tensor: its batch axes, then rows and columns.
    pub open spec fn spec_shape(&self, ident: Ident) -> Seq<usize> {
        match ident {
            Ident::Lhs => self.lhs_batches@ + seq![self.m, self.k],
            Ident::Rhs => self.rhs_batches@ + seq![self.k, self.n],
            Ident::Out => self.spec_batch_dims() + seq![self.m, self.n],
        }
    }

    /// Batch shapes compatible; the strides and element count of every
    /// tensor, and the number of output batches, fit in `usize`.
    pub open spec fn wf(&self) -> bool {
        &&& broadcast_compatible(self.lhs_batches@, self.rhs_batches@)
        &&& forall|id: Ident| #[trigger] suffixes_fit(self.spec_shape(id))
        &&& suffixes_fit(self.spec_batch_dims())
    }

    /// A problem with line size 1 for every tensor, refused when the batch
    /// shapes cannot be broadcast together or when a size does not fit in
    /// `usize`. Empty axes are allowed.
    pub fn new(
        m: usize,
        n: usize,
        k: usize,
        lhs_batches: Vec<usize>,
        rhs_batches: Vec<usize>,
        lhs_layout: MatrixLayout,
        rhs_layout: MatrixLayout,
    ) -> (r: Result<MatmulProblem, ProblemError>)
        ensures
            r is Ok <==> broadcast_compatible(lhs_batches@, rhs_batches@) && sizes_fit(
                m,
                n,
                k,
                lhs_batches@,
                rhs_batches@,
            ),
            match r {
                Ok(p) => {
                    &&& p.wf()
                    &&& p.m == m && p.n == n && p.k == k
                    &&& p.lhs_batches@ == lhs_batches@ && p.rhs_batches@ == rhs_batches@
                    &&& p.lhs_layout == lhs_layout && p.rhs_layout == rhs_layout
                    &&& p.lhs_line_size == 1 && p.rhs_line_size == 1 && p.out_line_size == 1
                },
                Err(ProblemError::BatchRankMismatch) => lhs_batches@.len() != rhs_batches@.len(),
                Err(ProblemError::BatchNotBroadcastable) => lhs_batches@.len()
                    == rhs_batches@.len() && !broadcast_compatible(lhs_batches@, rhs_batches@),
                Err(ProblemError::TooLarge) => broadcast_compatible(lhs_batches@, rhs_batches@)
                    && !sizes_fit(m, n, k, lhs_batches@, rhs_batches@),
            },
    {
        if lhs_batches.len() != rhs_batches.len() {
            return Err(ProblemError::BatchRankMismatch);
        }
        if !compatible(&lhs_batches, &rhs_batches) {
            return Err(ProblemError::BatchNotBroadcastable);
        }
        let out_batches = broadcast(&lhs_batches, &rhs_batches);
        let lhs_shape = with_matrix_axes(&lhs_batches, m, k);
        let rhs_shape = with_matrix_axes(&rhs_batches, k, n);
        let out_shape = with_matrix_axes(&out_batches, m, n);
        let lhs_size = checked_product(&lhs_shape);
        let rhs_size = checked_product(&rhs_shape);
        let out_size = checked_product(&out_shape);
        let batch_count = checked_product(&out_batches);
        if lhs_size.is_none() || rhs_size.is_none() || out_size.is_none() || batch_count.is_none() {
            return Err(ProblemError::TooLarge);
        }
        let p = MatmulProblem {
            m,
            n,
            k,
            lhs_batches,
            rhs_batches,
            lhs_layout,
            rhs_layout,
            lhs_line_size: 1,
            rhs_line_size: 1,
            out_line_size: 1,
        };
        proof {
            assert(p.spec_shape(Ident::Lhs) == lhs_shape@);
            assert(p.spec_shape(Ident::Rhs) == rhs_shape@);
            assert(p.spec_shape(Ident::Out) == out_shape@);
            assert forall|id: Ident| #[trigger] suffixes_fit(p.spec_shape(id)) by {
                match id {
                    Ident::Lhs => {},
                    Ident::Rhs => {},
                    Ident::Out => {},
                }
            }
        }
        Ok(p)
    }

    /// Batch shape of the output: the broadcast of the two operands' ones.
    pub fn batch_dims(&self) -> (r: Vec<usize>)
        requires
            self.wf(),
        ensures
            r@ == self.spec_batch_dims(),
    {
        broadcast(&self.lhs_batches, &self.rhs_batches)
    }

    /// Shape of a tensor: batch axes, then rows and columns.
    pub fn shape(&self, ident: Ident) -> (r: Vec<usize>)
        requires
            self.wf(),
        ensures
            r@ == self.spec_shape(ident),
            ident == Ident::Out ==> r@ == batch_broadcast(self.lhs_batches@, self.rhs_batches@)
                + seq![self.m, self.n],
            ident == Ident::Lhs ==> r@ == self.lhs_batches@ + seq![self.m, self.k],
            ident == Ident::Rhs ==> r@ == self.rhs_batches@ + seq![self.k, self.n],
    {
        match ident {
            Ident::Lhs => with_matrix_axes(&self.lhs_batches, self.m, self.k),
            Ident::Rhs => with_matrix_axes(&self.rhs_batches, self.k, self.n),
            Ident::Out => {
                let b = self.batch_dims();
                with_matrix_axes(&b, self.m, self.n)
            },
        }
    }

    /// Number of elements of a tensor.
    pub fn tensor_size(&self, ident: Ident) -> (r: usize)
        requires
            self.wf(),
        ensures
            r == product(self.spec_shape(ident)),
    {
        let shape = self.shape(ident);
        assert(suffixes_fit(self.spec_shape(ident)));
        match checked_product(&shape) {
            Some(p) => p,
            None => 0,
        }
    }

    /// Number of matrices in the output batch.
    pub fn num_batches(&self) -> (r: usize)
        requires
            self.wf(),
        ensures
            r == product(self.spec_batch_dims()),
    {
        let dims = self.batch_dims();
        match checked_product(&dims) {
            Some(p) => p,
            None => 0,
        }
    }

    /// Strides of a tensor in its layout: row-major strides over its shape,
    /// with the two innermost ones swapped to `1` and the row count for a
    /// column-major operand.
    pub fn strides(&self, ident: Ident) -> (r: Vec<usize>)
        requires
            self.wf(),
        ensures
            r@.len() == self.spec_shape(ident).len(),
            forall|i: int|
                0 <= i < r@.len() ==> r@[i] as int == layout_strides(
                    self.spec_shape(ident),
                    self.spec_layout(ident),
                )[i],
    {
        let shape = self.shape(ident);
        let n = shape.len();
        let mut st: Vec<usize> = Vec::new();
        let mut z: usize = 0;
        while z < n
            invariant
                z <= n,
                st@.len() == z,
            decreases n - z,
        {
            st.push(0);
            z = z + 1;
        }
        proof {
            assert(shape@.subrange(n as int, n as int) =~= Seq::<usize>::empty());
            assert(suffixes_fit(shape@));
        }
        let mut acc: usize = 1;
        let mut i: usize = n;
        while i > 0
            invariant
                i <= n == shape@.len() == st@.len(),
                shape@ == self.spec_shape(ident),
                suffixes_fit(shape@),
                acc == product(shape@.subrange(i as int, n as int)),
                forall|j: int| i <= j < n ==> st@[j] as int == row_major_strides(shape@)[j],
            decreases i,
        {
            st.set(i - 1, acc);
            proof {
                lemma_suffix_step(shape@, i - 1);
                assert(product(shape@.subrange(i - 1, n as int)) <= usize::MAX);
                assert(acc * shape@[i - 1] == shape@[i - 1] * acc) by (nonlinear_arith);
            }
            acc = acc * shape[i - 1];
            i = i - 1;
        }
        assert(n >= 2);
        if self.layout(ident) == MatrixLayout::ColMajor {
            let rows = shape[n - 2];
            st.set(n - 2, 1);
            st.set(n - 1, rows);
        }
        st
    }

    /// Set the line sizes of the three tensors.
    pub fn set_line_sizes(&mut self, lhs: u8, rhs: u8, out: u8)
        ensures
            same_but_line_sizes(*final(self), *old(self)),
            final(self).lhs_line_size == lhs,
            final(self).rhs_line_size == rhs,
            final(self).out_line_size == out,
            old(self).wf() ==> final(self).wf(),
    {
        self.lhs_line_size = lhs;
        self.rhs_line_size = rhs;
        self.out_line_size = out;
        proof {
            assert forall|id: Ident| self.spec_shape(id) == old(self).spec_shape(id) by {}
        }
    }

    /// The line size of a tensor.
    pub open spec fn spec_line_size_of(&self, ident: Ident) -> u8 {
        match ident {
            Ident::Lhs => self.lhs_line_size,
            Ident::Rhs => self.rhs_line_size,
            Ident::Out => self.out_line_size,
        }
    }

    /// The line size `derive_line_sizes` gives a tensor: the line width of
    /// its last axis, with the stride its layout gives that axis.
    pub open spec fn spec_derived_line_size(&self, supported: Seq<u8>, ident: Ident) -> u8 {
        let shape = self.spec_shape(ident);
        let n = shape.len() as int;
        spec_line_size(
            supported,
            shape[n - 1],
            layout_strides(shape, self.spec_layout(ident))[n - 1],
        )
    }

    fn derived_line_size(&self, supported: &Vec<u8>, ident: Ident) -> (r: u8)
        requires
            self.wf(),
        ensures
            r == self.spec_derived_line_size(supported@, ident),
    {
        let shape = self.shape(ident);
        let strides = self.strides(ident);
        let n = shape.len();
        assert(n >= 2);
        tensor_line_size(supported, &shape, &strides, n - 1)
    }

    /// Set each tensor's line size from the widths the device supports:
    /// the line width along its last axis.
    pub fn derive_line_sizes(&mut self, supported: &Vec<u8>)
        requires
            old(self).wf(),
        ensures
            final(self).wf(),
            same_but_line_sizes(*final(self), *old(self)),
            forall|id: Ident|
                #[trigger] final(self).spec_line_size_of(id) == old(
                    self,
                ).spec_derived_line_size(supported@, id),
    {
        let l = self.derived_line_size(supported, Ident::Lhs);
        let r = self.derived_line_size(supported, Ident::Rhs);
        let o = self.derived_line_size(supported, Ident::Out);
        self.set_line_sizes(l, r, o);
        proof {
            assert forall|id: Ident| #[trigger] self.spec_line_size_of(id) == old(
                self,
            ).spec_derived_line_size(supported@, id) by {
                match id {
                    Ident::Lhs => {},
                    Ident::Rhs => {},
                    Ident::Out => {},
                }
            }
        }
    }

    /// Layout of a tensor; the output is always row-major.
    pub fn layout(&self, ident: Ident) -> (r: MatrixLayout)
        ensures
            r == self.spec_layout(ident),
    {
        match ident {
            Ident::Lhs => self.lhs_layout,
            Ident::Rhs => self.rhs_layout,
            Ident::Out => MatrixLayout::RowMajor,
        }
    }
}

} // verus!
