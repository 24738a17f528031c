use cubecl::problem::{tensor_line_size, Ident, MatmulProblem, MatrixLayout, ProblemError};

fn problem(m: usize, n: usize, k: usize, lb: Vec<usize>, rb: Vec<usize>) -> MatmulProblem {
    MatmulProblem::new(m, n, k, lb, rb, MatrixLayout::RowMajor, MatrixLayout::RowMajor).unwrap()
}

#[test]
fn output_shape_is_broadcast_batch_then_m_n() {
    let p = problem(4, 5, 6, vec![3, 1, 2], vec![1, 7, 2]);
    assert_eq!(p.batch_dims(), vec![3, 7, 2]);
    assert_eq!(p.shape(Ident::Out), vec![3, 7, 2, 4, 5]);
    assert_eq!(p.shape(Ident::Lhs), vec![3, 1, 2, 4, 6]);
    assert_eq!(p.shape(Ident::Rhs), vec![1, 7, 2, 6, 5]);
    assert_eq!(p.num_batches(), 42);
}

#[test]
fn unbatched_problem_has_one_batch() {
    let p = problem(2, 3, 4, vec![], vec![]);
    assert_eq!(p.shape(Ident::Out), vec![2, 3]);
    assert_eq!(p.num_batches(), 1);
    assert_eq!(p.strides(Ident::Out), vec![3, 1]);
}

#[test]
fn row_major_strides_are_suffix_products() {
    let p = problem(4, 5, 6, vec![2, 3], vec![2, 3]);
    assert_eq!(p.strides(Ident::Lhs), vec![3 * 4 * 6, 4 * 6, 6, 1]);
    assert_eq!(p.strides(Ident::Out), vec![3 * 4 * 5, 4 * 5, 5, 1]);
}

#[test]
fn col_major_swaps_innermost_strides() {
    let p = MatmulProblem::new(
        4,
        5,
        6,
        vec![2, 3],
        vec![2, 3],
        MatrixLayout::ColMajor,
        MatrixLayout::ColMajor,
    )
    .unwrap();
    assert_eq!(p.strides(Ident::Lhs), vec![72, 24, 1, 4]);
    assert_eq!(p.strides(Ident::Rhs), vec![90, 30, 1, 6]);
    assert_eq!(p.strides(Ident::Out), vec![60, 20, 5, 1]);
}

#[test]
fn strides_address_like_naive_layout() {
    let p = MatmulProblem::new(3, 4, 5, vec![2], vec![2], MatrixLayout::ColMajor, MatrixLayout::RowMajor)
        .unwrap();
    let lhs = p.strides(Ident::Lhs);
    let rhs = p.strides(Ident::Rhs);
    for b in 0..2 {
        for i in 0..3 {
            for j in 0..5 {
                let off = b * lhs[0] + i * lhs[1] + j * lhs[2];
                assert_eq!(off, b * 15 + j * 3 + i);
            }
        }
        for i in 0..5 {
            for j in 0..4 {
                let off = b * rhs[0] + i * rhs[1] + j * rhs[2];
                assert_eq!(off, b * 20 + i * 4 + j);
            }
        }
    }
}

#[test]
fn example_fixture_shapes_and_strides() {
    let row = problem(64, 64, 32, vec![1], vec![1]);
    assert_eq!(row.shape(Ident::Lhs), vec![1, 64, 32]);
    assert_eq!(row.shape(Ident::Rhs), vec![1, 32, 64]);
    assert_eq!(row.shape(Ident::Out), vec![1, 64, 64]);
    assert_eq!(row.strides(Ident::Rhs), vec![2048, 64, 1]);
    assert_eq!(row.tensor_size(Ident::Out), 4096);
    let col = MatmulProblem::new(64, 64, 32, vec![1], vec![1], MatrixLayout::RowMajor, MatrixLayout::ColMajor)
        .unwrap();
    assert_eq!(col.shape(Ident::Rhs), row.shape(Ident::Rhs));
    assert_eq!(col.strides(Ident::Rhs), vec![2048, 1, 32]);
}

#[test]
fn tensor_sizes() {
    let p = problem(4, 5, 6, vec![3, 1], vec![1, 2]);
    assert_eq!(p.tensor_size(Ident::Lhs), 3 * 4 * 6);
    assert_eq!(p.tensor_size(Ident::Rhs), 2 * 6 * 5);
    assert_eq!(p.tensor_size(Ident::Out), 6 * 4 * 5);
}

#[test]
fn batch_rank_mismatch_is_refused() {
    let r = MatmulProblem::new(2, 2, 2, vec![1], vec![], MatrixLayout::RowMajor, MatrixLayout::RowMajor);
    assert_eq!(r.unwrap_err(), ProblemError::BatchRankMismatch);
}

#[test]
fn incompatible_batches_are_refused() {
    let r = MatmulProblem::new(2, 2, 2, vec![3], vec![2], MatrixLayout::RowMajor, MatrixLayout::RowMajor);
    assert_eq!(r.unwrap_err(), ProblemError::BatchNotBroadcastable);
}

#[test]
fn empty_axes_are_accepted() {
    let p = MatmulProblem::new(0, 2, 3, vec![], vec![], MatrixLayout::RowMajor, MatrixLayout::RowMajor)
        .unwrap();
    assert_eq!(p.shape(Ident::Out), vec![0, 2]);
    assert_eq!(p.tensor_size(Ident::Lhs), 0);
    assert_eq!(p.strides(Ident::Lhs), vec![3, 1]);
    assert_eq!(p.num_batches(), 1);
    let q = MatmulProblem::new(2, 2, 2, vec![0], vec![1], MatrixLayout::RowMajor, MatrixLayout::RowMajor)
        .unwrap();
    assert_eq!(q.batch_dims(), vec![1]);
    let q = MatmulProblem::new(2, 2, 2, vec![0], vec![0], MatrixLayout::RowMajor, MatrixLayout::RowMajor)
        .unwrap();
    assert_eq!(q.num_batches(), 0);
    assert_eq!(q.tensor_size(Ident::Out), 0);
    assert_eq!(q.strides(Ident::Out), vec![4, 2, 1]);
}

#[test]
fn unrepresentable_strides_are_refused_even_when_empty() {
    let big = 1usize << 40;
    let r = MatmulProblem::new(big, big, 1, vec![0], vec![0], MatrixLayout::RowMajor, MatrixLayout::RowMajor);
    assert_eq!(r.unwrap_err(), ProblemError::TooLarge);
}

#[test]
fn derive_line_sizes_uses_last_axis() {
    let mut p = MatmulProblem::new(64, 30, 32, vec![], vec![], MatrixLayout::ColMajor, MatrixLayout::RowMajor)
        .unwrap();
    p.derive_line_sizes(&vec![1, 2, 4, 8]);
    // lhs is column-major: its last axis has stride 64, so no vectorization.
    assert_eq!(p.lhs_line_size, 1);
    // rhs rows of 30: 2 is the largest supported width dividing 30.
    assert_eq!(p.rhs_line_size, 2);
    assert_eq!(p.out_line_size, 2);
    assert_eq!(p.shape(Ident::Lhs), vec![64, 32]);
}

#[test]
fn oversized_problem_is_refused() {
    let big = usize::MAX / 2;
    let r = MatmulProblem::new(big, 4, 4, vec![], vec![], MatrixLayout::RowMajor, MatrixLayout::RowMajor);
    assert_eq!(r.unwrap_err(), ProblemError::TooLarge);
}

#[test]
fn line_size_largest_dividing_width() {
    let shape = vec![64, 30];
    assert_eq!(tensor_line_size(&vec![1, 2, 4, 8], &shape, &vec![30, 1], 1), 2);
    assert_eq!(tensor_line_size(&vec![8, 4, 2, 1], &vec![64, 32], &vec![32, 1], 1), 8);
}

#[test]
fn line_size_one_when_axis_not_contiguous() {
    assert_eq!(tensor_line_size(&vec![4, 8], &vec![64, 32], &vec![1, 64], 1), 1);
}

#[test]
fn line_size_one_when_nothing_divides() {
    assert_eq!(tensor_line_size(&vec![4, 8], &vec![64, 3], &vec![3, 1], 1), 1);
    assert_eq!(tensor_line_size(&vec![], &vec![64, 32], &vec![32, 1], 1), 1);
}

#[test]
fn set_line_sizes_keeps_shape() {
    let mut p = problem(64, 64, 32, vec![], vec![]);
    p.set_line_sizes(4, 2, 8);
    assert_eq!((p.lhs_line_size, p.rhs_line_size, p.out_line_size), (4, 2, 8));
    assert_eq!(p.shape(Ident::Out), vec![64, 64]);
}
