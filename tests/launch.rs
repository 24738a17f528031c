use cubecl::algorithm::{
    AvailabilityError, BatchDispatch, CmmaShape, CubeCount, CubeDim, DeviceProperties,
    GlobalLoading, InvalidConfigError, MatmulSelection, StandardAlgorithm, TileMatmulKind,
    TilingOrder,
};
use cubecl::ir::{Elem, FloatKind};
use cubecl::launch::{launch, launch_ref, KernelLaunch, MatmulLaunchError, Strategy, Tiling2dConfig};
use cubecl::problem::{MatmulProblem, MatrixLayout};

const F32: Elem = Elem::Float(FloatKind::F32);

fn cmma_f32() -> CmmaShape {
    CmmaShape { a: F32, b: F32, c: F32, m: 16, k: 16, n: 16 }
}

fn device(cmma: bool) -> DeviceProperties {
    DeviceProperties {
        plane: true,
        plane_dim: 32,
        types: vec![Elem::Float(FloatKind::F16), F32],
        cmma: if cmma { vec![cmma_f32()] } else { vec![] },
    }
}

fn fixture() -> MatmulProblem {
    MatmulProblem::new(64, 64, 32, vec![1], vec![1], MatrixLayout::RowMajor, MatrixLayout::RowMajor)
        .unwrap()
}

fn standard() -> StandardAlgorithm {
    StandardAlgorithm {
        tile: TileMatmulKind::Accelerated,
        global: GlobalLoading::Standard,
        dispatch: BatchDispatch::Transposed,
    }
}

#[test]
fn standard_on_capable_device_is_composed() {
    let r = launch_ref(&Strategy::Standard, &device(true), &fixture(), F32).unwrap();
    match r {
        KernelLaunch::Composed(c) => {
            assert_eq!(c.algorithm, standard());
            assert_eq!(c.cube_dim, CubeDim { x: 32, y: 4, z: 1 });
            assert_eq!(c.cube_count, CubeCount { x: 1, y: 1, z: 1 });
            assert_eq!(c.advanced.lhs_tiling_order, TilingOrder::ColMajor);
        }
        other => panic!("unexpected {:?}", other),
    }
}

#[test]
fn standard_without_cmma_is_unavailable() {
    let r = launch_ref(&Strategy::Standard, &device(false), &fixture(), F32);
    assert_eq!(
        r,
        Err(MatmulLaunchError::Unavailable(AvailabilityError::CmmaInstructionUnavailable(cmma_f32())))
    );
}

#[test]
fn auto_without_cmma_falls_back_to_tiling2d() {
    let r = launch_ref(&Strategy::Auto, &device(false), &fixture(), F32);
    assert_eq!(r, Ok(KernelLaunch::Tiling2D(Tiling2dConfig::default())));
}

#[test]
fn auto_with_cmma_uses_standard() {
    let a = launch_ref(&Strategy::Auto, &device(true), &fixture(), F32);
    let s = launch_ref(&Strategy::Standard, &device(true), &fixture(), F32);
    assert_eq!(a, s);
    assert!(matches!(a, Ok(KernelLaunch::Composed(_))));
}

#[test]
fn auto_does_not_retry_invalid_config() {
    let mut p = fixture();
    p.set_line_sizes(3, 1, 1);
    let r = launch_ref(&Strategy::Auto, &device(false), &p, F32);
    assert_eq!(r, Err(MatmulLaunchError::InvalidConfig(InvalidConfigError::LineSizeMismatch)));
}

#[test]
fn missing_plane_support_is_unavailable() {
    let mut d = device(true);
    d.plane = false;
    let r = launch_ref(&Strategy::Pipelined, &d, &fixture(), F32);
    assert_eq!(r, Err(MatmulLaunchError::Unavailable(AvailabilityError::PlaneOperationsUnavailable)));
}

#[test]
fn missing_type_is_unavailable() {
    let r = launch_ref(&Strategy::Specialized, &device(true), &fixture(), Elem::Float(FloatKind::F64));
    assert_eq!(
        r,
        Err(MatmulLaunchError::Unavailable(AvailabilityError::TypeUnavailable(Elem::Float(FloatKind::F64))))
    );
}

#[test]
fn plane_mma_needs_no_cmma() {
    let r = launch(&Strategy::PlaneMma, &device(false), fixture(), F32).unwrap();
    match r {
        KernelLaunch::Composed(c) => assert_eq!(c.algorithm.tile, TileMatmulKind::PlaneMma),
        other => panic!("unexpected {:?}", other),
    }
}

#[test]
fn portable_strategies_always_launch() {
    let cfg = Tiling2dConfig { block_size_m: 32, block_size_k: 16, block_size_n: 32, tile_size: 2, unroll: true };
    assert_eq!(
        launch_ref(&Strategy::Tiling2D(cfg), &device(false), &fixture(), F32),
        Ok(KernelLaunch::Tiling2D(cfg))
    );
    assert_eq!(launch_ref(&Strategy::Simple, &device(false), &fixture(), F32), Ok(KernelLaunch::Simple));
    assert!(matches!(Strategy::default(), Strategy::Auto));
}

#[test]
fn tiling2d_defaults() {
    let d = Tiling2dConfig::default();
    assert_eq!((d.block_size_m, d.block_size_k, d.block_size_n, d.tile_size, d.unroll), (64, 32, 64, 4, false));
}

#[test]
fn cube_count_rounds_up_and_dispatches() {
    let p = MatmulProblem::new(100, 130, 8, vec![2, 3], vec![2, 1], MatrixLayout::RowMajor, MatrixLayout::RowMajor)
        .unwrap();
    let s = MatmulSelection::default_for(32);
    let t = standard();
    assert_eq!(t.cube_count(&s, &p), Ok(CubeCount { x: 3, y: 2, z: 6 }));
    let n = StandardAlgorithm { dispatch: BatchDispatch::Natural, ..t };
    assert_eq!(n.cube_count(&s, &p), Ok(CubeCount { x: 2, y: 3, z: 6 }));
}

#[test]
fn cube_count_errors() {
    let p = fixture();
    let mut s = MatmulSelection::default_for(32);
    s.tile.m = 0;
    assert_eq!(standard().cube_count(&s, &p), Err(InvalidConfigError::ZeroExtent));
    let mut s = MatmulSelection::default_for(32);
    s.num_stages.n = u32::MAX;
    assert_eq!(standard().cube_count(&s, &p), Err(InvalidConfigError::StageTooLarge));
    let big = MatmulProblem::new(1 << 40, 1, 1, vec![], vec![], MatrixLayout::RowMajor, MatrixLayout::RowMajor)
        .unwrap();
    let s = MatmulSelection::default_for(32);
    assert_eq!(standard().cube_count(&s, &big), Err(InvalidConfigError::GridTooLarge));
}

#[test]
fn cube_dim_is_plane_by_stage_rows() {
    let s = MatmulSelection::default_for(64);
    assert_eq!(StandardAlgorithm::cube_dim(&s), CubeDim { x: 64, y: 4, z: 1 });
}

#[test]
fn make_config_checks_line_sizes() {
    let mut p = MatmulProblem::new(64, 64, 32, vec![], vec![], MatrixLayout::ColMajor, MatrixLayout::RowMajor)
        .unwrap();
    let s = MatmulSelection::default_for(32);
    let a = standard();
    let cd = StandardAlgorithm::cube_dim(&s);
    let cc = a.cube_count(&s, &p).unwrap();
    let adv = StandardAlgorithm::advanced_config();
    p.set_line_sizes(4, 4, 4);
    assert!(a.make_config(&p, &s, &cd, &cc, &adv).is_ok());
    p.set_line_sizes(4, 0, 4);
    assert_eq!(a.make_config(&p, &s, &cd, &cc, &adv), Err(InvalidConfigError::LineSizeMismatch));
    let mut z = s;
    z.plane_dim = 0;
    assert_eq!(a.make_config(&p, &z, &cd, &cc, &adv), Err(InvalidConfigError::ZeroExtent));
}

#[test]
fn empty_problem_gets_empty_grid() {
    let p = MatmulProblem::new(0, 64, 32, vec![], vec![], MatrixLayout::RowMajor, MatrixLayout::RowMajor)
        .unwrap();
    let s = MatmulSelection::default_for(32);
    assert_eq!(standard().cube_count(&s, &p), Ok(CubeCount { x: 1, y: 0, z: 1 }));
}

#[test]
fn cube_count_ignores_plane_width_and_k_tiling() {
    let p = fixture();
    let mut s = MatmulSelection::default_for(0);
    s.tile.k = 0;
    s.num_stages.k = 0;
    assert_eq!(standard().cube_count(&s, &p), Ok(CubeCount { x: 1, y: 1, z: 1 }));
}

#[test]
fn auto_falls_back_without_plane_support() {
    let d = DeviceProperties { plane: false, plane_dim: 0, types: vec![F32], cmma: vec![] };
    assert_eq!(launch_ref(&Strategy::Auto, &d, &fixture(), F32), Ok(KernelLaunch::Tiling2D(Tiling2dConfig::default())));
    assert_eq!(
        launch_ref(&Strategy::Standard, &d, &fixture(), F32),
        Err(MatmulLaunchError::Unavailable(AvailabilityError::PlaneOperationsUnavailable))
    );
}
