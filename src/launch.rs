//! Strategy selection and dispatch: which kernel a launch runs, with which
//! configuration, and the fallback of the automatic strategy.
use vstd::prelude::*;

use crate::algorithm::{
    AvailabilityError, BatchDispatch, CubeDim, DeviceProperties, GlobalLoading,
    InvalidConfigError, MatmulConfig, MatmulSelection, StandardAlgorithm, TileMatmulKind,
    spec_availability, spec_cube_count, spec_default_selection, spec_make_config,
};
use crate::ir::Elem;
use crate::problem::{MatmulProblem, ProblemError};

verus! {

/// Settings of the portable two-dimensional tiling kernel.
#[derive(Clone, Copy, Debug, PartialEq, Eq, Structural)]
pub struct Tiling2dConfig {
    pub block_size_m: usize,
    pub block_size_k: usize,
    pub block_size_n: usize,
    pub tile_size: usize,
    pub unroll: bool,
}

pub open spec fn spec_default_tiling2d() -> Tiling2dConfig {
    Tiling2dConfig {
        block_size_m: 64,
        block_size_k: 32,
        block_size_n: 64,
        tile_size: 4,
        unroll: false,
    }
}

impl Default for Tiling2dConfig {
    /// Blocks of 64x32x64 with 4x4 tiles per unit, loops not unrolled.
    fn default() -> (r: Tiling2dConfig)
        ensures
            r == spec_default_tiling2d(),
    {
        Tiling2dConfig {
            block_size_m: 64,
            block_size_k: 32,
            block_size_n: 64,
            tile_size: 4,
            unroll: false,
        }
    }
}

/// The named ways to run a matrix multiplication.
#[derive(Clone, Copy, Debug, PartialEq, Eq, Structural)]
pub enum Strategy {
    /// Accelerated tiles, synchronous loading.
    Standard,
    /// Accelerated tiles, loading through the asynchronous copy pipeline.
    Pipelined,
    /// Accelerated tiles, planes specialized into loaders and computers.
    Specialized,
    /// Portable plane tiles, synchronous loading; very slow, for testing.
    PlaneMma,
    /// The non-tiled kernel.
    Simple,
    /// The portable tiling kernel with the given settings.
    Tiling2D(Tiling2dConfig),
    /// Standard when the device supports it, else the portable tiling kernel.
    Auto,
}

impl Default for Strategy {
    fn default() -> (r: Strategy)
        ensures
            r == Strategy::Auto,
    {
        Strategy::Auto
    }
}

/// Why a launch was refused.
#[derive(Clone, Copy, Debug, PartialEq, Eq, Structural)]
pub enum MatmulLaunchError {
    /// The device lacks what the algorithm needs.
    Unavailable(AvailabilityError),
    /// The problem description is malformed.
    InvalidProblem(ProblemError),
    /// The problem and tiling give no valid configuration.
    InvalidConfig(InvalidConfigError),
}

/// The kernel a launch runs.
#[derive(Clone, Copy, Debug, PartialEq, Eq, Structural)]
pub enum KernelLaunch {
    /// A composed algorithm with its validated configuration.
    Composed(MatmulConfig),
    /// The portable tiling kernel.
    Tiling2D(Tiling2dConfig),
    /// The non-tiled kernel.
    Simple,
}

/// The composed algorithm a strategy binds, if any.
pub open spec fn spec_algorithm_of(strategy: Strategy) -> Option<StandardAlgorithm> {
    match strategy {
        Strategy::Standard | Strategy::Auto => Some(
            StandardAlgorithm {
                tile: TileMatmulKind::Accelerated,
                global: GlobalLoading::Standard,
                dispatch: BatchDispatch::Transposed,
            },
        ),
        Strategy::Pipelined => Some(
            StandardAlgorithm {
                tile: TileMatmulKind::Accelerated,
                global: GlobalLoading::Pipelined,
                dispatch: BatchDispatch::Transposed,
            },
        ),
        Strategy::Specialized => Some(
            StandardAlgorithm {
                tile: TileMatmulKind::Accelerated,
                global: GlobalLoading::Specialized,
                dispatch: BatchDispatch::Transposed,
            },
        ),
        Strategy::PlaneMma => Some(
            StandardAlgorithm {
                tile: TileMatmulKind::PlaneMma,
                global: GlobalLoading::Standard,
                dispatch: BatchDispatch::Transposed,
            },
        ),
        _ => None,
    }
}

/// Grid, configuration and capability check of a composed algorithm, with
/// the default selection for the device's plane width. A device without
/// plane operations is refused as unavailable before anything else.
pub open spec fn spec_launch_composed(
    a: StandardAlgorithm,
    device: DeviceProperties,
    p: MatmulProblem,
    elem: Elem,
) -> Result<MatmulConfig, MatmulLaunchError> {
    let s = spec_default_selection(device.plane_dim);
    let cube_dim = CubeDim { x: s.plane_dim, y: s.num_stages.m, z: 1 };
    if !device.plane {
        Err(MatmulLaunchError::Unavailable(AvailabilityError::PlaneOperationsUnavailable))
    } else {
    match spec_cube_count(a.dispatch, s, p) {
        Err(e) => Err(MatmulLaunchError::InvalidConfig(e)),
        Ok(cube_count) => match spec_make_config(
            a,
            p,
            s,
            cube_dim,
            cube_count,
            StandardAlgorithm::spec_advanced_config(),
        ) {
            Err(e) => Err(MatmulLaunchError::InvalidConfig(e)),
            Ok(c) => match spec_availability(c, device, elem) {
                Err(e) => Err(MatmulLaunchError::Unavailable(e)),
                Ok(_) => Ok(c),
            },
        },
    }
    }
}

/// What a launch with `strategy` runs, or why it is refused.
pub open spec fn spec_launch(
    strategy: Strategy,
    device: DeviceProperties,
    p: MatmulProblem,
    elem: Elem,
) -> Result<KernelLaunch, MatmulLaunchError> {
    match strategy {
        Strategy::Simple => Ok(KernelLaunch::Simple),
        Strategy::Tiling2D(config) => Ok(KernelLaunch::Tiling2D(config)),
        Strategy::Auto => match spec_launch_composed(
            spec_algorithm_of(strategy).unwrap(),
            device,
            p,
            elem,
        ) {
            Ok(c) => Ok(KernelLaunch::Composed(c)),
            Err(MatmulLaunchError::Unavailable(_)) => Ok(
                KernelLaunch::Tiling2D(spec_default_tiling2d()),
            ),
            Err(e) => Err(e),
        },
        _ => match spec_launch_composed(spec_algorithm_of(strategy).unwrap(), device, p, elem) {
            Ok(c) => Ok(KernelLaunch::Composed(c)),
            Err(e) => Err(e),
        },
    }
}

fn algorithm_of(strategy: &Strategy) -> (r: Option<StandardAlgorithm>)
    ensures
        r == spec_algorithm_of(*strategy),
{
    match strategy {
        Strategy::Standard | Strategy::Auto => Some(
            StandardAlgorithm {
                tile: TileMatmulKind::Accelerated,
                global: GlobalLoading::Standard,
                dispatch: BatchDispatch::Transposed,
            },
        ),
        Strategy::Pipelined => Some(
            StandardAlgorithm {
                tile: TileMatmulKind::Accelerated,
                global: GlobalLoading::Pipelined,
                dispatch: BatchDispatch::Transposed,
            },
        ),
        Strategy::Specialized => Some(
            StandardAlgorithm {
                tile: TileMatmulKind::Accelerated,
                global: GlobalLoading::Specialized,
                dispatch: BatchDispatch::Transposed,
            },
        ),
        Strategy::PlaneMma => Some(
            StandardAlgorithm {
                tile: TileMatmulKind::PlaneMma,
                global: GlobalLoading::Standard,
                dispatch: BatchDispatch::Transposed,
            },
        ),
        _ => None,
    }
}

/// Resolve the grid and configuration of a composed algorithm and check the
/// device can run it.
pub fn launch_composed(
    algorithm: &StandardAlgorithm,
    device: &DeviceProperties,
    problem: &MatmulProblem,
    elem: Elem,
) -> (r: Result<MatmulConfig, MatmulLaunchError>)
    requires
        problem.wf(),
    ensures
        r == spec_launch_composed(*algorithm, *device, *problem, elem),
{
    if !device.plane {
        return Err(MatmulLaunchError::Unavailable(AvailabilityError::PlaneOperationsUnavailable));
    }
    let selection = MatmulSelection::default_for(device.plane_dim);
    let cube_dim = StandardAlgorithm::cube_dim(&selection);
    let cube_count = match algorithm.cube_count(&selection, problem) {
        Ok(c) => c,
        Err(e) => {
            return Err(MatmulLaunchError::InvalidConfig(e));
        },
    };
    let advanced = StandardAlgorithm::advanced_config();
    let config = match algorithm.make_config(problem, &selection, &cube_dim, &cube_count, &advanced) {
        Ok(c) => c,
        Err(e) => {
            return Err(MatmulLaunchError::InvalidConfig(e));
        },
    };
    match StandardAlgorithm::check_availability(&config, device, elem) {
        Ok(()) => Ok(config),
        Err(e) => Err(MatmulLaunchError::Unavailable(e)),
    }
}

/// Decide what a launch with `strategy` runs on `device` for `problem` with
/// elements of type `elem`. A composed strategy resolves its algorithm,
/// grid and configuration, then checks the device; any error is returned.
/// `Auto` tries `Standard` and, only when the device lacks a capability
/// for it, falls back to the portable tiling kernel with its default
/// settings; other errors are returned to the caller.
pub fn launch_ref(
    strategy: &Strategy,
    device: &DeviceProperties,
    problem: &MatmulProblem,
    elem: Elem,
) -> (r: Result<KernelLaunch, MatmulLaunchError>)
    requires
        problem.wf(),
    ensures
        r == spec_launch(*strategy, *device, *problem, elem),
{
    match strategy {
        Strategy::Simple => Ok(KernelLaunch::Simple),
        Strategy::Tiling2D(config) => Ok(KernelLaunch::Tiling2D(*config)),
        Strategy::Auto => {
            let algorithm = algorithm_of(strategy).unwrap();
            match launch_composed(&algorithm, device, problem, elem) {
                Ok(c) => Ok(KernelLaunch::Composed(c)),
                Err(MatmulLaunchError::Unavailable(_)) => Ok(
                    KernelLaunch::Tiling2D(Tiling2dConfig::default()),
                ),
                Err(e) => Err(e),
            }
        },
        _ => {
            let algorithm = algorithm_of(strategy).unwrap();
            match launch_composed(&algorithm, device, problem, elem) {
                Ok(c) => Ok(KernelLaunch::Composed(c)),
                Err(e) => Err(e),
            }
        },
    }
}

/// Same decision as `launch_ref`, for a problem handed over by value.
pub fn launch(
    strategy: &Strategy,
    device: &DeviceProperties,
    problem: MatmulProblem,
    elem: Elem,
) -> (r: Result<KernelLaunch, MatmulLaunchError>)
    requires
        problem.wf(),
    ensures
        r == spec_launch(*strategy, *device, problem, elem),
{
    launch_ref(strategy, device, &problem, elem)
}

/// The device has no matrix-multiply instruction whose operands are `elem`.
pub open spec fn lacks_cmma_for(device: DeviceProperties, elem: Elem) -> bool {
    forall|i: int| 0 <= i < device.cmma@.len() ==> !(device.cmma@[i].a == elem && device.cmma@[i].b == elem)
}

/// The problem passes the structural rules of the standard algorithm with
/// the default selection for the device.
pub open spec fn standard_structurally_valid(device: DeviceProperties, p: MatmulProblem) -> bool {
    let a = spec_algorithm_of(Strategy::Standard).unwrap();
    let s = spec_default_selection(device.plane_dim);
    match spec_cube_count(a.dispatch, s, p) {
        Err(_) => false,
        Ok(cc) => spec_make_config(
            a,
            p,
            s,
            CubeDim { x: s.plane_dim, y: s.num_stages.m, z: 1 },
            cc,
            StandardAlgorithm::spec_advanced_config(),
        ) is Ok,
    }
}

/// On a device without a matrix-multiply instruction for the element type,
/// the standard strategy is refused as unavailable, for any problem that
/// is structurally valid for it (for any problem at all when the device
/// lacks plane operations).
pub proof fn lemma_standard_unavailable_without_cmma(
    device: DeviceProperties,
    p: MatmulProblem,
    elem: Elem,
)
    requires
        p.wf(),
        lacks_cmma_for(device, elem),
        device.plane ==> standard_structurally_valid(device, p),
    ensures
        spec_launch(Strategy::Standard, device, p, elem) matches Err(
            MatmulLaunchError::Unavailable(_),
        ),
{
    let a = spec_algorithm_of(Strategy::Standard).unwrap();
    let s = spec_default_selection(device.plane_dim);
    let cc = spec_cube_count(a.dispatch, s, p)->Ok_0;
    let c = spec_make_config(
        a,
        p,
        s,
        CubeDim { x: s.plane_dim, y: s.num_stages.m, z: 1 },
        cc,
        StandardAlgorithm::spec_advanced_config(),
    )->Ok_0;
    if device.plane && device.types@.contains(elem) {
        let need = crate::algorithm::required_cmma(c, elem);
        if device.cmma@.contains(need) {
            let i = choose|i: int| 0 <= i < device.cmma@.len() && device.cmma@[i] == need;
            assert(device.cmma@[i].a == elem);
        }
    }
}

/// On a device without a matrix-multiply instruction for the element type,
/// the automatic strategy falls back to the portable tiling kernel with its
/// default settings, for any problem that is structurally valid for the
/// standard algorithm (for any problem at all when the device lacks plane
/// operations).
pub proof fn lemma_auto_falls_back_without_cmma(
    device: DeviceProperties,
    p: MatmulProblem,
    elem: Elem,
)
    requires
        p.wf(),
        lacks_cmma_for(device, elem),
        device.plane ==> standard_structurally_valid(device, p),
    ensures
        spec_launch(Strategy::Auto, device, p, elem) == Ok::<KernelLaunch, MatmulLaunchError>(
            KernelLaunch::Tiling2D(spec_default_tiling2d()),
        ),
{
    lemma_standard_unavailable_without_cmma(device, p, elem);
}

} // verus!
