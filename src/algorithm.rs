//! The standard composed algorithm: tiling selection, grid computation,
//! configuration and the device-capability check.
use vstd::prelude::*;

use crate::ir::{Elem, FloatKind};
use crate::problem::{MatmulProblem, MatrixLayout};

verus! {

/// Number of units per cube along each axis.
#[derive(Clone, Copy, Debug, PartialEq, Eq, Structural)]
pub struct CubeDim {
    pub x: u32,
    pub y: u32,
    pub z: u32,
}

/// Number of cubes of the grid along each axis.
#[derive(Clone, Copy, Debug, PartialEq, Eq, Structural)]
pub struct CubeCount {
    pub x: u32,
    pub y: u32,
    pub z: u32,
}

/// Extents of one tile product.
#[derive(Clone, Copy, Debug, PartialEq, Eq, Structural)]
pub struct TileShape {
    pub m: u32,
    pub n: u32,
    pub k: u32,
}

/// Number of tiles of one stage along each dimension.
#[derive(Clone, Copy, Debug, PartialEq, Eq, Structural)]
pub struct StageTiles {
    pub m: u32,
    pub n: u32,
    pub k: u32,
}

/// Tiling choices: plane width, tile shape and stage shape.
#[derive(Clone, Copy, Debug, PartialEq, Eq, Structural)]
pub struct MatmulSelection {
    pub plane_dim: u32,
    pub tile: TileShape,
    pub num_stages: StageTiles,
}

/// Order in which the tiles of a stage are traversed.
#[derive(Clone, Copy, Debug, PartialEq, Eq, Structural)]
pub enum TilingOrder {
    RowMajor,
    ColMajor,
}

/// Defaults an algorithm gives its configuration.
#[derive(Clone, Copy, Debug, PartialEq, Eq, Structural)]
pub struct AdvancedConfig {
    pub lhs_tiling_order: TilingOrder,
    pub rhs_tiling_order: TilingOrder,
    pub enforced_lhs_tile_layout: Option<MatrixLayout>,
    pub enforced_rhs_tile_layout: Option<MatrixLayout>,
}

/// How the tile product is computed.
#[derive(Clone, Copy, Debug, PartialEq, Eq, Structural)]
pub enum TileMatmulKind {
    /// Native matrix-multiply instructions.
    Accelerated,
    /// Portable plane-wide operations.
    PlaneMma,
}

/// How stages are streamed from global memory.
#[derive(Clone, Copy, Debug, PartialEq, Eq, Structural)]
pub enum GlobalLoading {
    /// Synchronous cyclic loading by every unit.
    Standard,
    /// Asynchronous loading through the copy pipeline.
    Pipelined,
    /// Some planes load while the others compute.
    Specialized,
}

/// How output tiles are mapped onto the grid.
#[derive(Clone, Copy, Debug, PartialEq, Eq, Structural)]
pub enum BatchDispatch {
    /// `x` runs over rows of tiles, `y` over columns.
    Natural,
    /// `x` runs over columns of tiles, `y` over rows.
    Transposed,
}

/// The standard composition: a tile product, multi-buffer stages, full
/// loading of each stage, and one cube per output stage.
#[derive(Clone, Copy, Debug, PartialEq, Eq, Structural)]
pub struct StandardAlgorithm {
    pub tile: TileMatmulKind,
    pub global: GlobalLoading,
    pub dispatch: BatchDispatch,
}

/// Why a problem and selection give no valid configuration.
#[derive(Clone, Copy, Debug, PartialEq, Eq, Structural)]
pub enum InvalidConfigError {
    /// A tile or stage extent, or the plane width, is zero (for the grid:
    /// a stage extent along rows or columns is zero).
    ZeroExtent,
    /// A stage extent does not fit in `u32`.
    StageTooLarge,
    /// The grid does not fit in `u32` along some axis.
    GridTooLarge,
    /// An operand's line size does not divide the tile extent along its
    /// contiguous axis.
    LineSizeMismatch,
}

/// Why the device cannot run an algorithm.
#[derive(Clone, Copy, Debug, PartialEq, Eq, Structural)]
pub enum AvailabilityError {
    PlaneOperationsUnavailable,
    TypeUnavailable(Elem),
    CmmaInstructionUnavailable(CmmaShape),
}

/// A native matrix-multiply instruction: element types of the operands and
/// accumulator, and fragment extents.
#[derive(Clone, Copy, Debug, PartialEq, Eq, Structural)]
pub struct CmmaShape {
    pub a: Elem,
    pub b: Elem,
    pub c: Elem,
    pub m: u32,
    pub k: u32,
    pub n: u32,
}

/// What the device reports it supports.
#[derive(Clone, Debug)]
pub struct DeviceProperties {
    /// Plane (warp) operations are available.
    pub plane: bool,
    /// Width of a plane.
    pub plane_dim: u32,
    /// Element types the device supports.
    pub types: Vec<Elem>,
    /// Native matrix-multiply instructions the device supports.
    pub cmma: Vec<CmmaShape>,
}

/// A configuration that passed every structural rule.
#[derive(Clone, Copy, Debug, PartialEq, Eq, Structural)]
pub struct MatmulConfig {
    pub algorithm: StandardAlgorithm,
    pub selection: MatmulSelection,
    pub cube_dim: CubeDim,
    pub cube_count: CubeCount,
    pub advanced: AdvancedConfig,
    pub lhs_layout: MatrixLayout,
    pub rhs_layout: MatrixLayout,
    pub lhs_line_size: u8,
    pub rhs_line_size: u8,
    pub out_line_size: u8,
}

pub open spec fn ceil_div(a: int, b: int) -> int {
    (a + b - 1) / b
}

/// The selection used by default: 16x16x16 tiles, stages of 4x4x2 tiles.
pub open spec fn spec_default_selection(plane_dim: u32) -> MatmulSelection {
    MatmulSelection {
        plane_dim,
        tile: TileShape { m: 16, n: 16, k: 16 },
        num_stages: StageTiles { m: 4, n: 4, k: 2 },
    }
}

/// Whether the selection has no zero extent.
pub open spec fn selection_nonzero(s: MatmulSelection) -> bool {
    s.plane_dim > 0 && s.tile.m > 0 && s.tile.n > 0 && s.tile.k > 0 && s.num_stages.m > 0
        && s.num_stages.n > 0 && s.num_stages.k > 0
}

/// Whether both stage extents fit in `u32`.
pub open spec fn stage_fits(s: MatmulSelection) -> bool {
    s.num_stages.m * s.tile.m <= u32::MAX && s.num_stages.n * s.tile.n <= u32::MAX
}

/// Cubes needed along rows, along columns and over the batch.
pub open spec fn grid_extents(s: MatmulSelection, p: MatmulProblem) -> (int, int, int) {
    (
        ceil_div(p.m as int, s.num_stages.m * s.tile.m),
        ceil_div(p.n as int, s.num_stages.n * s.tile.n),
        crate::problem::product(p.spec_batch_dims()),
    )
}

/// Grid of `cube_count`, or the reason it cannot be formed.
pub open spec fn spec_cube_count(
    d: BatchDispatch,
    s: MatmulSelection,
    p: MatmulProblem,
) -> Result<CubeCount, InvalidConfigError> {
    let (cm, cn, cb) = grid_extents(s, p);
    if !stage_fits(s) {
        Err(InvalidConfigError::StageTooLarge)
    } else if s.num_stages.m * s.tile.m == 0 || s.num_stages.n * s.tile.n == 0 {
        Err(InvalidConfigError::ZeroExtent)
    } else if cm > u32::MAX || cn > u32::MAX || cb > u32::MAX {
        Err(InvalidConfigError::GridTooLarge)
    } else {
        match d {
            BatchDispatch::Natural => Ok(CubeCount { x: cm as u32, y: cn as u32, z: cb as u32 }),
            BatchDispatch::Transposed => Ok(
                CubeCount { x: cn as u32, y: cm as u32, z: cb as u32 },
            ),
        }
    }
}

/// Whether `line` divides the tile extent along the contiguous axis.
pub open spec fn line_fits(line: u8, extent_row_major: u32, extent_col_major: u32, layout: MatrixLayout) -> bool {
    line > 0 && match layout {
        MatrixLayout::RowMajor => extent_row_major % (line as u32) == 0,
        MatrixLayout::ColMajor => extent_col_major % (line as u32) == 0,
    }
}

/// Whether the problem's line sizes suit the selection's tile.
pub open spec fn lines_fit(s: MatmulSelection, p: MatmulProblem) -> bool {
    &&& line_fits(p.lhs_line_size, s.tile.k, s.tile.m, p.lhs_layout)
    &&& line_fits(p.rhs_line_size, s.tile.n, s.tile.k, p.rhs_layout)
    &&& line_fits(p.out_line_size, s.tile.n, s.tile.n, MatrixLayout::RowMajor)
}

/// The configuration, or the first structural rule it breaks.
pub open spec fn spec_make_config(
    a: StandardAlgorithm,
    p: MatmulProblem,
    s: MatmulSelection,
    cube_dim: CubeDim,
    cube_count: CubeCount,
    advanced: AdvancedConfig,
) -> Result<MatmulConfig, InvalidConfigError> {
    if !selection_nonzero(s) {
        Err(InvalidConfigError::ZeroExtent)
    } else if !lines_fit(s, p) {
        Err(InvalidConfigError::LineSizeMismatch)
    } else {
        Ok(
            MatmulConfig {
                algorithm: a,
                selection: s,
                cube_dim,
                cube_count,
                advanced,
                lhs_layout: p.lhs_layout,
                rhs_layout: p.rhs_layout,
                lhs_line_size: p.lhs_line_size,
                rhs_line_size: p.rhs_line_size,
                out_line_size: p.out_line_size,
            },
        )
    }
}

/// The instruction an accelerated tile product needs for `elem`.
pub open spec fn required_cmma(c: MatmulConfig, elem: Elem) -> CmmaShape {
    CmmaShape {
        a: elem,
        b: elem,
        c: Elem::Float(FloatKind::F32),
        m: c.selection.tile.m,
        k: c.selection.tile.k,
        n: c.selection.tile.n,
    }
}

/// Whether the device runs the configuration on elements of type `elem`,
/// or the first missing capability.
pub open spec fn spec_availability(
    c: MatmulConfig,
    device: DeviceProperties,
    elem: Elem,
) -> Result<(), AvailabilityError> {
    if !device.plane {
        Err(AvailabilityError::PlaneOperationsUnavailable)
    } else if !device.types@.contains(elem) {
        Err(AvailabilityError::TypeUnavailable(elem))
    } else if c.algorithm.tile == TileMatmulKind::Accelerated && !device.cmma@.contains(
        required_cmma(c, elem),
    ) {
        Err(AvailabilityError::CmmaInstructionUnavailable(required_cmma(c, elem)))
    } else {
        Ok(())
    }
}

fn contains_elem(v: &Vec<Elem>, e: Elem) -> (r: bool)
    ensures
        r == v@.contains(e),
{
    let mut i: usize = 0;
    while i < v.len()
        invariant
            i <= v.len(),
            forall|j: int| 0 <= j < i ==> v@[j] != e,
        decreases v.len() - i,
    {
        if v[i] == e {
            return true;
        }
        i = i + 1;
    }
    false
}

fn contains_cmma(v: &Vec<CmmaShape>, c: CmmaShape) -> (r: bool)
    ensures
        r == v@.contains(c),
{
    let mut i: usize = 0;
    while i < v.len()
        invariant
            i <= v.len(),
            forall|j: int| 0 <= j < i ==> v@[j] != c,
        decreases v.len() - i,
    {
        if v[i] == c {
            return true;
        }
        i = i + 1;
    }
    false
}

/// `a` divided by `b`, rounded up.
fn div_ceil(a: usize, b: u32) -> (r: usize)
    requires
        b > 0,
    ensures
        r == ceil_div(a as int, b as int),
{
    let q = a / (b as usize);
    let r = a % (b as usize);
    proof {
        assert(ceil_div(a as int, b as int) == q + if r == 0 { 0int } else { 1int })
            by (nonlinear_arith)
            requires
                b > 0,
                q == a as int / b as int,
                r == a as int % b as int,
        ;
    }
    if r == 0 {
        q
    } else {
        assert(q < usize::MAX) by (nonlinear_arith)
            requires
                b > 0,
                q == a as int / b as int,
                r == a as int % b as int,
                r != 0,
                a <= usize::MAX,
        ;
        q + 1
    }
}

impl MatmulSelection {
    /// The selection used by default for a device with planes of `plane_dim`.
    pub fn default_for(plane_dim: u32) -> (r: MatmulSelection)
        ensures
            r == spec_default_selection(plane_dim),
    {
        MatmulSelection {
            plane_dim,
            tile: TileShape { m: 16, n: 16, k: 16 },
            num_stages: StageTiles { m: 4, n: 4, k: 2 },
        }
    }
}

impl StandardAlgorithm {
    /// One plane per row of tiles of a stage.
    pub fn cube_dim(selection: &MatmulSelection) -> (r: CubeDim)
        ensures
            r == (CubeDim { x: selection.plane_dim, y: selection.num_stages.m, z: 1 }),
    {
        CubeDim { x: selection.plane_dim, y: selection.num_stages.m, z: 1 }
    }

    /// One cube per output stage and batch: the problem's rows and columns
    /// divided, rounding up, by the stage extents, arranged by the dispatch.
    pub fn cube_count(
        &self,
        selection: &MatmulSelection,
        problem: &MatmulProblem,
    ) -> (r: Result<CubeCount, InvalidConfigError>)
        requires
            problem.wf(),
        ensures
            r == spec_cube_count(self.dispatch, *selection, *problem),
    {
        let m_stage = selection.num_stages.m.checked_mul(selection.tile.m);
        let n_stage = selection.num_stages.n.checked_mul(selection.tile.n);
        let (m_stage, n_stage) = match (m_stage, n_stage) {
            (Some(a), Some(b)) => (a, b),
            _ => {
                return Err(InvalidConfigError::StageTooLarge);
            },
        };
        if m_stage == 0 || n_stage == 0 {
            return Err(InvalidConfigError::ZeroExtent);
        }
        let cubes_for_m = div_ceil(problem.m, m_stage);
        let cubes_for_n = div_ceil(problem.n, n_stage);
        let batches = problem.num_batches();
        if cubes_for_m > u32::MAX as usize || cubes_for_n > u32::MAX as usize || batches
            > u32::MAX as usize {
            return Err(InvalidConfigError::GridTooLarge);
        }
        match self.dispatch {
            BatchDispatch::Natural => Ok(
                CubeCount { x: cubes_for_m as u32, y: cubes_for_n as u32, z: batches as u32 },
            ),
            BatchDispatch::Transposed => Ok(
                CubeCount { x: cubes_for_n as u32, y: cubes_for_m as u32, z: batches as u32 },
            ),
        }
    }

    /// Lhs tiles traversed column by column, rhs tiles row by row, no tile
    /// layout forced.
    pub open spec fn spec_advanced_config() -> AdvancedConfig {
        AdvancedConfig {
            lhs_tiling_order: TilingOrder::ColMajor,
            rhs_tiling_order: TilingOrder::RowMajor,
            enforced_lhs_tile_layout: None,
            enforced_rhs_tile_layout: None,
        }
    }

    /// The defaults of `spec_advanced_config`.
    pub fn advanced_config() -> (r: AdvancedConfig)
        ensures
            r == Self::spec_advanced_config(),
    {
        AdvancedConfig {
            lhs_tiling_order: TilingOrder::ColMajor,
            rhs_tiling_order: TilingOrder::RowMajor,
            enforced_lhs_tile_layout: None,
                enforced_rhs_tile_layout: None,
        }
    }

    /// Check the structural rules of every layer and build the configuration.
    pub fn make_config(
        &self,
        problem: &MatmulProblem,
        selection: &MatmulSelection,
        cube_dim: &CubeDim,
        cube_count: &CubeCount,
        advanced: &AdvancedConfig,
    ) -> (r: Result<MatmulConfig, InvalidConfigError>)
        ensures
            r == spec_make_config(*self, *problem, *selection, *cube_dim, *cube_count, *advanced),
    {
        let s = selection;
        if s.plane_dim == 0 || s.tile.m == 0 || s.tile.n == 0 || s.tile.k == 0
            || s.num_stages.m == 0 || s.num_stages.n == 0 || s.num_stages.k == 0 {
            return Err(InvalidConfigError::ZeroExtent);
        }
        if !line_divides(problem.lhs_line_size, s.tile.k, s.tile.m, problem.lhs_layout)
            || !line_divides(problem.rhs_line_size, s.tile.n, s.tile.k, problem.rhs_layout)
            || !line_divides(problem.out_line_size, s.tile.n, s.tile.n, MatrixLayout::RowMajor) {
            return Err(InvalidConfigError::LineSizeMismatch);
        }
        Ok(
            MatmulConfig {
                algorithm: *self,
                selection: *selection,
                cube_dim: *cube_dim,
                cube_count: *cube_count,
                advanced: *advanced,
                lhs_layout: problem.lhs_layout,
                rhs_layout: problem.rhs_layout,
                lhs_line_size: problem.lhs_line_size,
                rhs_line_size: problem.rhs_line_size,
                out_line_size: problem.out_line_size,
            },
        )
    }

    /// Whether the device offers what the configuration's layers need for
    /// elements of type `elem`: plane operations, the type, and for
    /// accelerated tiles the matching matrix-multiply instruction.
    pub fn check_availability(
        config: &MatmulConfig,
        device: &DeviceProperties,
        elem: Elem,
    ) -> (r: Result<(), AvailabilityError>)
        ensures
            r == spec_availability(*config, *device, elem),
    {
        if !device.plane {
            return Err(AvailabilityError::PlaneOperationsUnavailable);
        }
        if !contains_elem(&device.types, elem) {
            return Err(AvailabilityError::TypeUnavailable(elem));
        }
        if config.algorithm.tile == TileMatmulKind::Accelerated {
            let needed = CmmaShape {
                a: elem,
                b: elem,
                c: Elem::Float(FloatKind::F32),
                m: config.selection.tile.m,
                k: config.selection.tile.k,
                n: config.selection.tile.n,
            };
            if !contains_cmma(&device.cmma, needed) {
                return Err(AvailabilityError::CmmaInstructionUnavailable(needed));
            }
        }
        Ok(())
    }
}

fn line_divides(line: u8, extent_row_major: u32, extent_col_major: u32, layout: MatrixLayout) -> (r: bool)
    ensures
        r == line_fits(line, extent_row_major, extent_col_major, layout),
{
    if line == 0 {
        return false;
    }
    match layout {
        MatrixLayout::RowMajor => extent_row_major % (line as u32) == 0,
        MatrixLayout::ColMajor => extent_col_major % (line as u32) == 0,
    }
}

} // verus!
