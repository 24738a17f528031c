use cubecl::algorithm::{TileShape, TilingOrder};
use cubecl::unloader::{StageTiling, Unloader, VirtualTensor};

#[test]
fn unloader_offsets_from_tile_root() {
    let t = VirtualTensor { shape: vec![2, 64, 64], strides: vec![4096, 64, 1] };
    let u = Unloader::new(t, 16, 32, 4096);
    assert_eq!(u.tensor_view.offset(0, 0), 4096 + 16 * 64 + 32);
    assert_eq!(u.tensor_view.offset(3, 5), 4096 + 19 * 64 + 37);
}

fn stage(order: TilingOrder) -> StageTiling {
    StageTiling { tiles_x: 2, tiles_y: 2, tile: TileShape { m: 4, n: 4, k: 4 }, order }
}

#[test]
fn unloader_write_row_major_tiling() {
    let t = VirtualTensor { shape: vec![8, 8], strides: vec![8, 1] };
    let u = Unloader::new(t, 0, 0, 0);
    let mut out = vec![0u32; 64];
    let slice: Vec<u32> = (1..=16).collect();
    u.write(&mut out, &slice, 1, 0, stage(TilingOrder::RowMajor));
    for r in 0..8 {
        for c in 0..8 {
            let expected = if r >= 4 && c < 4 { (r - 4) * 4 + c + 1 } else { 0 };
            assert_eq!(out[r * 8 + c], expected as u32, "at {r},{c}");
        }
    }
}

#[test]
fn unloader_write_col_major_tiling_with_offsets() {
    let t = VirtualTensor { shape: vec![2, 8, 16], strides: vec![128, 16, 1] };
    let u = Unloader::new(t, 0, 8, 128);
    let mut out = vec![0u32; 256];
    let slice: Vec<u32> = (1..=16).collect();
    u.write(&mut out, &slice, 1, 0, stage(TilingOrder::ColMajor));
    // tile number 2, column-major over 2x2 tiles: row 0, column 1.
    for r in 0..8 {
        for c in 0..16 {
            let expected = if r < 4 && (12..16).contains(&c) { r * 4 + (c - 12) + 1 } else { 0 };
            assert_eq!(out[128 + r * 16 + c], expected as u32, "at {r},{c}");
        }
    }
    assert!(out[..128].iter().all(|&v| v == 0));
}

#[test]
fn unloader_write_col_major_output() {
    // An 8x8 column-major output: row stride 1, column stride 8.
    let t = VirtualTensor { shape: vec![8, 8], strides: vec![1, 8] };
    let u = Unloader::new(t, 0, 0, 0);
    let mut out = vec![0u32; 64];
    let slice: Vec<u32> = (1..=16).collect();
    u.write(&mut out, &slice, 0, 1, stage(TilingOrder::RowMajor));
    // Tile 1 in row-major numbering: rows 0..4, columns 4..8.
    for r in 0..8 {
        for c in 0..8 {
            let expected = if r < 4 && c >= 4 { r * 4 + (c - 4) + 1 } else { 0 };
            assert_eq!(out[c * 8 + r], expected as u32, "at {r},{c}");
        }
    }
}
