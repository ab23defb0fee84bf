use blockworld::block::Blocks;
use blockworld::player::find_ground;
use blockworld::terrain::{generate_chunks, terrain_chunk};
use blockworld::world::{block_at, Chunk, TOTAL_BLOCKS, WORLD_SIZE};

fn flat_columns(grass: i64, dirt: i64) -> Vec<(i64, i64)> {
    vec![(grass, dirt); TOTAL_BLOCKS]
}

#[test]
fn terrain_chunk_layers() {
    let cols = flat_columns(20, 21);
    let c = terrain_chunk(&cols, 0, 1);
    // heights 16..32
    for x in 0..16 {
        for y in 0..16 {
            let gy = 16 + y as i64;
            let want = if gy > 21 { Blocks::Dirt } else if gy > 20 { Blocks::Grass } else { Blocks::Air };
            assert!(c.blocks[x][y] == want);
        }
    }
    assert!(c.blocks[0][4] == Blocks::Air);
    assert!(c.blocks[0][5] == Blocks::Grass);
    assert!(c.blocks[0][6] == Blocks::Dirt);
}

#[test]
fn terrain_chunk_follows_each_column() {
    let mut cols = flat_columns(100, 101);
    cols[16 + 3] = (-1, 0);
    let c = terrain_chunk(&cols, 1, 0);
    assert!(c.blocks[3][0] == Blocks::Grass);
    assert!(c.blocks[3][1] == Blocks::Dirt);
    assert!(c.blocks[2][1] == Blocks::Air);
}

#[test]
fn generate_chunks_builds_full_world() {
    let mut cols = flat_columns(1930, 1931);
    cols[2400] = (1940, 1941);
    let g = generate_chunks(&cols);
    assert_eq!(g.len(), WORLD_SIZE);
    assert!(g.iter().all(|row| row.len() == WORLD_SIZE));
    assert_eq!(block_at(&g, 0, 0), Some(Blocks::Air));
    assert_eq!(block_at(&g, 0, 1930), Some(Blocks::Air));
    assert_eq!(block_at(&g, 0, 1931), Some(Blocks::Grass));
    assert_eq!(block_at(&g, 0, 1932), Some(Blocks::Dirt));
    assert_eq!(block_at(&g, 4799, 4799), Some(Blocks::Dirt));
    assert_eq!(block_at(&g, 2400, 1931), Some(Blocks::Air));
    assert_eq!(block_at(&g, 2400, 1941), Some(Blocks::Grass));
    // the player spawns on the surface of column 2400: chunk row 150, local column 0
    assert_eq!(find_ground(&g, 150, 0), 1941);
    assert_eq!(find_ground(&g, 150, 1), 1931);
}

fn air_grid(w: usize, h: usize) -> Vec<Vec<Chunk>> {
    (0..w).map(|_| (0..h).map(|_| Chunk { blocks: [[Blocks::Air; 16]; 16] }).collect()).collect()
}

#[test]
fn find_ground_without_ground_is_zero() {
    let g = air_grid(3, 3);
    assert_eq!(find_ground(&g, 1, 5), 0);
}

#[test]
fn find_ground_finds_first_solid_cell() {
    let mut g = air_grid(3, 3);
    g[2][1].blocks[7][9] = Blocks::Dirt;
    g[2][2].blocks[7][0] = Blocks::Grass;
    assert_eq!(find_ground(&g, 2, 7), 16 + 9);
    g[2][0].blocks[7][0] = Blocks::Grass;
    assert_eq!(find_ground(&g, 2, 7), 0);
    assert_eq!(find_ground(&g, 2, 6), 0);
}

#[test]
fn find_ground_on_short_row_with_ground() {
    let mut g = air_grid(3, 3);
    g[1].truncate(1);
    g[1][0].blocks[4][5] = Blocks::Dirt;
    assert_eq!(find_ground(&g, 1, 4), 5);
}

#[test]
fn find_ground_on_empty_grid_is_zero() {
    let g: Vec<Vec<Chunk>> = Vec::new();
    assert_eq!(find_ground(&g, 150, 0), 0);
}

#[test]
fn generation_is_determined_by_columns() {
    let mut cols = flat_columns(1900, 1902);
    cols[7] = (10, 10);
    let a = generate_chunks(&cols);
    let b = generate_chunks(&cols);
    assert_eq!(a.len(), b.len());
    for (ra, rb) in a.iter().zip(b.iter()) {
        assert_eq!(ra.len(), rb.len());
        for (ca, cb) in ra.iter().zip(rb.iter()) {
            assert!(ca.blocks == cb.blocks);
        }
    }
}
