use vstd::prelude::*;
use crate::block::Blocks;
use crate::world::{Chunk, chunk_of, spec_block_at, trunc_div16, abs_rem16, WORLD_SIZE, TOTAL_BLOCKS};

verus! {

/// The block at global height `gy` of a column whose surface is given as
/// (`grass_floor`, `dirt_floor`): the integer parts of the height limit and
/// of the height limit plus one. Heights grow downward: below `dirt_floor`
/// lies dirt, between the two floors grass, above them air.
pub open spec fn terrain_block(column: (i64, i64), gy: int) -> Blocks {
    if gy > column.1 {
        Blocks::Dirt
    } else if gy > column.0 {
        Blocks::Grass
    } else {
        Blocks::Air
    }
}

/// The terrain chunk at chunk position (`i`, `j`) for the given columns.
pub open spec fn is_terrain_chunk(columns: Seq<(i64, i64)>, i: int, j: int, c: Chunk) -> bool {
    forall|x: int, y: int| 0 <= x < 16 && 0 <= y < 16 ==>
        #[trigger] c.cell(x, y) == terrain_block(columns[i * 16 + x], j * 16 + y)
}

fn column_block(column: (i64, i64), gy: i64) -> (b: Blocks)
    ensures
        b == terrain_block(column, gy as int),
{
    if gy > column.1 {
        Blocks::Dirt
    } else if gy > column.0 {
        Blocks::Grass
    } else {
        Blocks::Air
    }
}

/// Builds the chunk at chunk position (`i`, `j`) from the surface columns.
pub fn terrain_chunk(columns: &Vec<(i64, i64)>, i: usize, j: usize) -> (c: Chunk)
    requires
        i * 16 + 16 <= columns.len(),
        j < WORLD_SIZE,
    ensures
        is_terrain_chunk(columns@, i as int, j as int, c),
{
    let base: usize = i * 16;
    let mut blocks = [[Blocks::Air; 16]; 16];
    for x in 0..16usize
        invariant
            i * 16 + 16 <= columns@.len(),
            base == i * 16,
            j < WORLD_SIZE,
            forall|a: int, y: int| 0 <= a < x && 0 <= y < 16 ==>
                #[trigger] blocks@[a]@[y] == terrain_block(columns@[i * 16 + a], j * 16 + y),
    {
        let column = columns[base + x];
        for y in 0..16usize
            invariant
                i * 16 + 16 <= columns@.len(),
                j < WORLD_SIZE,
                x < 16,
                column == columns@[i * 16 + x],
                forall|a: int, b: int| 0 <= a < x && 0 <= b < 16 ==>
                    #[trigger] blocks@[a]@[b] == terrain_block(columns@[i * 16 + a], j * 16 + b),
                forall|b: int| 0 <= b < y ==>
                    #[trigger] blocks@[x as int]@[b] == terrain_block(column, j * 16 + b),
        {
            let gy = (j * 16 + y) as i64;
            blocks[x][y] = column_block(column, gy);
        }
    }
    Chunk { blocks }
}

/// The grid is the full square world built from the surface columns.
pub open spec fn is_terrain(columns: Seq<(i64, i64)>, chunks: Seq<Vec<Chunk>>) -> bool {
    &&& chunks.len() == WORLD_SIZE
    &&& forall|i: int| 0 <= i < WORLD_SIZE ==> #[trigger] chunks[i]@.len() == WORLD_SIZE
    &&& forall|i: int, j: int| 0 <= i < WORLD_SIZE && 0 <= j < WORLD_SIZE ==>
        is_terrain_chunk(columns, i, j, #[trigger] chunk_of(chunks, i, j))
}

/// Builds the world: `WORLD_SIZE` by `WORLD_SIZE` chunks, where block column
/// `gx` follows the surface `columns[gx]` (see `terrain_block`).
pub fn generate_chunks(columns: &Vec<(i64, i64)>) -> (chunks: Vec<Vec<Chunk>>)
    requires
        columns@.len() == TOTAL_BLOCKS,
    ensures
        is_terrain(columns@, chunks@),
{
    let mut chunks: Vec<Vec<Chunk>> = Vec::new();
    for i in 0..WORLD_SIZE
        invariant
            columns@.len() == TOTAL_BLOCKS,
            chunks@.len() == i,
            forall|a: int| 0 <= a < i ==> #[trigger] chunks@[a]@.len() == WORLD_SIZE,
            forall|a: int, b: int| 0 <= a < i && 0 <= b < WORLD_SIZE ==>
                is_terrain_chunk(columns@, a, b, #[trigger] chunk_of(chunks@, a, b)),
    {
        let mut row: Vec<Chunk> = Vec::new();
        for j in 0..WORLD_SIZE
            invariant
                columns@.len() == TOTAL_BLOCKS,
                i < WORLD_SIZE,
                row@.len() == j,
                forall|b: int| 0 <= b < j ==> is_terrain_chunk(columns@, i as int, b, #[trigger] row@[b]),
        {
            row.push(terrain_chunk(columns, i, j));
        }
        let ghost old_chunks = chunks@;
        chunks.push(row);
        assert forall|a: int, b: int| 0 <= a <= i && 0 <= b < WORLD_SIZE implies
            is_terrain_chunk(columns@, a, b, #[trigger] chunk_of(chunks@, a, b)) by {
            if a < i {
                assert(chunk_of(chunks@, a, b) == chunk_of(old_chunks, a, b));
            }
        }
    }
    chunks
}

/// In a generated world, reading any block coordinate inside the world gives
/// the terrain block of its column at its height.
pub proof fn lemma_terrain_read(columns: Seq<(i64, i64)>, chunks: Seq<Vec<Chunk>>, gx: int, gy: int)
    requires
        is_terrain(columns, chunks),
        0 <= gx < TOTAL_BLOCKS,
        0 <= gy < TOTAL_BLOCKS,
    ensures
        spec_block_at(chunks, gx, gy) == Some(terrain_block(columns[gx], gy)),
{
    let i = gx / 16;
    let j = gy / 16;
    assert(trunc_div16(gx) == i && abs_rem16(gx) == gx % 16);
    assert(trunc_div16(gy) == j && abs_rem16(gy) == gy % 16);
    assert(0 <= i < WORLD_SIZE && 0 <= j < WORLD_SIZE);
    assert(chunks[i]@.len() == WORLD_SIZE);
    assert(is_terrain_chunk(columns, i, j, chunk_of(chunks, i, j)));
    assert(i * 16 + gx % 16 == gx);
    assert(j * 16 + gy % 16 == gy);
    assert(chunk_of(chunks, i, j).cell(gx % 16, gy % 16) == terrain_block(columns[i * 16 + gx % 16], j * 16 + gy % 16));
}

/// Going down a column of a generated world (growing `gy`), once a solid
/// block is met every block below it is solid too, provided the column's
/// dirt floor is not above its grass floor.
pub proof fn lemma_ground_is_solid_below(columns: Seq<(i64, i64)>, chunks: Seq<Vec<Chunk>>, gx: int, gy1: int, gy2: int)
    requires
        is_terrain(columns, chunks),
        0 <= gx < TOTAL_BLOCKS,
        0 <= gy1 <= gy2 < TOTAL_BLOCKS,
        columns[gx].0 <= columns[gx].1,
        spec_block_at(chunks, gx, gy1) != Some(Blocks::Air),
    ensures
        spec_block_at(chunks, gx, gy2) != Some(Blocks::Air),
{
    lemma_terrain_read(columns, chunks, gx, gy1);
    lemma_terrain_read(columns, chunks, gx, gy2);
}


/// Generation is determined by the columns: two worlds generated from the
/// same columns have the same shape and equal blocks in every chunk.
pub proof fn lemma_terrain_is_determined(columns: Seq<(i64, i64)>, c1: Seq<Vec<Chunk>>, c2: Seq<Vec<Chunk>>)
    requires
        is_terrain(columns, c1),
        is_terrain(columns, c2),
    ensures
        c1.len() == c2.len(),
        forall|i: int| 0 <= i < c1.len() ==> #[trigger] c1[i]@.len() == c2[i]@.len(),
        forall|i: int, j: int| 0 <= i < WORLD_SIZE && 0 <= j < WORLD_SIZE ==>
            (#[trigger] chunk_of(c1, i, j)).blocks == chunk_of(c2, i, j).blocks,
{
    broadcast use vstd::array::group_array_axioms;
    assert forall|i: int, j: int| 0 <= i < WORLD_SIZE && 0 <= j < WORLD_SIZE implies
        (#[trigger] chunk_of(c1, i, j)).blocks == chunk_of(c2, i, j).blocks by {
        let a = chunk_of(c1, i, j);
        let b = chunk_of(c2, i, j);
        assert(is_terrain_chunk(columns, i, j, a));
        assert(is_terrain_chunk(columns, i, j, b));
        assert forall|x: int| 0 <= x < 16 implies a.blocks[x] == b.blocks[x] by {
            assert forall|y: int| 0 <= y < 16 implies a.blocks[x][y] == b.blocks[x][y] by {
                assert(a.cell(x, y) == b.cell(x, y));
            }
            assert(a.blocks[x] =~= b.blocks[x]);
        }
        assert(a.blocks =~= b.blocks);
    }
}

} // verus!
