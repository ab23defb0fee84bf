use vstd::prelude::*;
use crate::block::Blocks;
use crate::world::{Chunk, chunk_exists, chunk_of, CHUNK_SIZE, WORLD_SIZE, TOTAL_BLOCKS};
use crate::terrain::{is_terrain, is_terrain_chunk, terrain_block};

verus! {

/// Height `k` of the spawn column is solid: the search reads chunk
/// `chunks[chunk_num][k / 16]`, cell (`block_index`, `k % 16`).
pub open spec fn spawn_cell_solid(chunks: Seq<Vec<Chunk>>, chunk_num: int, block_index: int, k: int) -> bool {
    chunks[chunk_num]@[k / 16].cell(block_index, k % 16) != Blocks::Air
}

/// Some height below `n` of the spawn column is solid.
pub open spec fn spawn_column_has_ground(chunks: Seq<Vec<Chunk>>, chunk_num: int, block_index: int, n: int) -> bool {
    exists|k: int| 0 <= k < n && #[trigger] spawn_cell_solid(chunks, chunk_num, block_index, k)
}

/// The height of the first solid block met going down the spawn column, over
/// `chunks.len()` chunks of row `chunk_num`; 0 where the column holds none
/// (an empty grid included).
pub fn find_ground(chunks: &Vec<Vec<Chunk>>, chunk_num: usize, block_index: usize) -> (h: usize)
    requires
        chunks@.len() > 0 ==> {
            &&& chunk_num < chunks@.len()
            &&& block_index < CHUNK_SIZE
            &&& chunks@[chunk_num as int]@.len() >= chunks@.len()
                || spawn_column_has_ground(chunks@, chunk_num as int, block_index as int, (chunks@[chunk_num as int]@.len() * 16) as int)
        },
        chunks@.len() * 16 <= usize::MAX,
    ensures
        spawn_column_has_ground(chunks@, chunk_num as int, block_index as int, (chunks@.len() * 16) as int) ==> {
            &&& h < chunks@.len() * 16
            &&& spawn_cell_solid(chunks@, chunk_num as int, block_index as int, h as int)
            &&& forall|k: int| 0 <= k < h ==> !#[trigger] spawn_cell_solid(chunks@, chunk_num as int, block_index as int, k)
        },
        !spawn_column_has_ground(chunks@, chunk_num as int, block_index as int, (chunks@.len() * 16) as int) ==> h == 0,
{
    let n = chunks.len();
    if n == 0 {
        return 0;
    }
    let column = &chunks[chunk_num];
    for i in 0..n
        invariant
            n == chunks@.len(),
            chunk_num < n,
            *column == chunks@[chunk_num as int],
            column@.len() >= n
                || spawn_column_has_ground(chunks@, chunk_num as int, block_index as int, (column@.len() * 16) as int),
            block_index < 16,
            n * 16 <= usize::MAX,
            forall|k: int| 0 <= k < i * 16 ==> !#[trigger] spawn_cell_solid(chunks@, chunk_num as int, block_index as int, k),
    {
        proof {
            // A short row holds ground before its end, so the scan stops in time.
            if i >= column@.len() {
                let k = choose|k: int| 0 <= k < column@.len() * 16
                    && #[trigger] spawn_cell_solid(chunks@, chunk_num as int, block_index as int, k);
                assert(k < i * 16);
            }
        }
        for j in 0..16usize
            invariant
                n == chunks@.len(),
                chunk_num < n,
                *column == chunks@[chunk_num as int],
                i < column@.len(),
                block_index < 16,
                n * 16 <= usize::MAX,
                i < n,
                forall|k: int| 0 <= k < i * 16 + j ==> !#[trigger] spawn_cell_solid(chunks@, chunk_num as int, block_index as int, k),
        {
            proof {
                assert((i * 16 + j) / 16 == i && (i * 16 + j) % 16 == j);
            }
            if column[i].blocks[block_index][j] != Blocks::Air {
                proof {
                    assert(spawn_cell_solid(chunks@, chunk_num as int, block_index as int, (i * 16 + j) as int));
                }
                return i * 16 + j;
            }
        }
    }
    proof {
        assert forall|k: int| 0 <= k < n * 16 implies !#[trigger] spawn_cell_solid(chunks@, chunk_num as int, block_index as int, k) by {}
    }
    0
}

/// The chunk position (`cx`, `cy`) where it names a chunk of the grid, and
/// (-1, -1) otherwise.
pub fn chunk_index(chunks: &Vec<Vec<Chunk>>, cx: i32, cy: i32) -> (r: (i32, i32))
    ensures
        r == (if chunk_exists(chunks@, cx as int, cy as int) { (cx, cy) } else { (-1i32, -1i32) }),
{
    if cx < 0 || cy < 0 || cx as usize >= chunks.len() || cy as usize >= chunks[cx as usize].len() {
        return (-1, -1);
    }
    (cx, cy)
}

/// How many chunks away from the player's chunk, on each axis, a chunk is
/// still drawn.
pub const VIEW_RADIUS: i32 = 3;

/// Absolute value of an integer.
pub open spec fn abs_int(a: int) -> int {
    if a < 0 { -a } else { a }
}

/// Whether the chunk at grid position (`x`, `y`) lies within `VIEW_RADIUS`
/// chunks, on both axes, of the player's chunk (`player_cx`, `player_cy`).
/// The position is taken as an `i32`, wrapping as `as i32` does.
pub fn chunk_in_view(player_cx: i32, player_cy: i32, x: usize, y: usize) -> (r: bool)
    requires
        i32::MIN < player_cx - (x as i32) <= i32::MAX,
        abs_int(player_cx - (x as i32)) <= VIEW_RADIUS ==> i32::MIN < player_cy - (y as i32) <= i32::MAX,
    ensures
        r == (abs_int(player_cx - (x as i32)) <= VIEW_RADIUS && abs_int(player_cy - (y as i32)) <= VIEW_RADIUS),
{
    let dx = player_cx - x as i32;
    let adx = if dx < 0 { -dx } else { dx };
    if adx > VIEW_RADIUS {
        return false;
    }
    let dy = player_cy - y as i32;
    let ady = if dy < 0 { -dy } else { dy };
    ady <= VIEW_RADIUS
}

/// A chunk is in view exactly when its position, taken as an `i32`, is at
/// most 3 chunks from the player's chunk on each axis, on either side.
pub proof fn lemma_view_window(player_cx: i32, player_cy: i32, x: usize, y: usize)
    ensures
        (abs_int(player_cx - (x as i32)) <= VIEW_RADIUS && abs_int(player_cy - (y as i32)) <= VIEW_RADIUS)
            <==> (-3 <= player_cx - (x as i32) <= 3 && -3 <= player_cy - (y as i32) <= 3),
{
}

/// The absolute value is the distance from 0: never negative, the value
/// itself when it is non-negative and its negation otherwise.
pub proof fn lemma_abs_int(a: int)
    ensures
        abs_int(a) >= 0,
        a >= 0 ==> abs_int(a) == a,
        a < 0 ==> abs_int(a) == -a,
{
}

/// In a generated world, the spawn search over chunk row `chunk_num` and
/// local column `block_index` reads block column `chunk_num * 16 + block_index`
/// at each height.
pub proof fn lemma_spawn_column_is_terrain(columns: Seq<(i64, i64)>, chunks: Seq<Vec<Chunk>>, chunk_num: int, block_index: int, k: int)
    requires
        is_terrain(columns, chunks),
        0 <= chunk_num < WORLD_SIZE,
        0 <= block_index < 16,
        0 <= k < TOTAL_BLOCKS,
    ensures
        spawn_cell_solid(chunks, chunk_num, block_index, k)
            == (terrain_block(columns[chunk_num * 16 + block_index], k) != Blocks::Air),
{
    let i = k / 16;
    assert(0 <= i < WORLD_SIZE);
    assert(chunks[chunk_num]@.len() == WORLD_SIZE);
    assert(is_terrain_chunk(columns, chunk_num, i, chunk_of(chunks, chunk_num, i)));
    assert(i * 16 + k % 16 == k);
}

/// In a generated world, the player spawns on the surface: the ground search
/// finds the first height below the grass floor of the spawn column, where
/// that height lies inside the world.
pub proof fn lemma_spawn_on_surface(columns: Seq<(i64, i64)>, chunks: Seq<Vec<Chunk>>, chunk_num: int, block_index: int)
    requires
        is_terrain(columns, chunks),
        0 <= chunk_num < WORLD_SIZE,
        0 <= block_index < 16,
        columns[chunk_num * 16 + block_index].0 <= columns[chunk_num * 16 + block_index].1,
        0 <= columns[chunk_num * 16 + block_index].0 + 1 < TOTAL_BLOCKS,
    ensures
        ({
            let g = columns[chunk_num * 16 + block_index].0 + 1;
            &&& spawn_column_has_ground(chunks, chunk_num, block_index, (chunks.len() * 16) as int)
            &&& spawn_cell_solid(chunks, chunk_num, block_index, g)
            &&& forall|k: int| 0 <= k < g ==> !#[trigger] spawn_cell_solid(chunks, chunk_num, block_index, k)
        }),
{
    let g = columns[chunk_num * 16 + block_index].0 + 1;
    lemma_spawn_column_is_terrain(columns, chunks, chunk_num, block_index, g);
    assert forall|k: int| 0 <= k < g implies !#[trigger] spawn_cell_solid(chunks, chunk_num, block_index, k) by {
        lemma_spawn_column_is_terrain(columns, chunks, chunk_num, block_index, k);
    }
}

} // verus!
