use vstd::prelude::*;
use crate::block::Blocks;

verus! {

/// Side length of a chunk, in blocks.
pub const CHUNK_SIZE: usize = 16;
/// Side length of the world, in chunks.
pub const WORLD_SIZE: usize = 300;
/// Side length of the world, in blocks.
pub const TOTAL_BLOCKS: usize = WORLD_SIZE * CHUNK_SIZE;

/// A square of 16 by 16 blocks, indexed `blocks[x][y]`.
pub struct Chunk {
    pub blocks: [[Blocks; 16]; 16],
}

impl Chunk {
    /// The block at local position (`lx`, `ly`).
    pub open spec fn cell(self, lx: int, ly: int) -> Blocks {
        self.blocks@[lx]@[ly]
    }
}

/// Division by 16 that rounds toward zero, as `i32 / 16` does.
pub open spec fn trunc_div16(a: int) -> int {
    if a >= 0 {
        a / 16
    } else {
        -((-a) / 16)
    }
}

/// Absolute value of the remainder of `a` by 16, as `(a % 16).abs()` on `i32`.
pub open spec fn abs_rem16(a: int) -> int {
    if a >= 0 {
        a % 16
    } else {
        (-a) % 16
    }
}

/// The chunk at (`cx`, `cy`) exists in the grid.
pub open spec fn chunk_exists(chunks: Seq<Vec<Chunk>>, cx: int, cy: int) -> bool {
    0 <= cx < chunks.len() && 0 <= cy < chunks[cx]@.len()
}

/// The chunk of the grid at (`cx`, `cy`).
pub open spec fn chunk_of(chunks: Seq<Vec<Chunk>>, cx: int, cy: int) -> Chunk {
    chunks[cx]@[cy]
}

/// A global block coordinate falls in an existing chunk of the grid.
pub open spec fn in_grid(chunks: Seq<Vec<Chunk>>, gx: int, gy: int) -> bool {
    chunk_exists(chunks, trunc_div16(gx), trunc_div16(gy))
}

/// The block that a global block coordinate reads in the grid, if any.
pub open spec fn spec_block_at(chunks: Seq<Vec<Chunk>>, gx: int, gy: int) -> Option<Blocks> {
    if in_grid(chunks, gx, gy) {
        Some(chunk_of(chunks, trunc_div16(gx), trunc_div16(gy)).cell(abs_rem16(gx), abs_rem16(gy)))
    } else {
        None
    }
}

/// Global block coordinate to (chunk index, local index), for one axis.
fn split_coord(a: i32) -> (r: (i64, usize))
    ensures
        r.0 == trunc_div16(a as int),
        r.1 == abs_rem16(a as int),
        r.1 < 16,
{
    let w: i64 = a as i64;
    if w >= 0 {
        (w / 16, (w % 16) as usize)
    } else {
        let n: i64 = -w;
        (-(n / 16), (n % 16) as usize)
    }
}

/// The block at a global block coordinate, or `None` where the coordinate
/// names no chunk of the grid. Chunk indices round toward zero, so small
/// negative coordinates read the first chunks, mirrored.
pub fn block_at(chunks: &Vec<Vec<Chunk>>, gx: i32, gy: i32) -> (r: Option<Blocks>)
    ensures
        r == spec_block_at(chunks@, gx as int, gy as int),
{
    let (cx, lx) = split_coord(gx);
    let (cy, ly) = split_coord(gy);
    if cx >= 0 && cy >= 0 && (cx as u64) < (chunks.len() as u64) {
        let row = &chunks[cx as usize];
        if (cy as u64) < (row.len() as u64) {
            return Some(row[cy as usize].blocks[lx][ly]);
        }
    }
    None
}

/// Two global block coordinates name the same cell (rounding toward zero
/// makes, for example, `-5` and `5` name the same cell).
pub open spec fn same_cell(gx: int, gy: int, hx: int, hy: int) -> bool {
    &&& trunc_div16(gx) == trunc_div16(hx)
    &&& trunc_div16(gy) == trunc_div16(hy)
    &&& abs_rem16(gx) == abs_rem16(hx)
    &&& abs_rem16(gy) == abs_rem16(hy)
}

/// `new` is `old` with the cell named by (`gx`, `gy`) set to `b` where that
/// coordinate lies in the grid, and equal to `old` everywhere else.
pub open spec fn set_block_post(old: Seq<Vec<Chunk>>, new: Seq<Vec<Chunk>>, gx: int, gy: int, b: Blocks) -> bool {
    &&& new.len() == old.len()
    &&& forall|cx: int| 0 <= cx < old.len() ==> #[trigger] new[cx]@.len() == old[cx]@.len()
    &&& forall|cx: int, cy: int, lx: int, ly: int|
        chunk_exists(old, cx, cy) && 0 <= lx < 16 && 0 <= ly < 16 ==>
        #[trigger] chunk_of(new, cx, cy).cell(lx, ly) == (
            if in_grid(old, gx, gy) && cx == trunc_div16(gx) && cy == trunc_div16(gy)
                && lx == abs_rem16(gx) && ly == abs_rem16(gy) {
                b
            } else {
                chunk_of(old, cx, cy).cell(lx, ly)
            })
}

/// Sets the block at a global block coordinate, where it names a chunk of
/// the grid; elsewhere nothing changes. Every other cell keeps its block.
pub fn set_block(chunks: &mut Vec<Vec<Chunk>>, gx: i32, gy: i32, b: Blocks)
    ensures
        set_block_post(old(chunks)@, final(chunks)@, gx as int, gy as int, b),
{
    let (cx, lx) = split_coord(gx);
    let (cy, ly) = split_coord(gy);
    if cx >= 0 && cy >= 0 && (cx as u64) < (chunks.len() as u64) {
        let cxu = cx as usize;
        if (cy as u64) < (chunks[cxu].len() as u64) {
            let cyu = cy as usize;
            chunks[cxu][cyu].blocks[lx][ly] = b;
        }
    }
}

/// Reading a cell just written gives back the written block, where the
/// coordinate lies in the grid; elsewhere the read still finds no chunk.
pub proof fn lemma_get_after_set(old: Seq<Vec<Chunk>>, new: Seq<Vec<Chunk>>, gx: int, gy: int, b: Blocks)
    requires
        set_block_post(old, new, gx, gy, b),
    ensures
        spec_block_at(new, gx, gy) == (if in_grid(old, gx, gy) { Some(b) } else { None::<Blocks> }),
{
    if in_grid(old, gx, gy) {
        assert(0 <= abs_rem16(gx) < 16 && 0 <= abs_rem16(gy) < 16);
        assert(chunk_of(new, trunc_div16(gx), trunc_div16(gy)).cell(abs_rem16(gx), abs_rem16(gy)) == b);
    }
}

/// Writing one cell changes no read of a coordinate that names another cell,
/// and which coordinates lie in the grid stays the same.
pub proof fn lemma_set_keeps_others(old: Seq<Vec<Chunk>>, new: Seq<Vec<Chunk>>, gx: int, gy: int, b: Blocks, hx: int, hy: int)
    requires
        set_block_post(old, new, gx, gy, b),
        !same_cell(gx, gy, hx, hy),
    ensures
        spec_block_at(new, hx, hy) == spec_block_at(old, hx, hy),
        in_grid(new, hx, hy) == in_grid(old, hx, hy),
{
    let cx = trunc_div16(hx);
    if 0 <= cx < old.len() {
        assert(new[cx]@.len() == old[cx]@.len());
    }
    if in_grid(old, hx, hy) {
        assert(0 <= abs_rem16(hx) < 16 && 0 <= abs_rem16(hy) < 16);
        assert(chunk_of(new, trunc_div16(hx), trunc_div16(hy)).cell(abs_rem16(hx), abs_rem16(hy))
            == chunk_of(old, trunc_div16(hx), trunc_div16(hy)).cell(abs_rem16(hx), abs_rem16(hy)));
    }
}

/// A block coordinate outside the square world of `TOTAL_BLOCKS` blocks a side.
pub open spec fn outside_world(gx: int, gy: int) -> bool {
    gx < 0 || gy < 0 || gx >= TOTAL_BLOCKS || gy >= TOTAL_BLOCKS
}

/// The coordinate reads a block other than air.
pub open spec fn solid_at(chunks: Seq<Vec<Chunk>>, gx: int, gy: int) -> bool {
    match spec_block_at(chunks, gx, gy) {
        Some(b) => b != Blocks::Air,
        None => false,
    }
}

/// A player hitbox point, as a block coordinate, is stopped: it lies outside
/// the world or on a solid block.
pub open spec fn player_point_blocked(chunks: Seq<Vec<Chunk>>, p: (i32, i32)) -> bool {
    outside_world(p.0 as int, p.1 as int) || solid_at(chunks, p.0 as int, p.1 as int)
}

/// A mob hitbox point, as a block coordinate, lies on a solid block.
pub open spec fn mob_point_blocked(chunks: Seq<Vec<Chunk>>, p: (i32, i32)) -> bool {
    solid_at(chunks, p.0 as int, p.1 as int)
}

fn is_solid(chunks: &Vec<Vec<Chunk>>, gx: i32, gy: i32) -> (r: bool)
    ensures
        r == solid_at(chunks@, gx as int, gy as int),
{
    match block_at(chunks, gx, gy) {
        Some(b) => b != Blocks::Air,
        None => false,
    }
}

/// Whether a player whose hitbox points lie on the given block coordinates
/// collides: some point is outside the world or on a solid block.
pub fn player_collides(chunks: &Vec<Vec<Chunk>>, points: &Vec<(i32, i32)>) -> (r: bool)
    ensures
        r == exists|i: int| 0 <= i < points@.len() && player_point_blocked(chunks@, #[trigger] points@[i]),
{
    let n = points.len();
    for i in 0..n
        invariant
            n == points@.len(),
            forall|k: int| 0 <= k < i ==> !player_point_blocked(chunks@, #[trigger] points@[k]),
    {
        let (gx, gy) = points[i];
        if gx < 0 || gy < 0 || gx >= TOTAL_BLOCKS as i32 || gy >= TOTAL_BLOCKS as i32 {
            return true;
        }
        if is_solid(chunks, gx, gy) {
            return true;
        }
    }
    false
}

/// Whether a mob whose hitbox points lie on the given block coordinates
/// collides: some point is on a solid block of the grid.
pub fn mob_collides(chunks: &Vec<Vec<Chunk>>, points: &Vec<(i32, i32)>) -> (r: bool)
    ensures
        r == exists|i: int| 0 <= i < points@.len() && mob_point_blocked(chunks@, #[trigger] points@[i]),
{
    let n = points.len();
    for i in 0..n
        invariant
            n == points@.len(),
            forall|k: int| 0 <= k < i ==> !mob_point_blocked(chunks@, #[trigger] points@[k]),
    {
        let (gx, gy) = points[i];
        if is_solid(chunks, gx, gy) {
            return true;
        }
    }
    false
}

/// Whatever stops a mob stops a player at the same hitbox points: a player
/// collides wherever a mob does.
pub proof fn lemma_mob_collision_implies_player_collision(chunks: Seq<Vec<Chunk>>, points: Seq<(i32, i32)>)
    requires
        exists|i: int| 0 <= i < points.len() && mob_point_blocked(chunks, #[trigger] points[i]),
    ensures
        exists|i: int| 0 <= i < points.len() && player_point_blocked(chunks, #[trigger] points[i]),
{
    let i = choose|i: int| 0 <= i < points.len() && mob_point_blocked(chunks, #[trigger] points[i]);
    assert(player_point_blocked(chunks, points[i]));
}


/// For a coordinate with both parts non-negative, a read gives the block at
/// local position (`gx % 16`, `gy % 16`) of chunk (`gx / 16`, `gy / 16`)
/// when that chunk exists, and nothing otherwise.
pub proof fn lemma_block_at_plain(chunks: Seq<Vec<Chunk>>, gx: int, gy: int)
    requires
        0 <= gx,
        0 <= gy,
    ensures
        spec_block_at(chunks, gx, gy) == (
            if gx / 16 < chunks.len() && gy / 16 < chunks[gx / 16]@.len() {
                Some(chunks[gx / 16]@[gy / 16].blocks[gx % 16][gy % 16])
            } else {
                None::<Blocks>
            }),
{
}

/// Chunk indices round toward zero: a coordinate in -15..=-1 reads as its
/// absolute value does, and one at -16 or below names no chunk, on each axis.
pub proof fn lemma_block_at_negative(chunks: Seq<Vec<Chunk>>, a: int, g: int)
    requires
        0 <= a,
    ensures
        a < 16 ==> spec_block_at(chunks, -a, g) == spec_block_at(chunks, a, g),
        a < 16 ==> spec_block_at(chunks, g, -a) == spec_block_at(chunks, g, a),
        a >= 16 ==> spec_block_at(chunks, -a, g) == None::<Blocks>,
        a >= 16 ==> spec_block_at(chunks, g, -a) == None::<Blocks>,
{
}

/// A hitbox point at a non-negative coordinate on any block other than air
/// (dirt and grass alike) stops a mob.
pub proof fn lemma_mob_stopped_by_solid(chunks: Seq<Vec<Chunk>>, points: Seq<(i32, i32)>, i: int)
    requires
        0 <= i < points.len(),
        0 <= points[i].0,
        0 <= points[i].1,
        (points[i].0 as int) / 16 < chunks.len(),
        (points[i].1 as int) / 16 < chunks[(points[i].0 as int) / 16]@.len(),
        chunks[(points[i].0 as int) / 16]@[(points[i].1 as int) / 16].blocks[(points[i].0 as int) % 16][(points[i].1 as int) % 16]
            != Blocks::Air,
    ensures
        exists|k: int| 0 <= k < points.len() && mob_point_blocked(chunks, #[trigger] points[k]),
{
    lemma_block_at_plain(chunks, points[i].0 as int, points[i].1 as int);
    assert(mob_point_blocked(chunks, points[i]));
}

/// A mob passes when every hitbox point reads air or lies outside the grid.
pub proof fn lemma_mob_passes_air(chunks: Seq<Vec<Chunk>>, points: Seq<(i32, i32)>)
    requires
        forall|k: int| 0 <= k < points.len() ==> {
            let b = #[trigger] spec_block_at(chunks, points[k].0 as int, points[k].1 as int);
            b == Some(Blocks::Air) || b == None::<Blocks>
        },
    ensures
        !exists|k: int| 0 <= k < points.len() && mob_point_blocked(chunks, #[trigger] points[k]),
{
    assert forall|k: int| 0 <= k < points.len() implies !mob_point_blocked(chunks, #[trigger] points[k]) by {
        let b = spec_block_at(chunks, points[k].0 as int, points[k].1 as int);
        assert(b == Some(Blocks::Air) || b == None::<Blocks>);
    }
}

/// A hitbox point left of, above, right of or below the 4800 by 4800 block
/// world stops a player, whatever the grid holds.
pub proof fn lemma_player_stopped_outside(chunks: Seq<Vec<Chunk>>, points: Seq<(i32, i32)>, i: int)
    requires
        0 <= i < points.len(),
        points[i].0 < 0 || points[i].1 < 0 || points[i].0 >= 4800 || points[i].1 >= 4800,
    ensures
        exists|k: int| 0 <= k < points.len() && player_point_blocked(chunks, #[trigger] points[k]),
{
    assert(player_point_blocked(chunks, points[i]));
}

/// A hitbox point at a non-negative coordinate on a block other than air
/// stops a player.
pub proof fn lemma_player_stopped_by_solid(chunks: Seq<Vec<Chunk>>, points: Seq<(i32, i32)>, i: int)
    requires
        0 <= i < points.len(),
        0 <= points[i].0,
        0 <= points[i].1,
        (points[i].0 as int) / 16 < chunks.len(),
        (points[i].1 as int) / 16 < chunks[(points[i].0 as int) / 16]@.len(),
        chunks[(points[i].0 as int) / 16]@[(points[i].1 as int) / 16].blocks[(points[i].0 as int) % 16][(points[i].1 as int) % 16]
            != Blocks::Air,
    ensures
        exists|k: int| 0 <= k < points.len() && player_point_blocked(chunks, #[trigger] points[k]),
{
    lemma_block_at_plain(chunks, points[i].0 as int, points[i].1 as int);
    assert(player_point_blocked(chunks, points[i]));
}

/// A player passes when every hitbox point lies inside the world and reads
/// air or lies outside the grid.
pub proof fn lemma_player_passes_inside_air(chunks: Seq<Vec<Chunk>>, points: Seq<(i32, i32)>)
    requires
        forall|k: int| 0 <= k < points.len() ==> {
            let b = #[trigger] spec_block_at(chunks, points[k].0 as int, points[k].1 as int);
            &&& 0 <= points[k].0 < 4800
            &&& 0 <= points[k].1 < 4800
            &&& b == Some(Blocks::Air) || b == None::<Blocks>
        },
    ensures
        !exists|k: int| 0 <= k < points.len() && player_point_blocked(chunks, #[trigger] points[k]),
{
    assert forall|k: int| 0 <= k < points.len() implies !player_point_blocked(chunks, #[trigger] points[k]) by {
        let b = spec_block_at(chunks, points[k].0 as int, points[k].1 as int);
        assert(b == Some(Blocks::Air) || b == None::<Blocks>);
    }
}

} // verus!
