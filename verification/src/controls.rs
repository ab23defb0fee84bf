use vstd::prelude::*;
use crate::block::Blocks;
use crate::world::{Chunk, block_at, set_block, set_block_post, spec_block_at, in_grid, same_cell, lemma_get_after_set, lemma_set_keeps_others};
use crate::inventory::Inventory;

verus! {

/// Item kind of the pickaxe, which mines blocks.
pub const PICKAXE_ID: usize = 1;
/// Item kind of the sword, which strikes mobs.
pub const SWORD_ID: usize = 2;
/// The screen size is read again every this many frames.
pub const SCREEN_REFRESH_FRAMES: usize = 10;

/// What one frame of mouse input does (`apply_mouse_action` carries it out).
pub enum MouseAction {
    /// The cursor is out of the player's reach: nothing changes.
    Ignore,
    /// Mining goes on at the target, the block that was already being mined.
    KeepMining { block: Blocks },
    /// Mining starts over, from no progress, at the target.
    StartMining { block: Blocks },
    /// No mining this frame: `strike` hits the mobs under the cursor; then,
    /// with `place`, dirt is set at the target and the mining state is kept,
    /// and without it the mining state is cleared.
    Other { strike: bool, place: bool },
}

/// The solid block at the target, if the target lies in the grid on one.
pub open spec fn solid_target(chunks: Seq<Vec<Chunk>>, target: (i32, i32)) -> Option<Blocks> {
    match spec_block_at(chunks, target.0 as int, target.1 as int) {
        Some(b) => if b != Blocks::Air { Some(b) } else { None },
        None => None,
    }
}

/// The action of one frame of mouse input. `breaking` is the block being
/// mined, `target` the block under the cursor, `item_id` the held item.
pub open spec fn spec_plan_mouse(
    chunks: Seq<Vec<Chunk>>,
    breaking: Option<(i32, i32)>,
    in_reach: bool,
    item_id: usize,
    left_down: bool,
    left_pressed: bool,
    right_down: bool,
    target: (i32, i32),
) -> MouseAction {
    let mining = left_down && item_id == PICKAXE_ID;
    if !in_reach {
        MouseAction::Ignore
    } else if mining && solid_target(chunks, target) is Some {
        let b = solid_target(chunks, target)->0;
        if breaking == Some(target) {
            MouseAction::KeepMining { block: b }
        } else {
            MouseAction::StartMining { block: b }
        }
    } else {
        MouseAction::Other { strike: !mining && left_pressed && item_id == SWORD_ID, place: right_down }
    }
}

/// Decides what one frame of mouse input does (see `MouseAction`): out of
/// reach nothing; with the pickaxe and the left button down on a solid block,
/// mining; else a sword strike on a left click, then dirt placed on a right
/// button down, or the mining state cleared.
pub fn plan_mouse(
    chunks: &Vec<Vec<Chunk>>,
    breaking: Option<(i32, i32)>,
    in_reach: bool,
    item_id: usize,
    left_down: bool,
    left_pressed: bool,
    right_down: bool,
    target: (i32, i32),
) -> (a: MouseAction)
    ensures
        a == spec_plan_mouse(chunks@, breaking, in_reach, item_id, left_down, left_pressed, right_down, target),
{
    if !in_reach {
        return MouseAction::Ignore;
    }
    let mining = left_down && item_id == PICKAXE_ID;
    if mining {
        match block_at(chunks, target.0, target.1) {
            Some(b) => {
                if b != Blocks::Air {
                    let same = match breaking {
                        Some(p) => p.0 == target.0 && p.1 == target.1,
                        None => false,
                    };
                    if same {
                        return MouseAction::KeepMining { block: b };
                    } else {
                        return MouseAction::StartMining { block: b };
                    }
                }
            },
            None => {},
        }
    }
    MouseAction::Other { strike: !mining && left_pressed && item_id == SWORD_ID, place: right_down }
}

/// The block tracked for mining after a frame whose action is `action`,
/// where `breaking` was tracked before and `target` is under the cursor.
/// `finished` says whether the mining progress, on a `KeepMining` frame,
/// reached the block's hardness; it matters on no other frame.
pub open spec fn spec_next_breaking(
    action: MouseAction,
    breaking: Option<(i32, i32)>,
    target: (i32, i32),
    finished: bool,
) -> Option<(i32, i32)> {
    match action {
        MouseAction::Ignore => breaking,
        MouseAction::KeepMining { .. } => if finished { None } else { breaking },
        MouseAction::StartMining { .. } => Some(target),
        MouseAction::Other { strike, place } => if place { breaking } else { None },
    }
}

/// What a frame's action does to the grid: a finished mining turns the target
/// to air, a placing sets dirt there, and any other frame leaves the grid.
pub open spec fn mouse_world_post(
    action: MouseAction,
    target: (i32, i32),
    finished: bool,
    old: Seq<Vec<Chunk>>,
    new: Seq<Vec<Chunk>>,
) -> bool {
    match action {
        MouseAction::KeepMining { .. } =>
            if finished {
                set_block_post(old, new, target.0 as int, target.1 as int, Blocks::Air)
            } else {
                new == old
            },
        MouseAction::Other { strike, place } =>
            if place {
                set_block_post(old, new, target.0 as int, target.1 as int, Blocks::Dirt)
            } else {
                new == old
            },
        _ => new == old,
    }
}

/// Carries out a frame's action on the grid and returns the block tracked
/// for mining afterwards (see `spec_next_breaking` and `mouse_world_post`).
/// Striking mobs is left to the caller.
pub fn apply_mouse_action(
    chunks: &mut Vec<Vec<Chunk>>,
    breaking: Option<(i32, i32)>,
    action: &MouseAction,
    target: (i32, i32),
    finished: bool,
) -> (next: Option<(i32, i32)>)
    ensures
        next == spec_next_breaking(*action, breaking, target, finished),
        mouse_world_post(*action, target, finished, old(chunks)@, final(chunks)@),
{
    match action {
        MouseAction::Ignore => breaking,
        MouseAction::KeepMining { .. } => {
            if finished {
                set_block(chunks, target.0, target.1, Blocks::Air);
                None
            } else {
                breaking
            }
        },
        MouseAction::StartMining { .. } => Some(target),
        MouseAction::Other { strike: _, place } => {
            if *place {
                set_block(chunks, target.0, target.1, Blocks::Dirt);
                breaking
            } else {
                None
            }
        },
    }
}

/// In reach and with the right button up, a block stays tracked for mining
/// after a frame only if the left button is down with the pickaxe held, and
/// then it is the target under the cursor, a solid block of the grid, left
/// unbroken this frame.
pub proof fn lemma_tracked_block_is_mined_target(
    chunks: Seq<Vec<Chunk>>,
    new_chunks: Seq<Vec<Chunk>>,
    breaking: Option<(i32, i32)>,
    item_id: usize,
    left_down: bool,
    left_pressed: bool,
    target: (i32, i32),
    finished: bool,
)
    requires
        mouse_world_post(
            spec_plan_mouse(chunks, breaking, true, item_id, left_down, left_pressed, false, target),
            target, finished, chunks, new_chunks),
    ensures
        ({
            let next = spec_next_breaking(
                spec_plan_mouse(chunks, breaking, true, item_id, left_down, left_pressed, false, target),
                breaking, target, finished);
            next is Some ==> {
                &&& left_down
                &&& item_id == PICKAXE_ID
                &&& next->0 == target
                &&& solid_target(chunks, target) is Some
                &&& new_chunks == chunks
            }
        }),
{
}

/// In reach, with the pickaxe held and the left button down, a target that
/// reads a block other than air is mined: mining goes on when it is the
/// block already tracked and starts over otherwise, whatever kind of block
/// it is and whatever the other buttons do.
pub proof fn lemma_pickaxe_mines_solid_target(
    chunks: Seq<Vec<Chunk>>,
    breaking: Option<(i32, i32)>,
    left_pressed: bool,
    right_down: bool,
    target: (i32, i32),
    b: Blocks,
)
    requires
        spec_block_at(chunks, target.0 as int, target.1 as int) == Some(b),
        b != Blocks::Air,
    ensures
        breaking == Some(target) ==>
            spec_plan_mouse(chunks, breaking, true, PICKAXE_ID, true, left_pressed, right_down, target)
                == (MouseAction::KeepMining { block: b }),
        breaking != Some(target) ==>
            spec_plan_mouse(chunks, breaking, true, PICKAXE_ID, true, left_pressed, right_down, target)
                == (MouseAction::StartMining { block: b }),
{
}

/// Out of reach nothing happens; in reach, a target that reads air or lies
/// outside the grid is never mined.
pub proof fn lemma_no_mining_off_solid(
    chunks: Seq<Vec<Chunk>>,
    breaking: Option<(i32, i32)>,
    in_reach: bool,
    item_id: usize,
    left_down: bool,
    left_pressed: bool,
    right_down: bool,
    target: (i32, i32),
)
    ensures
        !in_reach ==> spec_plan_mouse(chunks, breaking, in_reach, item_id, left_down, left_pressed, right_down, target)
            == MouseAction::Ignore,
        in_reach && (spec_block_at(chunks, target.0 as int, target.1 as int) == Some(Blocks::Air)
            || spec_block_at(chunks, target.0 as int, target.1 as int) == None::<Blocks>) ==>
            spec_plan_mouse(chunks, breaking, in_reach, item_id, left_down, left_pressed, right_down, target)
                == (MouseAction::Other {
                    strike: !(left_down && item_id == PICKAXE_ID) && left_pressed && item_id == SWORD_ID,
                    place: right_down,
                }),
{
}

/// A frame that places dirt sets the target cell to dirt, where the target
/// lies in the grid, and every coordinate naming another cell reads as before.
pub proof fn lemma_place_sets_dirt_at_target(
    strike: bool,
    target: (i32, i32),
    finished: bool,
    old: Seq<Vec<Chunk>>,
    new: Seq<Vec<Chunk>>,
    hx: int,
    hy: int,
)
    requires
        mouse_world_post(MouseAction::Other { strike, place: true }, target, finished, old, new),
    ensures
        spec_block_at(new, target.0 as int, target.1 as int)
            == (if in_grid(old, target.0 as int, target.1 as int) { Some(Blocks::Dirt) } else { None::<Blocks> }),
        !same_cell(target.0 as int, target.1 as int, hx, hy) ==> spec_block_at(new, hx, hy) == spec_block_at(old, hx, hy),
{
    lemma_get_after_set(old, new, target.0 as int, target.1 as int, Blocks::Dirt);
    if !same_cell(target.0 as int, target.1 as int, hx, hy) {
        lemma_set_keeps_others(old, new, target.0 as int, target.1 as int, Blocks::Dirt, hx, hy);
    }
}

/// For a target with both parts non-negative inside the grid, placing dirt
/// writes chunk (`x / 16`, `y / 16`) at local (`x % 16`, `y % 16`).
pub proof fn lemma_place_writes_plain_cell(
    strike: bool,
    target: (i32, i32),
    finished: bool,
    old: Seq<Vec<Chunk>>,
    new: Seq<Vec<Chunk>>,
)
    requires
        mouse_world_post(MouseAction::Other { strike, place: true }, target, finished, old, new),
        0 <= target.0,
        0 <= target.1,
        (target.0 as int) / 16 < old.len(),
        (target.1 as int) / 16 < old[(target.0 as int) / 16]@.len(),
    ensures
        new[(target.0 as int) / 16]@[(target.1 as int) / 16].blocks[(target.0 as int) % 16][(target.1 as int) % 16]
            == Blocks::Dirt,
{
    lemma_get_after_set(old, new, target.0 as int, target.1 as int, Blocks::Dirt);
    crate::world::lemma_block_at_plain(new, target.0 as int, target.1 as int);
}

/// A frame that finishes mining turns the target cell to air, where the
/// target lies in the grid, and every coordinate naming another cell reads as
/// before; mining that has not finished changes no cell.
pub proof fn lemma_finished_mining_clears_target(
    b: Blocks,
    target: (i32, i32),
    finished: bool,
    old: Seq<Vec<Chunk>>,
    new: Seq<Vec<Chunk>>,
    hx: int,
    hy: int,
)
    requires
        mouse_world_post(MouseAction::KeepMining { block: b }, target, finished, old, new),
    ensures
        finished ==> spec_block_at(new, target.0 as int, target.1 as int)
            == (if in_grid(old, target.0 as int, target.1 as int) { Some(Blocks::Air) } else { None::<Blocks> }),
        finished && !same_cell(target.0 as int, target.1 as int, hx, hy) ==>
            spec_block_at(new, hx, hy) == spec_block_at(old, hx, hy),
        !finished ==> new == old,
{
    if finished {
        lemma_get_after_set(old, new, target.0 as int, target.1 as int, Blocks::Air);
        if !same_cell(target.0 as int, target.1 as int, hx, hy) {
            lemma_set_keeps_others(old, new, target.0 as int, target.1 as int, Blocks::Air, hx, hy);
        }
    }
}

/// The kind of the item in the selected slot.
pub fn held_item_id(inv: &Inventory) -> (id: usize)
    requires
        inv.active_slot < inv.items@.len(),
    ensures
        id == inv.items@[inv.active_slot as int].item_id,
{
    inv.items[inv.active_slot].item_id
}

/// Whether the screen size is read again on frame `frame_count`.
pub fn should_refresh_screen(frame_count: usize) -> (r: bool)
    ensures
        r == (frame_count % SCREEN_REFRESH_FRAMES == 0),
{
    frame_count % SCREEN_REFRESH_FRAMES == 0
}

} // verus!
