use blockworld::block::Blocks;
use blockworld::controls::{plan_mouse, should_refresh_screen, MouseAction, PICKAXE_ID, SWORD_ID};
use blockworld::player::{chunk_in_view, chunk_index};
use blockworld::world::Chunk;

fn grid() -> Vec<Vec<Chunk>> {
    let mut g: Vec<Vec<Chunk>> = (0..2).map(|_| (0..2).map(|_| Chunk { blocks: [[Blocks::Air; 16]; 16] }).collect()).collect();
    g[0][0].blocks[2][3] = Blocks::Grass;
    g
}

fn is_keep(a: &MouseAction, b: Blocks) -> bool {
    matches!(a, MouseAction::KeepMining { block } if *block == b)
}

fn is_start(a: &MouseAction, b: Blocks) -> bool {
    matches!(a, MouseAction::StartMining { block } if *block == b)
}

fn is_other(a: &MouseAction, s: bool, p: bool) -> bool {
    matches!(a, MouseAction::Other { strike, place } if *strike == s && *place == p)
}

#[test]
fn out_of_reach_does_nothing() {
    let g = grid();
    let a = plan_mouse(&g, None, false, PICKAXE_ID, true, true, true, (2, 3));
    assert!(matches!(a, MouseAction::Ignore));
}

#[test]
fn pickaxe_starts_then_keeps_mining() {
    let g = grid();
    let a = plan_mouse(&g, None, true, PICKAXE_ID, true, false, false, (2, 3));
    assert!(is_start(&a, Blocks::Grass));
    let a = plan_mouse(&g, Some((2, 3)), true, PICKAXE_ID, true, false, false, (2, 3));
    assert!(is_keep(&a, Blocks::Grass));
    let a = plan_mouse(&g, Some((2, 4)), true, PICKAXE_ID, true, false, true, (2, 3));
    assert!(is_start(&a, Blocks::Grass));
}

#[test]
fn pickaxe_on_air_falls_through() {
    let g = grid();
    let a = plan_mouse(&g, Some((2, 3)), true, PICKAXE_ID, true, true, false, (5, 5));
    assert!(is_other(&a, false, false));
    let a = plan_mouse(&g, Some((2, 3)), true, PICKAXE_ID, true, true, true, (100, 5));
    assert!(is_other(&a, false, true));
}

#[test]
fn sword_click_strikes() {
    let g = grid();
    let a = plan_mouse(&g, None, true, SWORD_ID, true, true, false, (2, 3));
    assert!(is_other(&a, true, false));
    let a = plan_mouse(&g, None, true, SWORD_ID, true, false, true, (2, 3));
    assert!(is_other(&a, false, true));
}

#[test]
fn other_items_only_place() {
    let g = grid();
    let a = plan_mouse(&g, None, true, 3, true, true, true, (2, 3));
    assert!(is_other(&a, false, true));
    let a = plan_mouse(&g, None, true, 0, false, false, false, (2, 3));
    assert!(is_other(&a, false, false));
}

#[test]
fn screen_refresh_every_ten_frames() {
    assert!(should_refresh_screen(0));
    assert!(!should_refresh_screen(9));
    assert!(should_refresh_screen(10));
    assert!(!should_refresh_screen(11));
}

#[test]
fn chunk_index_checks_grid() {
    let g = grid();
    assert_eq!(chunk_index(&g, 1, 0), (1, 0));
    assert_eq!(chunk_index(&g, 2, 0), (-1, -1));
    assert_eq!(chunk_index(&g, 0, -1), (-1, -1));
    assert_eq!(chunk_index(&g, -3, 1), (-1, -1));
}

#[test]
fn chunks_in_view_within_three() {
    assert!(chunk_in_view(10, 10, 13, 7));
    assert!(!chunk_in_view(10, 10, 14, 10));
    assert!(!chunk_in_view(10, 10, 10, 6));
    assert!(chunk_in_view(-1, 0, 0, 2));
}

#[test]
fn hardness_in_milliseconds() {
    assert_eq!(Blocks::Air.hardness_ms(), 0);
    assert_eq!(Blocks::Dirt.hardness_ms(), 400);
    assert_eq!(Blocks::Grass.hardness_ms(), 600);
}

use blockworld::controls::apply_mouse_action;
use blockworld::world::block_at;

#[test]
fn finished_mining_breaks_the_block_and_stops_tracking() {
    let mut g = grid();
    let a = plan_mouse(&g, Some((2, 3)), true, PICKAXE_ID, true, false, false, (2, 3));
    let next = apply_mouse_action(&mut g, Some((2, 3)), &a, (2, 3), false);
    assert_eq!(next, Some((2, 3)));
    assert_eq!(block_at(&g, 2, 3), Some(Blocks::Grass));
    let next = apply_mouse_action(&mut g, Some((2, 3)), &a, (2, 3), true);
    assert_eq!(next, None);
    assert_eq!(block_at(&g, 2, 3), Some(Blocks::Air));
}

#[test]
fn starting_mining_tracks_the_target() {
    let mut g = grid();
    let a = plan_mouse(&g, Some((9, 9)), true, PICKAXE_ID, true, false, false, (2, 3));
    assert_eq!(apply_mouse_action(&mut g, Some((9, 9)), &a, (2, 3), true), Some((2, 3)));
    assert_eq!(block_at(&g, 2, 3), Some(Blocks::Grass));
}

#[test]
fn placing_keeps_tracking_and_releasing_clears_it() {
    let mut g = grid();
    let a = plan_mouse(&g, Some((2, 3)), true, 3, false, false, true, (6, 6));
    assert_eq!(apply_mouse_action(&mut g, Some((2, 3)), &a, (6, 6), false), Some((2, 3)));
    assert_eq!(block_at(&g, 6, 6), Some(Blocks::Dirt));
    let a = plan_mouse(&g, Some((2, 3)), true, PICKAXE_ID, false, false, false, (2, 3));
    assert_eq!(apply_mouse_action(&mut g, Some((2, 3)), &a, (2, 3), false), None);
    let a = plan_mouse(&g, Some((2, 3)), false, PICKAXE_ID, false, false, false, (2, 3));
    assert_eq!(apply_mouse_action(&mut g, Some((2, 3)), &a, (2, 3), true), Some((2, 3)));
    assert_eq!(block_at(&g, 2, 3), Some(Blocks::Grass));
}

#[test]
fn chunk_in_view_wraps_large_positions() {
    assert!(!chunk_in_view(10, 10, usize::MAX, 10));
    assert!(chunk_in_view(-1, 0, usize::MAX, 0));
}
