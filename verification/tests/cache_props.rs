//! Cache tests: idempotence, agreement with the direct solver, eviction,
//! key separation, and the byte codecs.

use uttt_solver::cache::{decode_solution, encode_key, encode_solution, outcome_cache, Stack};
use uttt_solver::game::{Game, Loc, Play, Player, CI, RI};
use uttt_solver::solver::{Outcome, Solution};

fn opening(g: Game, r: RI, c: CI, p: Player) -> Game {
    g.play(Play { loc: Loc::new(r, c), player: p }).unwrap()
}

#[test]
fn test_get_and_put_idempotent() {
    let mut stack = Stack::with_capacities(&vec![4, 16]);
    let g = Game::empty();
    let first = stack.get_and_put(&g, 1);
    let len0 = stack.cache_len(0);
    let len1 = stack.cache_len(1);
    let m0 = stack.miss_count(0);
    let m1 = stack.miss_count(1);
    let second = stack.get_and_put(&g, 1);
    assert_eq!(first, second);
    assert_eq!(stack.cache_len(0), len0);
    assert_eq!(stack.cache_len(1), len1);
    assert_eq!(stack.miss_count(0), m0);
    assert_eq!(stack.miss_count(1), m1);
}

#[test]
fn test_get_and_put_matches_direct_solve() {
    let mut stack = Stack::new();
    let g0 = Game::empty();
    let g1 = opening(g0, RI::R4, CI::C4, Player::X);
    for d in 0u8..2u8 {
        assert_eq!(stack.get_and_put(&g0, d), g0.solve_for(d));
        assert_eq!(stack.get_and_put(&g1, d), g1.solve_for(d));
    }
    let expected = g0.solve_for(2);
    assert_eq!(stack.get_and_put(&g0, 2), expected);
    // Ask again, now answered from the cache.
    assert_eq!(stack.get_and_put(&g0, 2), expected);
}

#[test]
fn test_distinct_positions_do_not_collide() {
    let mut stack = Stack::with_capacities(&vec![8]);
    let g1 = Game::empty();
    let g2 = opening(g1, RI::R0, CI::C0, Player::X);
    let s1 = stack.get_and_put(&g1, 1);
    let s2 = stack.get_and_put(&g2, 1);
    // Both entries coexist; a repeated query hits its own entry.
    assert_eq!(stack.cache_len(0), 2);
    assert_eq!(stack.get_and_put(&g1, 1), s1);
    assert_eq!(stack.get_and_put(&g2, 1), s2);
    assert_eq!(s1, g1.solve_for(1));
    assert_eq!(s2, g2.solve_for(1));
    assert_ne!(encode_key(&g1, 1), encode_key(&g2, 1));
    // The same position at two depths is two entries as well.
    assert_ne!(encode_key(&g1, 1), encode_key(&g1, 2));
}

#[test]
fn test_fast_tier_evicts_and_recomputes() {
    let mut stack = Stack::with_capacities(&vec![1, 8]);
    let g1 = Game::empty();
    let g2 = opening(g1, RI::R0, CI::C0, Player::X);
    let s1 = stack.get_and_put(&g1, 1);
    let s2 = stack.get_and_put(&g2, 1);
    // The fast tier holds one entry; the roomier tier kept both.
    assert_eq!(stack.cache_len(0), 1);
    assert_eq!(stack.cache_len(1), 2);
    // The evicted entry is simply served again, from the second tier or by
    // recomputation, with the same result.
    assert_eq!(stack.get_and_put(&g1, 1), s1);
    assert_eq!(stack.get_and_put(&g2, 1), s2);
}

#[test]
fn test_tier_zero_repopulated_from_slower_tier() {
    let mut stack = Stack::with_capacities(&vec![1, 8]);
    let g1 = Game::empty();
    let g2 = opening(g1, RI::R0, CI::C0, Player::X);
    let _ = stack.get_and_put(&g1, 1);
    let _ = stack.get_and_put(&g2, 1);
    // g1 was evicted from tier 0. Serving it again hits tier 1 and writes
    // the entry through to tier 0, so tier 0 misses once and no solve of
    // tier 1's copy is repeated on the next call.
    let m1_before = stack.miss_count(1);
    let s1 = stack.get_and_put(&g1, 1);
    assert_eq!(stack.miss_count(1), m1_before);
    assert_eq!(s1, g1.solve_for(1));
    let m0_before = stack.miss_count(0);
    assert_eq!(stack.get_and_put(&g1, 1), s1);
    assert_eq!(stack.miss_count(0), m0_before);
}

#[test]
fn test_outcome_cache_device() {
    let d = outcome_cache(16);
    assert_eq!(d.capacity(), 16);
    assert_eq!(d.cache_len(), 0);
    assert_eq!(d.miss_count(), 0);
}

#[test]
fn test_solution_codec_round_trip() {
    let with_play = Solution {
        opt_play: Some(Play { loc: Loc::new(RI::R6, CI::C3), player: Player::O }),
        outcome: Outcome::Win { player: Player::X, turns: 7 },
    };
    let without_play = Solution { opt_play: None, outcome: Outcome::Unknown { depth: 3 } };
    let tie = Solution { opt_play: None, outcome: Outcome::Tie { turns: 0 } };
    assert_eq!(decode_solution(&encode_solution(&with_play)), Some(with_play));
    assert_eq!(decode_solution(&encode_solution(&without_play)), Some(without_play));
    assert_eq!(decode_solution(&encode_solution(&tie)), Some(tie));
    assert_eq!(decode_solution(&vec![9, 9, 9]), None);
}

#[test]
fn test_stack_len() {
    let stack = Stack::new();
    assert_eq!(stack.len(), 2);
    let stack3 = Stack::with_capacities(&vec![2, 4, 8]);
    assert_eq!(stack3.len(), 3);
}
