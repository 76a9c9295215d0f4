//! Exact solver and tiered memoization cache for the nested 3x3-of-3x3
//! two-player board game (ultimate tic-tac-toe).
//!
//! `game` holds the position model: boards, plays, legality and terminal
//! classification. `solver` holds the outcome vocabulary, the outcome
//! comparator and the depth-general exact solver. `cache` holds the tiered
//! least-recently-used memoization stack keyed by (position, depth).

pub mod game;
pub mod solver;
pub mod cache;
