//! Solver and comparator tests: terminal classification, one-ply search,
//! turn counts, the comparator's documented ordering, and determinism.

use std::cmp::Ordering;
use uttt_solver::game::{Board, Game, GameState, Loc, Play, Player, SBoard, CI, RI};
use uttt_solver::game::Slot::{SE, SO, SX};
use uttt_solver::solver::{result_str, Outcome, Solution};

/// A sub-board captured by X: the top row is all X.
fn sb_won_by_x() -> SBoard {
    SBoard::from_slots([SX, SX, SX, SE, SE, SE, SE, SE, SE])
}

/// A full sub-board that nobody captured.
fn sb_full_drawn() -> SBoard {
    SBoard::from_slots([SX, SX, SO, SO, SO, SX, SX, SX, SO])
}

/// A position X has already won: three captured sub-boards across the top.
fn won_game() -> Game {
    let mut b = Board::empty();
    b.sboards[0] = sb_won_by_x();
    b.sboards[1] = sb_won_by_x();
    b.sboards[2] = sb_won_by_x();
    Game { board: b, last_loc: Some(Loc::new(RI::R0, CI::C2)) }
}

/// A drawn terminal position: every cell taken, no winner anywhere.
fn tied_game() -> Game {
    let b = Board { sboards: [sb_full_drawn(); 9] };
    Game { board: b, last_loc: Some(Loc::new(RI::R8, CI::C8)) }
}

/// One ply before the draw: only the top-left cell is still empty, and the
/// last play sends X to a closed sub-board, so X may fill it anywhere open.
fn one_move_game() -> Game {
    let mut g = tied_game();
    let mut first = g.board.sboards[0].slots();
    first[0] = SE;
    g.board.sboards[0] = SBoard::from_slots(first);
    g
}

#[test]
fn test_solve_won_position_depth_invariant() {
    let g = won_game();
    assert_eq!(g.state(), GameState::Won(Player::X));
    let expected = Solution {
        opt_play: None,
        outcome: Outcome::Win { player: Player::X, turns: 0 },
    };
    assert_eq!(g.solve_for(0), expected);
    assert_eq!(g.solve_for(1), expected);
    assert_eq!(g.solve_for(5), expected);
    assert_eq!(g.next_player(), None);
}

#[test]
fn test_solve_tied_position() {
    let g = tied_game();
    assert_eq!(g.state(), GameState::Tied);
    assert_eq!(g.valid_plays().len(), 0);
    let expected = Solution { opt_play: None, outcome: Outcome::Tie { turns: 0 } };
    assert_eq!(g.solve_for(0), expected);
    assert_eq!(g.solve_for(3), expected);
}

#[test]
fn test_solve_single_move_to_tie() {
    let g = one_move_game();
    assert_eq!(g.state(), GameState::Ongoing);
    let plays = g.valid_plays();
    assert_eq!(plays.len(), 1);
    let only = Play { loc: Loc::new(RI::R0, CI::C0), player: Player::X };
    assert_eq!(plays[0], only);
    assert_eq!(g.next_player(), Some(Player::X));
    // Depth 0 cannot resolve the position.
    assert_eq!(
        g.solve_for(0),
        Solution { opt_play: None, outcome: Outcome::Unknown { depth: 0 } },
    );
    // Depth 1 recommends the only play; the child is the drawn terminal
    // position (tie in 0), seen from here as a tie in 1.
    assert_eq!(
        g.solve_for(1),
        Solution { opt_play: Some(only), outcome: Outcome::Tie { turns: 1 } },
    );
    // The child really classifies as a tie in 0.
    let child = g.play(only).unwrap();
    assert_eq!(
        child.solve_for(0),
        Solution { opt_play: None, outcome: Outcome::Tie { turns: 0 } },
    );
}

#[test]
fn test_solve_empty_game() {
    let g = Game::empty();
    assert_eq!(g.state(), GameState::Ongoing);
    assert_eq!(g.valid_plays().len(), 81);
    assert_eq!(
        g.solve_for(0),
        Solution { opt_play: None, outcome: Outcome::Unknown { depth: 0 } },
    );
    let s1 = g.solve_for(1);
    // No one-ply line ends the game, so the budget is exhausted, and the
    // ranking tie breaks towards the first-enumerated play.
    assert_eq!(s1.outcome, Outcome::Unknown { depth: 1 });
    assert_eq!(s1.opt_play, Some(Play { loc: Loc::new(RI::R0, CI::C0), player: Player::X }));
}

#[test]
fn test_solve_turn_counts_within_budget() {
    let g = one_move_game();
    for d in 0u8..4u8 {
        match g.solve_for(d).outcome {
            Outcome::Win { turns, .. } => assert!(turns <= d),
            Outcome::Tie { turns } => assert!(turns <= d),
            Outcome::Unknown { depth } => assert_eq!(depth, d),
        }
    }
}

#[test]
fn test_play_rejects_illegal() {
    let g = Game::empty();
    // Wrong player: O may not open the game.
    assert_eq!(g.play(Play { loc: Loc::new(RI::R0, CI::C0), player: Player::O }), None);
    let g1 = g.play(Play { loc: Loc::new(RI::R6, CI::C3), player: Player::X }).unwrap();
    // Taken cell.
    assert_eq!(g1.play(Play { loc: Loc::new(RI::R6, CI::C3), player: Player::O }), None);
    // The play at (6, 3) sits at position (0, 0) of its sub-board, so O is
    // sent to the top-left sub-board; a play elsewhere is illegal...
    assert_eq!(g1.play(Play { loc: Loc::new(RI::R4, CI::C4), player: Player::O }), None);
    // ... and a play inside it is legal.
    assert!(g1.play(Play { loc: Loc::new(RI::R0, CI::C0), player: Player::O }).is_some());
    // Terminal positions admit no play at all.
    assert_eq!(
        won_game().play(Play { loc: Loc::new(RI::R8, CI::C8), player: Player::O }),
        None,
    );
}

#[test]
fn test_compare_ordering_rules() {
    let me = Player::X;
    let win_me_2 = Outcome::Win { player: Player::X, turns: 2 };
    let win_me_4 = Outcome::Win { player: Player::X, turns: 4 };
    let win_op_2 = Outcome::Win { player: Player::O, turns: 2 };
    let win_op_4 = Outcome::Win { player: Player::O, turns: 4 };
    let tie_1 = Outcome::Tie { turns: 1 };
    let tie_3 = Outcome::Tie { turns: 3 };
    let unk_0 = Outcome::Unknown { depth: 0 };
    let unk_9 = Outcome::Unknown { depth: 9 };
    // A win for me beats a win for the opponent, a tie, or unknown.
    assert_eq!(Outcome::compare(me, &win_me_4, &win_op_2), Ordering::Greater);
    assert_eq!(Outcome::compare(me, &win_me_4, &tie_1), Ordering::Greater);
    assert_eq!(Outcome::compare(me, &win_me_4, &unk_0), Ordering::Greater);
    // Between two wins for me, fewer turns is better.
    assert_eq!(Outcome::compare(me, &win_me_2, &win_me_4), Ordering::Greater);
    // Between two wins for the opponent, more turns is better.
    assert_eq!(Outcome::compare(me, &win_op_4, &win_op_2), Ordering::Greater);
    // A tie beats a win for the opponent; fewer turns to a tie is better.
    assert_eq!(Outcome::compare(me, &tie_1, &win_op_4), Ordering::Greater);
    assert_eq!(Outcome::compare(me, &tie_1, &tie_3), Ordering::Greater);
    // Unknown sits between a loss and everything else; two unknowns are
    // equal whatever their depths.
    assert_eq!(Outcome::compare(me, &unk_0, &win_op_4), Ordering::Greater);
    assert_eq!(Outcome::compare(me, &unk_0, &tie_3), Ordering::Less);
    assert_eq!(Outcome::compare(me, &unk_0, &win_me_4), Ordering::Less);
    assert_eq!(Outcome::compare(me, &unk_0, &unk_9), Ordering::Equal);
    // Reflexively equal, antisymmetric, and deterministic.
    assert_eq!(Outcome::compare(me, &tie_1, &tie_1), Ordering::Equal);
    assert_eq!(Outcome::compare(me, &win_op_2, &win_op_4), Ordering::Less);
    assert_eq!(
        Outcome::compare(me, &win_me_2, &tie_1),
        Outcome::compare(me, &win_me_2, &tie_1),
    );
}

#[test]
fn test_result_str() {
    assert_eq!(result_str(Some(Player::X)), "X wins");
    assert_eq!(result_str(Some(Player::O)), "O wins");
    assert_eq!(result_str(None), "  tie ");
}
