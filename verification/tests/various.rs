//! Data-model tests: games, boards, sub-boards and rows.

use uttt_solver::game::{Board, Game, Loc, Play, Player, Row, SBoard, CI, RI, SRI};
use uttt_solver::game::Slot::{SE, SO, SX};

#[test]
fn test_empty_game() {
    assert!(Game::empty() == Game::empty());
    assert!(Game::empty().board == Board::empty());
    assert!(Game::empty().last_loc == None);
    assert!(Game::empty().last_player() == None);
}

#[test]
fn test_game_play() {
    let opt_game = Game::empty().play(Play {
        loc: Loc::new(RI::R6, CI::C3),
        player: Player::X,
    });
    assert!(opt_game != None);
    assert!(opt_game != Some(Game::empty()));
}

#[test]
fn test_game_last_player() {
    assert!(Game::empty().last_player() == None);
    let game = Game::empty()
        .play(Play { loc: Loc::new(RI::R6, CI::C3), player: Player::X })
        .unwrap();
    assert!(game.last_player() == Some(Player::X));
}

#[test]
fn test_empty_board() {
    assert!(Board::empty() == Board::empty());
    assert!(Board::empty().sboards == [
        SBoard::empty(), SBoard::empty(), SBoard::empty(),
        SBoard::empty(), SBoard::empty(), SBoard::empty(),
        SBoard::empty(), SBoard::empty(), SBoard::empty(),
    ]);
    assert!(&Board::empty().slots()[..] == &[
        SE, SE, SE, SE, SE, SE, SE, SE, SE,
        SE, SE, SE, SE, SE, SE, SE, SE, SE,
        SE, SE, SE, SE, SE, SE, SE, SE, SE,
        SE, SE, SE, SE, SE, SE, SE, SE, SE,
        SE, SE, SE, SE, SE, SE, SE, SE, SE,
        SE, SE, SE, SE, SE, SE, SE, SE, SE,
        SE, SE, SE, SE, SE, SE, SE, SE, SE,
        SE, SE, SE, SE, SE, SE, SE, SE, SE,
        SE, SE, SE, SE, SE, SE, SE, SE, SE,
    ][..]);
    assert!(Board::empty().slots_9x9() == [
        [SE, SE, SE, SE, SE, SE, SE, SE, SE],
        [SE, SE, SE, SE, SE, SE, SE, SE, SE],
        [SE, SE, SE, SE, SE, SE, SE, SE, SE],
        [SE, SE, SE, SE, SE, SE, SE, SE, SE],
        [SE, SE, SE, SE, SE, SE, SE, SE, SE],
        [SE, SE, SE, SE, SE, SE, SE, SE, SE],
        [SE, SE, SE, SE, SE, SE, SE, SE, SE],
        [SE, SE, SE, SE, SE, SE, SE, SE, SE],
        [SE, SE, SE, SE, SE, SE, SE, SE, SE],
    ]);
}

#[test]
fn test_empty_sboard() {
    let sb = SBoard::empty();
    assert!(sb.row_at(SRI::R0) == Row::empty());
    assert!(sb.row_at(SRI::R1) == Row::empty());
    assert!(sb.row_at(SRI::R2) == Row::empty());
    assert!(sb.rows() == [Row::empty(), Row::empty(), Row::empty()]);
    assert!(sb.slots() == [
        SE, SE, SE,
        SE, SE, SE,
        SE, SE, SE,
    ]);
    assert!(sb.slots_3x3() == [
        [SE, SE, SE],
        [SE, SE, SE],
        [SE, SE, SE],
    ]);
}

#[test]
fn test_sboard_from_slots() {
    assert!(SBoard::from_slots([
        SE, SE, SX,
        SO, SX, SE,
        SE, SE, SE,
    ]).slots() == [
        SE, SE, SX,
        SO, SX, SE,
        SE, SE, SE,
    ]);
    assert!(SBoard::from_slots([
        SE, SE, SE,
        SE, SE, SX,
        SO, SX, SE,
    ]).slots() == [
        SE, SE, SE,
        SE, SE, SX,
        SO, SX, SE,
    ]);
}

#[test]
fn test_empty_row() {
    let er = Row::empty();
    assert!(er.slots() == [SE, SE, SE]);
}
