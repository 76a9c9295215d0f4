//! The position model: players, slots, board coordinates, sub-boards, the
//! full board, and the rules for legal plays and terminal classification.
//!
//! The game is played on a 3x3 grid of 3x3 sub-boards. A play claims one
//! empty cell. Claiming three cells in a row inside a sub-board captures
//! that sub-board; capturing three sub-boards in a row wins the game. A
//! sub-board is closed once it is captured or full. Each play names the
//! sub-board the opponent must answer in (the one whose position inside
//! its sub-board matches the play's cell); if that sub-board is closed,
//! the opponent may play in any open sub-board.

use vstd::prelude::*;

verus! {

broadcast use vstd::array::group_array_axioms;

/// One of the two players. X moves first in a fresh game.
#[derive(Clone, Copy, Debug, PartialEq, Eq, PartialOrd, Ord, Structural, Hash)]
pub enum Player {
    X,
    O,
}

impl Player {
    /// The other player.
    pub open spec fn spec_opponent(self) -> Player {
        match self {
            Player::X => Player::O,
            Player::O => Player::X,
        }
    }

    /// Returns the other player.
    pub fn opponent(self) -> (r: Player)
        ensures
            r == self.spec_opponent(),
    {
        match self {
            Player::X => Player::O,
            Player::O => Player::X,
        }
    }
}

/// The contents of one cell: empty, taken by X, or taken by O.
#[derive(Clone, Copy, Debug, PartialEq, Eq, Structural, Hash)]
pub enum Slot {
    SE,
    SX,
    SO,
}

/// The slot a player's mark leaves behind.
pub open spec fn slot_for(p: Player) -> Slot {
    match p {
        Player::X => Slot::SX,
        Player::O => Slot::SO,
    }
}

/// Returns the slot a player's mark leaves behind.
pub fn mark_of(p: Player) -> (s: Slot)
    ensures
        s == slot_for(p),
{
    match p {
        Player::X => Slot::SX,
        Player::O => Slot::SO,
    }
}

/// A row index on the full 9x9 grid.
#[derive(Clone, Copy, Debug, PartialEq, Eq, Structural, Hash)]
pub enum RI {
    R0,
    R1,
    R2,
    R3,
    R4,
    R5,
    R6,
    R7,
    R8,
}

/// A column index on the full 9x9 grid.
#[derive(Clone, Copy, Debug, PartialEq, Eq, Structural, Hash)]
pub enum CI {
    C0,
    C1,
    C2,
    C3,
    C4,
    C5,
    C6,
    C7,
    C8,
}

impl RI {
    /// The row as a number, 0 through 8.
    pub open spec fn as_int(self) -> int {
        match self {
            RI::R0 => 0,
            RI::R1 => 1,
            RI::R2 => 2,
            RI::R3 => 3,
            RI::R4 => 4,
            RI::R5 => 5,
            RI::R6 => 6,
            RI::R7 => 7,
            RI::R8 => 8,
        }
    }

    /// Returns the row as a number, 0 through 8.
    pub fn index(self) -> (r: u8)
        ensures
            r as int == self.as_int(),
            r < 9,
    {
        match self {
            RI::R0 => 0,
            RI::R1 => 1,
            RI::R2 => 2,
            RI::R3 => 3,
            RI::R4 => 4,
            RI::R5 => 5,
            RI::R6 => 6,
            RI::R7 => 7,
            RI::R8 => 8,
        }
    }

    /// The row index with the given number.
    pub open spec fn spec_from_index(i: int) -> RI {
        if i == 0 {
            RI::R0
        } else if i == 1 {
            RI::R1
        } else if i == 2 {
            RI::R2
        } else if i == 3 {
            RI::R3
        } else if i == 4 {
            RI::R4
        } else if i == 5 {
            RI::R5
        } else if i == 6 {
            RI::R6
        } else if i == 7 {
            RI::R7
        } else {
            RI::R8
        }
    }

    /// Returns the row index with the given number.
    pub fn from_index(i: u8) -> (r: RI)
        requires
            i < 9,
        ensures
            r == RI::spec_from_index(i as int),
            r.as_int() == i as int,
    {
        if i == 0 {
            RI::R0
        } else if i == 1 {
            RI::R1
        } else if i == 2 {
            RI::R2
        } else if i == 3 {
            RI::R3
        } else if i == 4 {
            RI::R4
        } else if i == 5 {
            RI::R5
        } else if i == 6 {
            RI::R6
        } else if i == 7 {
            RI::R7
        } else {
            RI::R8
        }
    }
}

impl CI {
    /// The column as a number, 0 through 8.
    pub open spec fn as_int(self) -> int {
        match self {
            CI::C0 => 0,
            CI::C1 => 1,
            CI::C2 => 2,
            CI::C3 => 3,
            CI::C4 => 4,
            CI::C5 => 5,
            CI::C6 => 6,
            CI::C7 => 7,
            CI::C8 => 8,
        }
    }

    /// Returns the column as a number, 0 through 8.
    pub fn index(self) -> (r: u8)
        ensures
            r as int == self.as_int(),
            r < 9,
    {
        match self {
            CI::C0 => 0,
            CI::C1 => 1,
            CI::C2 => 2,
            CI::C3 => 3,
            CI::C4 => 4,
            CI::C5 => 5,
            CI::C6 => 6,
            CI::C7 => 7,
            CI::C8 => 8,
        }
    }

    /// The column index with the given number.
    pub open spec fn spec_from_index(i: int) -> CI {
        if i == 0 {
            CI::C0
        } else if i == 1 {
            CI::C1
        } else if i == 2 {
            CI::C2
        } else if i == 3 {
            CI::C3
        } else if i == 4 {
            CI::C4
        } else if i == 5 {
            CI::C5
        } else if i == 6 {
            CI::C6
        } else if i == 7 {
            CI::C7
        } else {
            CI::C8
        }
    }

    /// Returns the column index with the given number.
    pub fn from_index(i: u8) -> (r: CI)
        requires
            i < 9,
        ensures
            r == CI::spec_from_index(i as int),
            r.as_int() == i as int,
    {
        if i == 0 {
            CI::C0
        } else if i == 1 {
            CI::C1
        } else if i == 2 {
            CI::C2
        } else if i == 3 {
            CI::C3
        } else if i == 4 {
            CI::C4
        } else if i == 5 {
            CI::C5
        } else if i == 6 {
            CI::C6
        } else if i == 7 {
            CI::C7
        } else {
            CI::C8
        }
    }
}

/// A location on the full 9x9 grid.
#[derive(Clone, Copy, Debug, PartialEq, Eq, Structural, Hash)]
pub struct Loc {
    pub row: RI,
    pub col: CI,
}

impl Loc {
    /// Returns the location at the given row and column.
    pub fn new(row: RI, col: CI) -> (r: Loc)
        ensures
            r.row == row,
            r.col == col,
    {
        Loc { row, col }
    }
}

/// One play: a location together with the player who claims it.
#[derive(Clone, Copy, Debug, PartialEq, Eq, Structural, Hash)]
pub struct Play {
    pub loc: Loc,
    pub player: Player,
}

/// One 3x3 sub-board, its nine cells in row-major order.
#[derive(Clone, Copy, Debug, PartialEq, Eq, Hash)]
pub struct SBoard {
    pub slots: [Slot; 9],
}

/// Three cells of a sub-board all carry the given player's mark.
pub open spec fn sb_triple(sb: SBoard, p: Player, a: int, b: int, c: int) -> bool {
    &&& sb.slots@[a] == slot_for(p)
    &&& sb.slots@[b] == slot_for(p)
    &&& sb.slots@[c] == slot_for(p)
}

/// The player has three in a row inside the sub-board.
pub open spec fn sboard_won_by(sb: SBoard, p: Player) -> bool {
    ||| sb_triple(sb, p, 0, 1, 2)
    ||| sb_triple(sb, p, 3, 4, 5)
    ||| sb_triple(sb, p, 6, 7, 8)
    ||| sb_triple(sb, p, 0, 3, 6)
    ||| sb_triple(sb, p, 1, 4, 7)
    ||| sb_triple(sb, p, 2, 5, 8)
    ||| sb_triple(sb, p, 0, 4, 8)
    ||| sb_triple(sb, p, 2, 4, 6)
}

/// Who captured the sub-board, if anyone. X is checked first, so a
/// malformed board where both players hold a line reads as captured by X.
pub open spec fn sboard_owner(sb: SBoard) -> Option<Player> {
    if sboard_won_by(sb, Player::X) {
        Some(Player::X)
    } else if sboard_won_by(sb, Player::O) {
        Some(Player::O)
    } else {
        None
    }
}

/// Every cell of the sub-board is taken.
pub open spec fn sboard_full(sb: SBoard) -> bool {
    forall|i: int| 0 <= i < 9 ==> sb.slots@[i] != Slot::SE
}

/// The sub-board still admits plays: nobody captured it and a cell is empty.
pub open spec fn sboard_open(sb: SBoard) -> bool {
    sboard_owner(sb) is None && !sboard_full(sb)
}

impl SBoard {
    /// Returns the empty sub-board.
    pub fn empty() -> (r: SBoard)
        ensures
            forall|i: int| 0 <= i < 9 ==> r.slots@[i] == Slot::SE,
    {
        SBoard { slots: [Slot::SE; 9] }
    }

    /// Returns the sub-board with the given nine cells.
    pub fn from_slots(slots: [Slot; 9]) -> (r: SBoard)
        ensures
            r.slots == slots,
    {
        SBoard { slots }
    }

    /// Returns the nine cells in row-major order.
    pub fn slots(&self) -> (r: [Slot; 9])
        ensures
            r == self.slots,
    {
        self.slots
    }

    /// Returns the row with the given index.
    pub fn row_at(&self, i: SRI) -> (r: Row)
        ensures
            forall|j: int| 0 <= j < 3 ==> r.slots@[j] == self.slots@[3 * i.as_int() + j],
    {
        let b: usize = match i {
            SRI::R0 => 0,
            SRI::R1 => 3,
            SRI::R2 => 6,
        };
        Row { slots: [self.slots[b], self.slots[b + 1], self.slots[b + 2]] }
    }

    /// Returns the three rows of the sub-board.
    pub fn rows(&self) -> (r: [Row; 3])
        ensures
            forall|i: int, j: int|
                0 <= i < 3 && 0 <= j < 3 ==> r@[i].slots@[j] == self.slots@[3 * i + j],
    {
        [self.row_at(SRI::R0), self.row_at(SRI::R1), self.row_at(SRI::R2)]
    }

    /// Returns the cells as three rows of three.
    pub fn slots_3x3(&self) -> (r: [[Slot; 3]; 3])
        ensures
            forall|i: int, j: int|
                0 <= i < 3 && 0 <= j < 3 ==> r@[i]@[j] == self.slots@[3 * i + j],
    {
        [self.row_at(SRI::R0).slots, self.row_at(SRI::R1).slots, self.row_at(SRI::R2).slots]
    }

    /// Returns whether the given player has three in a row here.
    pub fn is_won_by(&self, p: Player) -> (r: bool)
        ensures
            r == sboard_won_by(*self, p),
    {
        let m = mark_of(p);
        let s = &self.slots;
        (s[0] == m && s[1] == m && s[2] == m) || (s[3] == m && s[4] == m && s[5] == m) || (s[6] == m
            && s[7] == m && s[8] == m) || (s[0] == m && s[3] == m && s[6] == m) || (s[1] == m && s[4]
            == m && s[7] == m) || (s[2] == m && s[5] == m && s[8] == m) || (s[0] == m && s[4] == m
            && s[8] == m) || (s[2] == m && s[4] == m && s[6] == m)
    }

    /// Returns who captured this sub-board, if anyone.
    pub fn owner(&self) -> (r: Option<Player>)
        ensures
            r == sboard_owner(*self),
    {
        if self.is_won_by(Player::X) {
            Some(Player::X)
        } else if self.is_won_by(Player::O) {
            Some(Player::O)
        } else {
            None
        }
    }

    /// Returns whether every cell is taken.
    pub fn is_full(&self) -> (r: bool)
        ensures
            r == sboard_full(*self),
    {
        let s = &self.slots;
        s[0] != Slot::SE && s[1] != Slot::SE && s[2] != Slot::SE && s[3] != Slot::SE && s[4]
            != Slot::SE && s[5] != Slot::SE && s[6] != Slot::SE && s[7] != Slot::SE && s[8]
            != Slot::SE
    }

    /// Returns whether the sub-board still admits plays.
    pub fn is_open(&self) -> (r: bool)
        ensures
            r == sboard_open(*self),
    {
        let own = self.owner();
        own.is_none() && !self.is_full()
    }
}

/// A sub-board row index.
#[derive(Clone, Copy, Debug, PartialEq, Eq, Structural, Hash)]
pub enum SRI {
    R0,
    R1,
    R2,
}

impl SRI {
    /// The sub-board row as a number, 0 through 2.
    pub open spec fn as_int(self) -> int {
        match self {
            SRI::R0 => 0,
            SRI::R1 => 1,
            SRI::R2 => 2,
        }
    }
}

/// One row of three cells inside a sub-board.
#[derive(Clone, Copy, Debug, PartialEq, Eq, Hash)]
pub struct Row {
    pub slots: [Slot; 3],
}

impl Row {
    /// Returns the empty row.
    pub fn empty() -> (r: Row)
        ensures
            forall|i: int| 0 <= i < 3 ==> r.slots@[i] == Slot::SE,
    {
        Row { slots: [Slot::SE; 3] }
    }

    /// Returns the three cells of the row.
    pub fn slots(&self) -> (r: [Slot; 3])
        ensures
            r == self.slots,
    {
        self.slots
    }
}

/// The full board: nine sub-boards in row-major order.
#[derive(Clone, Copy, Debug, PartialEq, Eq, Hash)]
pub struct Board {
    pub sboards: [SBoard; 9],
}

/// Three sub-boards are all captured by the given player.
pub open spec fn board_triple(b: Board, p: Player, i: int, j: int, k: int) -> bool {
    &&& sboard_owner(b.sboards@[i]) == Some(p)
    &&& sboard_owner(b.sboards@[j]) == Some(p)
    &&& sboard_owner(b.sboards@[k]) == Some(p)
}

/// The player captured three sub-boards in a row.
pub open spec fn board_won_by(b: Board, p: Player) -> bool {
    ||| board_triple(b, p, 0, 1, 2)
    ||| board_triple(b, p, 3, 4, 5)
    ||| board_triple(b, p, 6, 7, 8)
    ||| board_triple(b, p, 0, 3, 6)
    ||| board_triple(b, p, 1, 4, 7)
    ||| board_triple(b, p, 2, 5, 8)
    ||| board_triple(b, p, 0, 4, 8)
    ||| board_triple(b, p, 2, 4, 6)
}

/// Who won the game on this board, if anyone. X is checked first.
pub open spec fn board_winner(b: Board) -> Option<Player> {
    if board_won_by(b, Player::X) {
        Some(Player::X)
    } else if board_won_by(b, Player::O) {
        Some(Player::O)
    } else {
        None
    }
}

impl Board {
    /// Returns the empty board.
    pub fn empty() -> (r: Board)
        ensures
            forall|s: int, i: int|
                0 <= s < 9 && 0 <= i < 9 ==> r.sboards@[s].slots@[i] == Slot::SE,
    {
        Board { sboards: [SBoard { slots: [Slot::SE; 9] }; 9] }
    }

    /// Returns whether the given player captured three sub-boards in a row.
    pub fn is_won_by(&self, p: Player) -> (r: bool)
        ensures
            r == board_won_by(*self, p),
    {
        let c0 = self.captured_by(0, p);
        let c1 = self.captured_by(1, p);
        let c2 = self.captured_by(2, p);
        let c3 = self.captured_by(3, p);
        let c4 = self.captured_by(4, p);
        let c5 = self.captured_by(5, p);
        let c6 = self.captured_by(6, p);
        let c7 = self.captured_by(7, p);
        let c8 = self.captured_by(8, p);
        (c0 && c1 && c2) || (c3 && c4 && c5) || (c6 && c7 && c8) || (c0 && c3 && c6) || (c1 && c4
            && c7) || (c2 && c5 && c8) || (c0 && c4 && c8) || (c2 && c4 && c6)
    }

    /// Returns whether sub-board `i` is captured by `p`.
    fn captured_by(&self, i: usize, p: Player) -> (r: bool)
        requires
            i < 9,
        ensures
            r == (sboard_owner(self.sboards@[i as int]) == Some(p)),
    {
        let own = self.sboards[i].owner();
        match own {
            Some(q) => q == p,
            None => false,
        }
    }

    /// Returns who won the game on this board, if anyone.
    pub fn winner(&self) -> (r: Option<Player>)
        ensures
            r == board_winner(*self),
    {
        if self.is_won_by(Player::X) {
            Some(Player::X)
        } else if self.is_won_by(Player::O) {
            Some(Player::O)
        } else {
            None
        }
    }
}

impl Board {
    /// Returns the 81 cells in grid row-major order: cell i sits at grid
    /// row i / 9 and grid column i % 9.
    pub fn slots(&self) -> (r: [Slot; 81])
        ensures
            forall|i: int|
                0 <= i < 81 ==> r@[i] == self.sboards@[sb_of(i / 9, i % 9)].slots@[within_of(
                    i / 9,
                    i % 9,
                )],
    {
        let mut out = [Slot::SE; 81];
        let mut i: usize = 0;
        while i < 81
            invariant
                i <= 81,
                forall|j: int|
                    0 <= j < i ==> out@[j] == self.sboards@[sb_of(j / 9, j % 9)].slots@[within_of(
                        j / 9,
                        j % 9,
                    )],
            decreases 81 - i,
        {
            let r = i / 9;
            let c = i % 9;
            let sb = (r / 3) * 3 + c / 3;
            let w = (r % 3) * 3 + c % 3;
            out[i] = self.sboards[sb].slots[w];
            i = i + 1;
        }
        out
    }

    /// Returns the cells as nine grid rows of nine.
    pub fn slots_9x9(&self) -> (r: [[Slot; 9]; 9])
        ensures
            forall|i: int, j: int|
                0 <= i < 9 && 0 <= j < 9 ==> r@[i]@[j] == self.sboards@[sb_of(i, j)].slots@[
                    within_of(i, j)],
    {
        let mut out = [[Slot::SE; 9]; 9];
        let mut i: usize = 0;
        while i < 9
            invariant
                i <= 9,
                forall|a: int, b: int|
                    0 <= a < i && 0 <= b < 9 ==> out@[a]@[b] == self.sboards@[sb_of(a, b)].slots@[
                        within_of(a, b)],
            decreases 9 - i,
        {
            let mut row = [Slot::SE; 9];
            let mut j: usize = 0;
            while j < 9
                invariant
                    i < 9,
                    j <= 9,
                    forall|b: int|
                        0 <= b < j ==> row@[b] == self.sboards@[sb_of(i as int, b)].slots@[
                            within_of(i as int, b)],
                decreases 9 - j,
            {
                let sb = (i / 3) * 3 + j / 3;
                let w = (i % 3) * 3 + j % 3;
                row[j] = self.sboards[sb].slots[w];
                j = j + 1;
            }
            out[i] = row;
            i = i + 1;
        }
        out
    }
}

/// The terminal classification of a position.
#[derive(Clone, Copy, Debug, PartialEq, Eq, Structural, Hash)]
pub enum GameState {
    Won(Player),
    Tied,
    Ongoing,
}

/// A full game position: the board plus the location of the last play, if
/// any. The last play determines both whose turn it is (the mark found at
/// that location belongs to the player who just moved) and which sub-board
/// the next play is sent to.
#[derive(Clone, Copy, Debug, PartialEq, Eq, Hash)]
pub struct Game {
    pub board: Board,
    pub last_loc: Option<Loc>,
}

/// The sub-board that holds cell (r, c) of the 9x9 grid.
pub open spec fn sb_of(r: int, c: int) -> int {
    (r / 3) * 3 + c / 3
}

/// The position of cell (r, c) inside its sub-board.
pub open spec fn within_of(r: int, c: int) -> int {
    (r % 3) * 3 + c % 3
}

/// The slot at cell (r, c) of the 9x9 grid.
pub open spec fn slot_at(g: Game, r: int, c: int) -> Slot {
    g.board.sboards@[sb_of(r, c)].slots@[within_of(r, c)]
}

/// The player who made the last play: the mark at the last location.
pub open spec fn spec_last_player(g: Game) -> Option<Player> {
    match g.last_loc {
        None => None,
        Some(l) => match slot_at(g, l.row.as_int(), l.col.as_int()) {
            Slot::SX => Some(Player::X),
            Slot::SO => Some(Player::O),
            Slot::SE => None,
        },
    }
}

/// The player whose turn it is. X moves first.
pub open spec fn spec_to_move(g: Game) -> Player {
    match spec_last_player(g) {
        Some(p) => p.spec_opponent(),
        None => Player::X,
    }
}

/// Whether the cell (r, c) may be claimed next: nobody has won, the cell is
/// empty, its sub-board is open, and it honours the sub-board the last play
/// sent the mover to (if that sub-board is still open).
pub open spec fn legal_cell(g: Game, r: int, c: int) -> bool {
    &&& board_winner(g.board) is None
    &&& slot_at(g, r, c) == Slot::SE
    &&& sboard_open(g.board.sboards@[sb_of(r, c)])
    &&& match g.last_loc {
        None => true,
        Some(l) => {
            let t = within_of(l.row.as_int(), l.col.as_int());
            sboard_open(g.board.sboards@[t]) ==> sb_of(r, c) == t
        },
    }
}

/// Whether the cell with flat index i (row i / 9, column i % 9) is legal.
pub open spec fn legal_at(g: Game, i: int) -> bool {
    legal_cell(g, i / 9, i % 9)
}

/// The play that claims the cell with flat index i for the mover.
pub open spec fn spec_play_at(g: Game, i: int) -> Play {
    Play {
        loc: Loc { row: RI::spec_from_index(i / 9), col: CI::spec_from_index(i % 9) },
        player: spec_to_move(g),
    }
}

/// The legal plays among the first n cells in row-major order.
pub open spec fn plays_upto(g: Game, n: int) -> Seq<Play>
    decreases n,
{
    if n <= 0 {
        Seq::empty()
    } else {
        plays_upto(g, n - 1) + if legal_at(g, n - 1) {
            seq![spec_play_at(g, n - 1)]
        } else {
            Seq::empty()
        }
    }
}

/// All legal plays, in row-major enumeration order. The order is
/// significant: the solver breaks ranking ties by first-enumerated play.
pub open spec fn spec_valid_plays(g: Game) -> Seq<Play> {
    plays_upto(g, 81)
}

/// Terminal classification: a won board, a tie once no legal play remains,
/// otherwise ongoing. By construction an ongoing position has a legal play.
pub open spec fn spec_state(g: Game) -> GameState {
    match board_winner(g.board) {
        Some(p) => GameState::Won(p),
        None => if spec_valid_plays(g).len() == 0 {
            GameState::Tied
        } else {
            GameState::Ongoing
        },
    }
}

/// Whether the play is legal here: it is the mover's play on a legal cell.
pub open spec fn spec_play_ok(g: Game, p: Play) -> bool {
    &&& p.player == spec_to_move(g)
    &&& legal_cell(g, p.loc.row.as_int(), p.loc.col.as_int())
}

/// The position after a legal play: the mark is set and the play's
/// location is recorded as the last one.
pub open spec fn spec_apply(g: Game, p: Play) -> Game {
    let s = sb_of(p.loc.row.as_int(), p.loc.col.as_int());
    let w = within_of(p.loc.row.as_int(), p.loc.col.as_int());
    let sb1 = SBoard {
        slots: vstd::array::spec_array_update(
            g.board.sboards@[s].slots,
            w,
            slot_for(p.player),
        ),
    };
    Game {
        board: Board { sboards: vstd::array::spec_array_update(g.board.sboards, s, sb1) },
        last_loc: Some(p.loc),
    }
}

impl Game {
    /// Returns the fresh game: an empty board, no last play.
    pub fn empty() -> (r: Game)
        ensures
            r.last_loc is None,
            forall|s: int, i: int|
                0 <= s < 9 && 0 <= i < 9 ==> r.board.sboards@[s].slots@[i] == Slot::SE,
            spec_state(r) is Ongoing,
    {
        let g = Game { board: Board::empty(), last_loc: None };
        proof {
            lemma_empty_game_ongoing(g);
        }
        g
    }

    /// Returns the slot at cell (r, c) of the 9x9 grid.
    pub fn get_slot(&self, r: u8, c: u8) -> (s: Slot)
        requires
            r < 9,
            c < 9,
        ensures
            s == slot_at(*self, r as int, c as int),
    {
        let sb = (r / 3) * 3 + c / 3;
        let w = (r % 3) * 3 + c % 3;
        self.board.sboards[sb as usize].slots[w as usize]
    }

    /// Returns who won the game, if anyone.
    pub fn winner(&self) -> (r: Option<Player>)
        ensures
            r == board_winner(self.board),
    {
        self.board.winner()
    }

    /// Returns the player who made the last play, if any.
    pub fn last_player(&self) -> (r: Option<Player>)
        ensures
            r == spec_last_player(*self),
    {
        match self.last_loc {
            None => None,
            Some(l) => {
                let s = self.get_slot(l.row.index(), l.col.index());
                match s {
                    Slot::SX => Some(Player::X),
                    Slot::SO => Some(Player::O),
                    Slot::SE => None,
                }
            },
        }
    }

    /// Returns the player whose turn it is, terminal or not.
    pub fn to_move(&self) -> (r: Player)
        ensures
            r == spec_to_move(*self),
    {
        match self.last_player() {
            Some(p) => p.opponent(),
            None => Player::X,
        }
    }

    /// Returns whether cell (r, c) may be claimed next.
    fn is_legal_cell(&self, r: u8, c: u8) -> (b: bool)
        requires
            r < 9,
            c < 9,
        ensures
            b == legal_cell(*self, r as int, c as int),
    {
        if self.winner().is_some() {
            return false;
        }
        let sb = (r / 3) * 3 + c / 3;
        let w = (r % 3) * 3 + c % 3;
        if !(self.board.sboards[sb as usize].slots[w as usize] == Slot::SE) {
            return false;
        }
        if !self.board.sboards[sb as usize].is_open() {
            return false;
        }
        match self.last_loc {
            None => true,
            Some(l) => {
                let lr = l.row.index();
                let lc = l.col.index();
                let t = (lr % 3) * 3 + lc % 3;
                if self.board.sboards[t as usize].is_open() {
                    sb == t
                } else {
                    true
                }
            },
        }
    }

    /// Returns every legal play, in row-major enumeration order.
    pub fn valid_plays(&self) -> (v: Vec<Play>)
        ensures
            v@ == spec_valid_plays(*self),
    {
        let me = self.to_move();
        let mut v: Vec<Play> = Vec::new();
        let mut i: u8 = 0;
        while i < 81
            invariant
                i <= 81,
                me == spec_to_move(*self),
                v@ == plays_upto(*self, i as int),
            decreases 81 - i,
        {
            let r = i / 9;
            let c = i % 9;
            if self.is_legal_cell(r, c) {
                let p = Play { loc: Loc { row: RI::from_index(r), col: CI::from_index(c) }, player: me };
                v.push(p);
                proof {
                    assert(v@ =~= plays_upto(*self, i as int + 1));
                }
            } else {
                proof {
                    assert(v@ =~= plays_upto(*self, i as int + 1));
                }
            }
            i = i + 1;
        }
        v
    }

    /// Returns the terminal classification of the position.
    pub fn state(&self) -> (r: GameState)
        ensures
            r == spec_state(*self),
    {
        match self.winner() {
            Some(p) => GameState::Won(p),
            None => {
                let plays = self.valid_plays();
                if plays.len() == 0 {
                    GameState::Tied
                } else {
                    GameState::Ongoing
                }
            },
        }
    }

    /// Returns the player to move, or none once the position is terminal.
    pub fn next_player(&self) -> (r: Option<Player>)
        ensures
            r == if spec_state(*self) is Ongoing {
                Some(spec_to_move(*self))
            } else {
                None::<Player>
            },
    {
        match self.state() {
            GameState::Ongoing => Some(self.to_move()),
            _ => None,
        }
    }

    /// Applies a play. Returns the new position, or none if the play is
    /// illegal here (wrong player, taken cell, closed or wrong sub-board,
    /// or the game is already over).
    pub fn play(self, p: Play) -> (r: Option<Game>)
        ensures
            r is Some <==> spec_play_ok(self, p),
            r is Some ==> r == Some(spec_apply(self, p)),
    {
        let me = self.to_move();
        if !(p.player == me) {
            return None;
        }
        let rr = p.loc.row.index();
        let cc = p.loc.col.index();
        if !self.is_legal_cell(rr, cc) {
            return None;
        }
        let s = (rr / 3) * 3 + cc / 3;
        let w = (rr % 3) * 3 + cc % 3;
        let mut b = self.board;
        let mut sbv = b.sboards[s as usize];
        sbv.slots[w as usize] = mark_of(p.player);
        b.sboards[s as usize] = sbv;
        let ng = Game { board: b, last_loc: Some(p.loc) };
        proof {
            let si = s as int;
            let sa = spec_apply(self, p);
            let sb_spec = sa.board.sboards@[si];
            assert(sbv.slots@ == sb_spec.slots@);
            assert(sbv.slots =~= sb_spec.slots);
            assert(forall|j: int| 0 <= j < 9 ==> ng.board.sboards@[j] == sa.board.sboards@[j]);
            assert(ng.board.sboards =~= sa.board.sboards);
            assert(ng == sa);
        }
        Some(ng)
    }
}

/// In the fresh game every cell is legal, so the game is ongoing.
proof fn lemma_empty_game_ongoing(g: Game)
    requires
        g.last_loc is None,
        forall|s: int, i: int|
            0 <= s < 9 && 0 <= i < 9 ==> g.board.sboards@[s].slots@[i] == Slot::SE,
    ensures
        spec_state(g) is Ongoing,
{
    assert(!sboard_won_by(g.board.sboards@[0], Player::X));
    assert(board_winner(g.board) is None);
    assert(legal_at(g, 0));
    assert(plays_upto(g, 0).len() == 0);
    assert(plays_upto(g, 1) == plays_upto(g, 0) + seq![spec_play_at(g, 0)]);
    assert(plays_upto(g, 1).len() == 1);
    lemma_plays_upto_monotone(g, 1, 81);
}

/// A non-terminal position always has a legal play: `Ongoing` is defined
/// as "no winner and some legal play". The solver relies on this, so the
/// fatal case of a non-terminal position with no moves cannot arise.
pub proof fn lemma_ongoing_has_play(g: Game)
    requires
        spec_state(g) is Ongoing,
    ensures
        spec_valid_plays(g).len() > 0,
{
}

/// At most n legal plays lie among the first n cells.
pub proof fn lemma_plays_upto_len(g: Game, n: int)
    requires
        0 <= n,
    ensures
        plays_upto(g, n).len() <= n,
    decreases n,
{
    if n > 0 {
        lemma_plays_upto_len(g, n - 1);
    }
}

/// The enumeration of legal plays only grows with the prefix length.
proof fn lemma_plays_upto_monotone(g: Game, m: int, n: int)
    requires
        0 <= m <= n,
    ensures
        plays_upto(g, m).len() <= plays_upto(g, n).len(),
    decreases n - m,
{
    if m < n {
        lemma_plays_upto_monotone(g, m, n - 1);
    }
}

} // verus!
