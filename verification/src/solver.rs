//! The solver: the outcome and solution vocabulary, the outcome comparator,
//! and the exact depth-general recursive solver.

use vstd::prelude::*;
use core::cmp::Ordering;
use crate::game::{
    Game, GameState, Play, Player, legal_at, lemma_plays_upto_len, plays_upto, spec_apply,
    spec_play_at, spec_play_ok, spec_state, spec_to_move, spec_valid_plays,
};

verus! {

/// A number of plies (turns of either player), or a search depth.
pub type Count = u8;

/// The computed outcome of a game; either:
/// 1. A win for the named player in some number of plays,
/// 2. A tie in some number of plays,
/// 3. Not determined within some search depth, so unknown.
///
/// A win or tie with zero turns means the position is already terminal.
#[derive(Clone, Copy, Debug, Eq, Ord, PartialEq, PartialOrd)]
pub enum Outcome {
    Win { player: Player, turns: Count },
    Tie { turns: Count },
    Unknown { depth: Count },
}

/// A solution to a game state: the optimal next play (present exactly when
/// the position is non-terminal and the search depth was at least one) and
/// the resulting outcome under optimal play by both sides.
#[derive(Clone, Copy, Debug, PartialEq, Eq)]
pub struct Solution {
    /// The optimal next play (optional).
    pub opt_play: Option<Play>,
    /// The resulting outcome.
    pub outcome: Outcome,
}

/// The worth of an outcome to the given player, higher is better. The
/// classes order as: a win for the player (fewer turns better), then a tie
/// (fewer turns better), then unknown (any depth, all equal — an
/// undetermined result is preferable to a known loss), then a win for the
/// opponent (more turns better: delay defeat as long as possible).
pub open spec fn rank(me: Player, o: Outcome) -> int {
    match o {
        Outcome::Win { player, turns } => if player == me {
            3000 - turns
        } else {
            turns as int
        },
        Outcome::Tie { turns } => 2000 - turns,
        Outcome::Unknown { .. } => 1000,
    }
}

/// How outcome `a` compares to outcome `b` from `me`'s point of view:
/// greater means `a` is strictly better for `me`.
pub open spec fn spec_compare(me: Player, a: Outcome, b: Outcome) -> Ordering {
    if rank(me, a) > rank(me, b) {
        Ordering::Greater
    } else if rank(me, a) < rank(me, b) {
        Ordering::Less
    } else {
        Ordering::Equal
    }
}

/// Returns the worth of an outcome to the given player.
fn rank_exec(me: Player, o: Outcome) -> (r: u16)
    ensures
        r as int == rank(me, o),
{
    match o {
        Outcome::Win { player, turns } => if player == me {
            3000 - (turns as u16)
        } else {
            turns as u16
        },
        Outcome::Tie { turns } => 2000 - (turns as u16),
        Outcome::Unknown { .. } => 1000,
    }
}

impl Outcome {
    /// Compares two outcomes from the point of view of the given player:
    /// greater means `a` is strictly better for `p`.
    pub fn compare(p: Player, a: &Outcome, b: &Outcome) -> (r: Ordering)
        ensures
            r == spec_compare(p, *a, *b),
    {
        let ra = rank_exec(p, *a);
        let rb = rank_exec(p, *b);
        if ra > rb {
            Ordering::Greater
        } else if ra < rb {
            Ordering::Less
        } else {
            Ordering::Equal
        }
    }
}

/// The comparator is a strict total preorder: for any two outcomes exactly
/// one of "a better", "b better", "equal rank" holds; it is reflexively
/// equal and antisymmetric. Being a function of its inputs, it is also
/// deterministic.
pub proof fn lemma_compare_strict_total_preorder(me: Player, a: Outcome, b: Outcome)
    ensures
        spec_compare(me, a, a) == Ordering::Equal,
        (spec_compare(me, a, b) == Ordering::Greater) <==> (spec_compare(me, b, a)
            == Ordering::Less),
        (spec_compare(me, a, b) == Ordering::Equal) <==> (spec_compare(me, b, a)
            == Ordering::Equal),
        (spec_compare(me, a, b) == Ordering::Greater) ==> !(spec_compare(me, a, b)
            == Ordering::Less) && !(spec_compare(me, a, b) == Ordering::Equal),
{
}

/// The comparator is transitive, in both its strict and its equal form.
pub proof fn lemma_compare_transitive(me: Player, a: Outcome, b: Outcome, c: Outcome)
    ensures
        spec_compare(me, a, b) == Ordering::Greater && spec_compare(me, b, c)
            == Ordering::Greater ==> spec_compare(me, a, c) == Ordering::Greater,
        spec_compare(me, a, b) == Ordering::Equal && spec_compare(me, b, c) == Ordering::Equal
            ==> spec_compare(me, a, c) == Ordering::Equal,
{
}

/// An outcome one ply further from the root: a win or tie moves one turn
/// away, an undetermined result took one more ply of budget.
pub open spec fn spec_bump(o: Outcome) -> Outcome {
    match o {
        Outcome::Win { player, turns } => Outcome::Win { player, turns: (turns + 1) as Count },
        Outcome::Tie { turns } => Outcome::Tie { turns: (turns + 1) as Count },
        Outcome::Unknown { depth } => Outcome::Unknown { depth: (depth + 1) as Count },
    }
}

/// Returns the outcome one ply further from the root.
fn bump(o: Outcome) -> (r: Outcome)
    requires
        (match o {
            Outcome::Win { turns, .. } => turns < 255,
            Outcome::Tie { turns } => turns < 255,
            Outcome::Unknown { depth } => depth < 255,
        }),
    ensures
        r == spec_bump(o),
{
    match o {
        Outcome::Win { player, turns } => Outcome::Win { player, turns: turns + 1 },
        Outcome::Tie { turns } => Outcome::Tie { turns: turns + 1 },
        Outcome::Unknown { depth } => Outcome::Unknown { depth: depth + 1 },
    }
}

/// The solution of a position with no search: its terminal classification,
/// with no recommended play.
pub open spec fn spec_terminal_solution(g: Game) -> Solution {
    match spec_state(g) {
        GameState::Won(p) => Solution {
            opt_play: None,
            outcome: Outcome::Win { player: p, turns: 0 },
        },
        GameState::Tied => Solution { opt_play: None, outcome: Outcome::Tie { turns: 0 } },
        GameState::Ongoing => Solution { opt_play: None, outcome: Outcome::Unknown { depth: 0 } },
    }
}

/// The outcome, one ply from the root, of answering the i-th legal play
/// with a search depth one smaller.
pub open spec fn spec_child_outcome(g: Game, i: int, d: Count) -> Outcome
    decreases d, 0int,
        when d >= 1
{
    spec_bump(spec_solve(spec_apply(g, spec_valid_plays(g)[i]), (d - 1) as Count).outcome)
}

/// The best (play, outcome) pair among the first n legal plays, from the
/// mover's point of view. Ranking ties break towards the first-enumerated
/// play, so the result is deterministic.
pub open spec fn spec_best_upto(g: Game, n: int, d: Count) -> (Play, Outcome)
    decreases d, n,
        when d >= 1 && n >= 1
{
    if n <= 1 {
        (spec_valid_plays(g)[0], spec_child_outcome(g, 0, d))
    } else {
        let prev = spec_best_upto(g, n - 1, d);
        let cand = spec_child_outcome(g, n - 1, d);
        if rank(spec_to_move(g), cand) > rank(spec_to_move(g), prev.1) {
            (spec_valid_plays(g)[n - 1], cand)
        } else {
            prev
        }
    }
}

/// The exact solution of a position within a depth budget: the terminal
/// classification if the position is terminal or the budget is spent,
/// otherwise the best answer among all legal plays, each solved one ply
/// deeper by the same rule.
pub open spec fn spec_solve(g: Game, d: Count) -> Solution
    decreases d, 100int,
        via spec_solve_decreases
{
    if !(spec_state(g) is Ongoing) || d == 0 {
        spec_terminal_solution(g)
    } else {
        let best = spec_best_upto(g, spec_valid_plays(g).len() as int, d);
        Solution { opt_play: Some(best.0), outcome: best.1 }
    }
}

#[via_fn]
proof fn spec_solve_decreases(g: Game, d: Count) {
    lemma_plays_upto_len(g, 81);
}

/// Terminal classification is depth-invariant: on a terminal position every
/// depth returns the depth-zero solution, with no recommended play.
pub proof fn lemma_solve_terminal(g: Game, d: Count)
    requires
        !(spec_state(g) is Ongoing),
    ensures
        spec_solve(g, d) == spec_solve(g, 0),
        spec_solve(g, d).opt_play is None,
{
}

/// Turn counts never exceed the depth budget, and an unknown outcome
/// reports exactly the budget it exhausted.
pub proof fn lemma_solve_turns(g: Game, d: Count)
    ensures
        (match spec_solve(g, d).outcome {
            Outcome::Win { turns, .. } => turns <= d,
            Outcome::Tie { turns } => turns <= d,
            Outcome::Unknown { depth } => depth == d,
        }),
    decreases d, 100int,
{
    if !(spec_state(g) is Ongoing) || d == 0 {
    } else {
        lemma_plays_upto_len(g, 81);
        lemma_best_upto_turns(g, spec_valid_plays(g).len() as int, d);
    }
}

/// Every prefix-best outcome obeys the turn bound of `lemma_solve_turns`.
proof fn lemma_best_upto_turns(g: Game, n: int, d: Count)
    requires
        spec_state(g) is Ongoing,
        d >= 1,
        1 <= n <= spec_valid_plays(g).len(),
    ensures
        (match spec_best_upto(g, n, d).1 {
            Outcome::Win { turns, .. } => turns <= d,
            Outcome::Tie { turns } => turns <= d,
            Outcome::Unknown { depth } => depth == d,
        }),
    decreases d, n,
{
    let child = spec_apply(g, spec_valid_plays(g)[n - 1]);
    lemma_solve_turns(child, (d - 1) as Count);
    assert(spec_child_outcome(g, n - 1, d) == spec_bump(
        spec_solve(child, (d - 1) as Count).outcome,
    ));
    if n > 1 {
        lemma_best_upto_turns(g, n - 1, d);
        assert(spec_best_upto(g, n, d).1 == spec_child_outcome(g, n - 1, d)
            || spec_best_upto(g, n, d).1 == spec_best_upto(g, n - 1, d).1);
    } else {
        assert(spec_best_upto(g, n, d).1 == spec_child_outcome(g, 0, d));
    }
}

/// The prefix-best pair is one of the enumerated legal plays together with
/// its own child outcome.
proof fn lemma_best_upto_enumerated(g: Game, n: int, d: Count)
    requires
        spec_state(g) is Ongoing,
        d >= 1,
        1 <= n <= spec_valid_plays(g).len(),
    ensures
        exists|k: int|
            0 <= k < n && spec_best_upto(g, n, d) == (
                spec_valid_plays(g)[k],
                spec_child_outcome(g, k, d),
            ),
    decreases n,
{
    if n <= 1 {
        assert(spec_best_upto(g, n, d) == (spec_valid_plays(g)[0], spec_child_outcome(g, 0, d)));
    } else {
        lemma_best_upto_enumerated(g, n - 1, d);
    }
}

/// On a non-terminal position with a positive budget, the recommended play
/// is one of the legal plays of the position.
pub proof fn lemma_solve_play_is_legal(g: Game, d: Count)
    requires
        spec_state(g) is Ongoing,
        d >= 1,
    ensures
        spec_solve(g, d).opt_play matches Some(p) && spec_valid_plays(g).contains(p),
{
    let n = spec_valid_plays(g).len() as int;
    lemma_plays_upto_len(g, 81);
    lemma_best_upto_enumerated(g, n, d);
    let k = choose|k: int|
        0 <= k < n && spec_best_upto(g, n, d) == (
            spec_valid_plays(g)[k],
            spec_child_outcome(g, k, d),
        );
    assert(spec_valid_plays(g)[k] == spec_solve(g, d).opt_play->0);
}

/// Every enumerated legal play is indeed a legal play of the position by
/// the mover.
pub proof fn lemma_plays_upto_sound(g: Game, n: int)
    requires
        0 <= n <= 81,
    ensures
        forall|k: int|
            0 <= k < plays_upto(g, n).len() ==> spec_play_ok(g, #[trigger] plays_upto(g, n)[k]),
    decreases n,
{
    if n > 0 {
        lemma_plays_upto_sound(g, n - 1);
        let prev = plays_upto(g, n - 1);
        let cur = plays_upto(g, n);
        if legal_at(g, n - 1) {
            assert(spec_play_at(g, n - 1).loc.row.as_int() == (n - 1) / 9);
            assert(spec_play_at(g, n - 1).loc.col.as_int() == (n - 1) % 9);
            assert(spec_play_ok(g, spec_play_at(g, n - 1)));
            assert(cur == prev + seq![spec_play_at(g, n - 1)]);
            assert forall|k: int| 0 <= k < cur.len() implies spec_play_ok(g, cur[k]) by {
                if k < prev.len() {
                    assert(cur[k] == prev[k]);
                } else {
                    assert(cur[k] == spec_play_at(g, n - 1));
                }
            }
        } else {
            assert(cur =~= prev);
            assert forall|k: int| 0 <= k < cur.len() implies spec_play_ok(g, cur[k]) by {
                assert(cur[k] == prev[k]);
            }
        }
    }
}

impl Game {
    /// Solves the position within the given depth budget: the exact best
    /// next play and the resulting outcome, by uniform minimax recursion
    /// with the terminal classification as its base. The outcome's turn
    /// count never exceeds the budget, the recommended play is present
    /// exactly on a non-terminal position searched to depth at least one,
    /// and it is then one of the position's legal plays.
    pub fn solve_for(self, depth: Count) -> (s: Solution)
        ensures
            s == spec_solve(self, depth),
            !(spec_state(self) is Ongoing) ==> s == spec_solve(self, 0) && s.opt_play is None,
            spec_state(self) is Ongoing && depth >= 1 ==> (s.opt_play matches Some(p)
                && spec_valid_plays(self).contains(p)),
            (match s.outcome {
                Outcome::Win { turns, .. } => turns <= depth,
                Outcome::Tie { turns } => turns <= depth,
                Outcome::Unknown { depth: dd } => dd == depth,
            }),
        decreases depth,
    {
        proof {
            lemma_solve_turns(self, depth);
        }
        let st = self.state();
        match st {
            GameState::Won(p) => Solution {
                opt_play: None,
                outcome: Outcome::Win { player: p, turns: 0 },
            },
            GameState::Tied => Solution { opt_play: None, outcome: Outcome::Tie { turns: 0 } },
            GameState::Ongoing => {
                if depth == 0 {
                    Solution { opt_play: None, outcome: Outcome::Unknown { depth: 0 } }
                } else {
                    proof {
                        lemma_solve_play_is_legal(self, depth);
                        lemma_plays_upto_sound(self, 81);
                    }
                    let me = self.to_move();
                    let plays = self.valid_plays();
                    let child0 = self.play(plays[0]).unwrap();
                    let sol0 = child0.solve_for(depth - 1);
                    let mut best_play = plays[0];
                    let mut best_out = bump(sol0.outcome);
                    let mut i: usize = 1;
                    proof {
                        assert(child0 == spec_apply(self, spec_valid_plays(self)[0]));
                        assert(best_out == spec_child_outcome(self, 0, depth));
                        assert((best_play, best_out) == spec_best_upto(self, 1, depth));
                    }
                    while i < plays.len()
                        invariant
                            spec_state(self) is Ongoing,
                            depth >= 1,
                            me == spec_to_move(self),
                            plays@ == spec_valid_plays(self),
                            1 <= i <= plays@.len(),
                            (best_play, best_out) == spec_best_upto(self, i as int, depth),
                        decreases plays@.len() - i,
                    {
                        proof {
                            lemma_plays_upto_sound(self, 81);
                        }
                        let child = self.play(plays[i]).unwrap();
                        let sol = child.solve_for(depth - 1);
                        let cand = bump(sol.outcome);
                        let better = match Outcome::compare(me, &cand, &best_out) {
                            Ordering::Greater => true,
                            _ => false,
                        };
                        if better {
                            best_play = plays[i];
                            best_out = cand;
                        }
                        proof {
                            assert(child == spec_apply(self, spec_valid_plays(self)[i as int]));
                            assert(cand == spec_child_outcome(self, i as int, depth));
                            assert((best_play, best_out) == spec_best_upto(
                                self,
                                i as int + 1,
                                depth,
                            ));
                        }
                        i = i + 1;
                    }
                    Solution { opt_play: Some(best_play), outcome: best_out }
                }
            },
        }
    }
}

/// A short fixed-width caption for a game result.
pub fn result_str(op: Option<Player>) -> (r: &'static str)
    ensures
        op == Some(Player::X) ==> r@ == "X wins"@,
        op == Some(Player::O) ==> r@ == "O wins"@,
        op is None ==> r@ == "  tie "@,
{
    match op {
        Some(Player::X) => "X wins",
        Some(Player::O) => "O wins",
        None => "  tie ",
    }
}

} // verus!
