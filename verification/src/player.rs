//! The players: each picks one legal move for the side to move.

use vstd::prelude::*;
pub use crate::console::ConsolePlayer;
use crate::oracle::{moves_of, side_of, status_of, text_after};
use crate::position::{Move, Position, Side, Status};
use crate::score::{board_score, mate_score, score};
use crate::select::{
    as_ints, best_index, better, is_first_best, lemma_best_index, lemma_tie_keeps_earlier,
    pick_best,
};

verus! {

/// Whether the move `m` checkmates the opponent.
pub open spec fn mates(text: Seq<char>, m: Move) -> bool {
    status_of(text_after(text, m)) == Status::Checkmate
}

/// Whether some legal move checkmates the opponent.
pub open spec fn can_mate(text: Seq<char>) -> bool {
    exists|i: int| 0 <= i < moves_of(text).len() && mates(text, #[trigger] moves_of(text)[i])
}

/// The scores of the positions after the legal moves, in the order of the
/// moves.
pub open spec fn next_scores(text: Seq<char>) -> Seq<int> {
    Seq::new(moves_of(text).len(), |i: int| score(text_after(text, moves_of(text)[i])))
}

/// The move that a player looking no further than its own move picks: the
/// first legal move such that no other leaves a position with a better score
/// for the side to move.
pub open spec fn greedy_choice(text: Seq<char>) -> Move {
    moves_of(text)[best_index(side_of(text), next_scores(text))]
}

/// The position that a player looking `depth` replies ahead judges a move
/// by. At depth 0, and where the move checkmates, it is the position after
/// the move; otherwise it is the position after the reply that a player
/// looking one reply less ahead picks for the opponent.
pub open spec fn outcome(depth: nat, text: Seq<char>, m: Move) -> Seq<char>
    decreases depth, 0nat,
{
    let own = text_after(text, m);
    if depth == 0 || status_of(own) == Status::Checkmate {
        own
    } else {
        text_after(own, choice((depth - 1) as nat, own))
    }
}

/// The scores of the outcomes of the legal moves, in the order of the moves.
pub open spec fn outcome_scores(depth: nat, text: Seq<char>) -> Seq<int>
    decreases depth, 1nat,
{
    Seq::new(moves_of(text).len(), |i: int| score(outcome(depth, text, moves_of(text)[i])))
}

/// The move that a player looking `depth` replies ahead picks: the first
/// legal move whose outcome no other legal move's outcome beats, for the side
/// to move.
pub open spec fn choice(depth: nat, text: Seq<char>) -> Move
    decreases depth, 2nat,
{
    moves_of(text)[best_index(side_of(text), outcome_scores(depth, text))]
}

/// Whether a player looking `depth` replies ahead can pick a move: there is
/// a legal move, and after each legal move that does not checkmate, a player
/// looking one reply less ahead can pick the opponent's reply.
pub open spec fn playable(depth: nat, text: Seq<char>) -> bool
    decreases depth,
{
    &&& moves_of(text).len() > 0
    &&& depth > 0 ==> forall|i: int|
        0 <= i < moves_of(text).len() ==> {
            let own = text_after(text, #[trigger] moves_of(text)[i]);
            status_of(own) == Status::Checkmate || playable((depth - 1) as nat, own)
        }
}

/// The score of a position in which `side` has just checkmated the opponent.
pub open spec fn win_score(side: Side) -> int {
    mate_score(side.other())
}

/// One who picks a move.
pub trait Player {
    /// Whether this player can pick a move in the position with the given
    /// text.
    spec fn ready(&self, text: Seq<char>) -> bool;

    /// Whether `m` is a move that this player may pick in the position with
    /// the given text.
    spec fn picks(&self, text: Seq<char>, m: Move) -> bool;

    /// Whether this player can pick a move in `position`.
    fn is_ready(&self, position: &Position) -> (r: bool)
        ensures
            r == self.ready(position@),
    ;

    /// The move this player picks in `position`: one of its legal moves.
    fn get_move(&self, position: &Position) -> (m: Move)
        requires
            self.ready(position@),
        ensures
            self.picks(position@, m),
            moves_of(position@).contains(m),
    ;
}

/// The move that `player` picks in `position`, or `None` where the player
/// cannot pick one.
pub fn try_get_move<P: Player>(player: &P, position: &Position) -> (picked: Option<Move>)
    ensures
        picked is Some <==> player.ready(position@),
        picked matches Some(m) ==> player.picks(position@, m) && moves_of(position@).contains(m),
{
    if player.is_ready(position) {
        Some(player.get_move(position))
    } else {
        None
    }
}

/// Picks the move after which the position scores best.
#[derive(Clone, Copy, Debug)]
pub struct GreedyPlayer;

/// Picks the move whose outcome scores best, the outcome being judged after
/// the reply of a player that looks one reply less ahead; at depth 0 it plays
/// as `GreedyPlayer` does.
#[derive(Clone, Copy, Debug)]
pub struct TreePlayer {
    pub depth: i32,
}

/// Picks any legal move, each as likely as the others.
#[derive(Clone, Copy, Debug)]
pub struct RandomPlayer;

/// A `GreedyPlayer` or a `TreePlayer`.
#[derive(Clone, Copy, Debug)]
pub enum Strategy {
    Greedy(GreedyPlayer),
    Tree(TreePlayer),
}

impl Strategy {
    /// How many replies this player looks ahead.
    pub open spec fn depth(&self) -> int {
        match self {
            Strategy::Greedy(_) => 0,
            Strategy::Tree(t) => t.depth as int,
        }
    }
}

/// The player that looks `depth` replies ahead: a `GreedyPlayer` for depth 0,
/// a `TreePlayer` of that depth otherwise.
pub open spec fn player_for(depth: i32) -> Strategy {
    if depth == 0 {
        Strategy::Greedy(GreedyPlayer)
    } else {
        Strategy::Tree(TreePlayer { depth })
    }
}

/// The player that looks `depth` replies ahead.
pub fn get_player(depth: i32) -> (s: Strategy)
    requires
        depth >= 0,
    ensures
        s == player_for(depth),
{
    if depth == 0 {
        Strategy::Greedy(GreedyPlayer)
    } else {
        Strategy::Tree(TreePlayer { depth })
    }
}

/// The player for a depth is ready exactly where a player of that depth can
/// pick a move.
pub proof fn lemma_ready_is_playable(depth: i32, text: Seq<char>)
    requires
        depth >= 0,
    ensures
        player_for(depth).ready(text) == playable(depth as nat, text),
{
}

/// A player that looks no reply ahead picks as the greedy player does.
pub proof fn lemma_depth_zero_is_greedy(text: Seq<char>)
    ensures
        choice(0, text) == greedy_choice(text),
{
    assert(outcome_scores(0, text) =~= next_scores(text));
}

/// A greedy player, a tree player and the player for a depth pick one move
/// and no other in a position: the same player asked again of the same
/// position gives the same move.
pub proof fn lemma_one_move_is_picked(depth: i32, text: Seq<char>, a: Move, b: Move)
    ensures
        GreedyPlayer.picks(text, a) && GreedyPlayer.picks(text, b) ==> a == b,
        (TreePlayer { depth }).picks(text, a) && (TreePlayer { depth }).picks(text, b) ==> a == b,
        player_for(depth).picks(text, a) && player_for(depth).picks(text, b) ==> a == b,
{
}

/// A tree player of depth 0, the player for depth 0 and the greedy player
/// pick the same move.
pub proof fn lemma_depth_zero_picks_as_greedy(text: Seq<char>, m: Move)
    ensures
        (TreePlayer { depth: 0 }).picks(text, m) == GreedyPlayer.picks(text, m),
        player_for(0).picks(text, m) == GreedyPlayer.picks(text, m),
{
    lemma_depth_zero_is_greedy(text);
}

/// Where a position has a legal move, the move picked at any depth is one of
/// its legal moves.
pub proof fn lemma_choice_is_legal(depth: nat, text: Seq<char>)
    requires
        moves_of(text).len() > 0,
    ensures
        moves_of(text).contains(choice(depth, text)),
        moves_of(text).contains(greedy_choice(text)),
{
    lemma_best_index(side_of(text), outcome_scores(depth, text));
    lemma_best_index(side_of(text), next_scores(text));
}

/// Of two legal moves whose outcomes score the same, the later one is not
/// the one picked: the pick stands at another place of the list.
pub proof fn lemma_choice_keeps_earlier(depth: nat, text: Seq<char>, i: int, j: int)
    requires
        0 <= i < j < moves_of(text).len(),
        outcome_scores(depth, text)[i] == outcome_scores(depth, text)[j],
    ensures
        best_index(side_of(text), outcome_scores(depth, text)) != j,
{
    lemma_tie_keeps_earlier(side_of(text), outcome_scores(depth, text), i, j);
}

/// Of two legal moves that leave positions with the same score, the later
/// one is not the one the greedy player picks.
pub proof fn lemma_greedy_keeps_earlier(text: Seq<char>, i: int, j: int)
    requires
        0 <= i < j < moves_of(text).len(),
        next_scores(text)[i] == next_scores(text)[j],
    ensures
        best_index(side_of(text), next_scores(text)) != j,
{
    lemma_tie_keeps_earlier(side_of(text), next_scores(text), i, j);
}

/// Where the legal moves are all different, of two whose outcomes score the
/// same the later one is not the move picked.
pub proof fn lemma_choice_is_not_the_later_move(depth: nat, text: Seq<char>, i: int, j: int)
    requires
        moves_of(text).no_duplicates(),
        0 <= i < j < moves_of(text).len(),
        outcome_scores(depth, text)[i] == outcome_scores(depth, text)[j],
    ensures
        choice(depth, text) != moves_of(text)[j],
{
    lemma_best_index(side_of(text), outcome_scores(depth, text));
    lemma_tie_keeps_earlier(side_of(text), outcome_scores(depth, text), i, j);
}

/// Where the legal moves are all different, of two that leave positions
/// with the same score the later one is not the move the greedy player picks.
pub proof fn lemma_greedy_is_not_the_later_move(text: Seq<char>, i: int, j: int)
    requires
        moves_of(text).no_duplicates(),
        0 <= i < j < moves_of(text).len(),
        next_scores(text)[i] == next_scores(text)[j],
    ensures
        greedy_choice(text) != moves_of(text)[j],
{
    lemma_best_index(side_of(text), next_scores(text));
    lemma_tie_keeps_earlier(side_of(text), next_scores(text), i, j);
}

/// Among scores of which those equal to `win_score` mark the checkmating
/// moves, the first best is a checkmating move where there is one.
proof fn lemma_best_takes_mate(side: Side, scores: Seq<i32>, text: Seq<char>, k: int)
    requires
        side == side_of(text),
        scores.len() == moves_of(text).len(),
        is_first_best(side, as_ints(scores), k),
        forall|j: int|
            0 <= j < scores.len() ==> (#[trigger] scores[j] == win_score(side) <==> mates(
                text,
                moves_of(text)[j],
            )),
    ensures
        can_mate(text) ==> mates(text, moves_of(text)[k]),
{
    if can_mate(text) {
        let i = choose|i: int|
            0 <= i < moves_of(text).len() && mates(text, #[trigger] moves_of(text)[i]);
        assert(!better(side, as_ints(scores)[i], as_ints(scores)[k]));
    }
}

/// Trusted: calls `rand::thread_rng` and `rand::Rng::gen_range` with the
/// bounds 0 and `bound`. The draw lies from 0 up to, and not including,
/// `bound`; the call panics where `bound` is 0, which `requires` leaves out.
/// Nothing is said of which number in that range comes out.
#[verifier::external_body]
fn random_below(bound: usize) -> (n: usize)
    requires
        bound > 0,
    ensures
        n < bound,
{
    rand::Rng::gen_range(&mut rand::thread_rng(), 0, bound)
}

impl RandomPlayer {
    /// The legal move of `position` at place `draw`.
    pub fn move_at(&self, position: &Position, draw: usize) -> (m: Move)
        requires
            draw < moves_of(position@).len(),
        ensures
            m == moves_of(position@)[draw as int],
    {
        let moves = position.legal_moves();
        moves[draw]
    }

    /// The legal move of `position` at place `draw`, or `None` where the
    /// position has no more than `draw` legal moves.
    pub fn try_move_at(&self, position: &Position, draw: usize) -> (picked: Option<Move>)
        ensures
            picked == if draw < moves_of(position@).len() {
                Some(moves_of(position@)[draw as int])
            } else {
                None
            },
    {
        if draw < position.legal_moves().len() {
            Some(self.move_at(position, draw))
        } else {
            None
        }
    }
}

impl Player for RandomPlayer {
    open spec fn ready(&self, text: Seq<char>) -> bool {
        moves_of(text).len() > 0
    }

    open spec fn picks(&self, text: Seq<char>, m: Move) -> bool {
        moves_of(text).contains(m)
    }

    fn is_ready(&self, position: &Position) -> (r: bool) {
        position.status() == Status::Ongoing
    }

    /// The legal move at a place drawn at random: one number is drawn, from
    /// 0 up to the count of legal moves, and `move_at` gives the move.
    fn get_move(&self, position: &Position) -> (m: Move) {
        let count = position.legal_moves().len();
        let draw = random_below(count);
        self.move_at(position, draw)
    }
}

impl Player for GreedyPlayer {
    open spec fn ready(&self, text: Seq<char>) -> bool {
        moves_of(text).len() > 0
    }

    open spec fn picks(&self, text: Seq<char>, m: Move) -> bool {
        m == greedy_choice(text)
    }

    fn is_ready(&self, position: &Position) -> (r: bool) {
        position.status() == Status::Ongoing
    }

    /// The first legal move such that no other leaves a position with a
    /// better score for the side to move. Where a legal move checkmates, the
    /// move picked does.
    fn get_move(&self, position: &Position) -> (m: Move)
        ensures
            m == greedy_choice(position@),
            can_mate(position@) ==> mates(position@, m),
    {
        let moves = position.legal_moves();
        let side = position.side_to_move();
        let mut scores: Vec<i32> = Vec::new();
        let mut i: usize = 0;
        while i < moves.len()
            invariant
                i <= moves.len(),
                moves@ == moves_of(position@),
                side == side_of(position@),
                scores.len() == i,
                forall|j: int|
                    0 <= j < i ==> #[trigger] scores@[j] as int == score(
                        text_after(position@, moves@[j]),
                    ),
                forall|j: int|
                    0 <= j < i ==> (#[trigger] scores@[j] == win_score(side) <==> mates(
                        position@,
                        moves@[j],
                    )),
            decreases moves.len() - i,
        {
            let m = moves[i];
            let next = position.make_move(m);
            scores.push(board_score(&next));
            i += 1;
        }
        let k = pick_best(side, &scores);
        proof {
            assert(as_ints(scores@) =~= next_scores(position@));
            lemma_best_takes_mate(side, scores@, position@, k as int);
        }
        moves[k]
    }
}

impl Player for TreePlayer {
    open spec fn ready(&self, text: Seq<char>) -> bool {
        self.depth >= 0 && playable(self.depth as nat, text)
    }

    open spec fn picks(&self, text: Seq<char>, m: Move) -> bool {
        m == choice(self.depth as nat, text)
    }

    fn is_ready(&self, position: &Position) -> (r: bool)
        decreases self.depth, 0nat,
    {
        if self.depth < 0 {
            return false;
        }
        let moves = position.legal_moves();
        if moves.len() == 0 {
            return false;
        }
        if self.depth == 0 {
            return true;
        }
        let child = get_player(self.depth - 1);
        let mut i: usize = 0;
        while i < moves.len()
            invariant
                i <= moves.len(),
                self.depth > 0,
                child == player_for((self.depth - 1) as i32),
                moves@ == moves_of(position@),
                forall|j: int|
                    0 <= j < i ==> {
                        let own = text_after(position@, #[trigger] moves@[j]);
                        status_of(own) == Status::Checkmate || playable(
                            (self.depth - 1) as nat,
                            own,
                        )
                    },
            decreases moves.len() - i,
        {
            let m = moves[i];
            let own = position.make_move(m);
            proof {
                lemma_ready_is_playable((self.depth - 1) as i32, own@);
            }
            if own.status() != Status::Checkmate && !child.is_ready(&own) {
                return false;
            }
            i += 1;
        }
        true
    }

    /// The first legal move whose outcome no other legal move's outcome
    /// beats for the side to move. Where a legal move checkmates, the move
    /// picked does.
    fn get_move(&self, position: &Position) -> (m: Move)
        ensures
            m == choice(self.depth as nat, position@),
            can_mate(position@) ==> mates(position@, m),
        decreases self.depth, 0nat,
    {
        if self.depth == 0 {
            proof {
                lemma_depth_zero_is_greedy(position@);
            }
            return GreedyPlayer.get_move(position);
        }
        let child = get_player(self.depth - 1);
        let moves = position.legal_moves();
        let side = position.side_to_move();
        let mut scores: Vec<i32> = Vec::new();
        let mut i: usize = 0;
        while i < moves.len()
            invariant
                i <= moves.len(),
                self.depth > 0,
                child == player_for((self.depth - 1) as i32),
                playable(self.depth as nat, position@),
                moves@ == moves_of(position@),
                side == side_of(position@),
                scores.len() == i,
                forall|j: int|
                    0 <= j < i ==> #[trigger] scores@[j] as int == score(
                        outcome(self.depth as nat, position@, moves@[j]),
                    ),
                forall|j: int|
                    0 <= j < i ==> (#[trigger] scores@[j] == win_score(side) <==> mates(
                        position@,
                        moves@[j],
                    )),
            decreases moves.len() - i,
        {
            let m = moves[i];
            let own = position.make_move(m);
            let value = if own.status() == Status::Checkmate {
                board_score(&own)
            } else {
                proof {
                    lemma_ready_is_playable((self.depth - 1) as i32, own@);
                }
                let reply = child.get_move(&own);
                board_score(&own.make_move(reply))
            };
            scores.push(value);
            i += 1;
        }
        let k = pick_best(side, &scores);
        proof {
            assert(as_ints(scores@) =~= outcome_scores(self.depth as nat, position@));
            lemma_best_takes_mate(side, scores@, position@, k as int);
        }
        moves[k]
    }
}

impl Player for Strategy {
    open spec fn ready(&self, text: Seq<char>) -> bool {
        match self {
            Strategy::Greedy(g) => g.ready(text),
            Strategy::Tree(t) => t.ready(text),
        }
    }

    open spec fn picks(&self, text: Seq<char>, m: Move) -> bool {
        m == choice(self.depth() as nat, text)
    }

    fn is_ready(&self, position: &Position) -> (r: bool)
        decreases self.depth(), 1nat,
    {
        match self {
            Strategy::Greedy(g) => g.is_ready(position),
            Strategy::Tree(t) => t.is_ready(position),
        }
    }

    /// The move that the player held picks.
    fn get_move(&self, position: &Position) -> (m: Move)
        ensures
            m == choice(self.depth() as nat, position@),
            can_mate(position@) ==> mates(position@, m),
        decreases self.depth(), 1nat,
    {
        match self {
            Strategy::Greedy(g) => {
                proof {
                    lemma_depth_zero_is_greedy(position@);
                }
                g.get_move(position)
            },
            Strategy::Tree(t) => t.get_move(position),
        }
    }
}

} // verus!
