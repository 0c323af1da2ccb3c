//! The game abstraction, the terminal-state rule, and the model of a
//! position's exact game value.
use vstd::prelude::*;

verus! {

/// The largest score magnitude the engine works with; windows and scores
/// stay inside `[-SCORE_LIMIT, SCORE_LIMIT]` so that negation never overflows.
pub const SCORE_LIMIT: isize = isize::MAX - 1;

/// One of the two players of a zero-sum game.
#[derive(PartialEq, Eq, Debug, Clone, Copy, Hash, Structural)]
pub enum ZeroSumPlayer {
    One,
    Two,
}

impl ZeroSumPlayer {
    pub open spec fn spec_other(self) -> ZeroSumPlayer {
        match self {
            ZeroSumPlayer::One => ZeroSumPlayer::Two,
            ZeroSumPlayer::Two => ZeroSumPlayer::One,
        }
    }

    /// The player who moves after this one.
    pub fn next(self) -> (r: ZeroSumPlayer)
        ensures
            r == self.spec_other(),
    {
        match self {
            ZeroSumPlayer::One => ZeroSumPlayer::Two,
            ZeroSumPlayer::Two => ZeroSumPlayer::One,
        }
    }

    /// The player who moved before this one.
    pub fn previous(self) -> (r: ZeroSumPlayer)
        ensures
            r == self.spec_other(),
    {
        self.next()
    }
}

/// Represents a move outcome.
#[derive(PartialEq, Eq, Debug, Clone, Copy, Hash)]
pub enum GameState<P> {
    /// It is still a player's turn: the game continues.
    Playable,
    /// The game ended in a tie: no player won.
    Tie,
    /// A player won.
    Win(P),
}

/// The convention that decides who wins once no legal move is left.
#[non_exhaustive]
pub enum StateType {
    /// Under normal play the last player to move wins. No ties.
    Normal,
    /// Under misère play the last player to move loses. No ties.
    Misere,
}

/// Represents a two-player, zero-sum combinatorial game.
///
/// The spec functions describe a position mathematically; the exec methods
/// compute them; the proof functions are the laws every game must satisfy
/// for the search engine to be exact.
pub trait Game: Sized {
    /// The type of move this game uses.
    type Move;

    /// The error raised when a move cannot be applied.
    type MoveError;

    /// The position is well formed (the game's own invariant).
    spec fn wf(&self) -> bool;

    /// The number of moves played so far.
    spec fn spec_move_count(&self) -> nat;

    /// The maximal number of moves of the game, if there is one.
    spec fn spec_max_moves(&self) -> Option<usize>;

    /// The legal moves, best-first.
    spec fn spec_moves(&self) -> Seq<Self::Move>;

    /// The position after a successful application of `m`.
    spec fn spec_after(&self, m: Self::Move) -> Self;

    /// `make_move` refuses `m` at this position.
    spec fn spec_rejects(&self, m: Self::Move) -> bool;

    /// Terminal classification.
    spec fn spec_state(&self) -> GameState<ZeroSumPlayer>;

    /// The player to move.
    spec fn spec_player(&self) -> ZeroSumPlayer;

    /// A key that identifies the position (used by transposition tables).
    spec fn spec_key(&self) -> u64;

    /// Returns the amount of moves that have been played.
    fn move_count(&self) -> (r: usize)
        ensures
            r == self.spec_move_count(),
    ;

    /// Gets the max number of moves in a game, if any.
    fn max_moves(&self) -> (r: Option<usize>)
        ensures
            r == self.spec_max_moves(),
    ;

    /// Makes a move.
    fn make_move(&mut self, m: &Self::Move) -> (r: Result<(), Self::MoveError>)
        ensures
            r is Ok <==> !old(self).spec_rejects(*m),
            r is Ok ==> *final(self) == old(self).spec_after(*m),
    ;

    /// Returns all possible moves, the most promising first.
    fn possible_moves(&self) -> (r: Vec<Self::Move>)
        ensures
            r@ == self.spec_moves(),
    ;

    /// Returns the current state of the game.
    fn state(&self) -> (r: GameState<ZeroSumPlayer>)
        ensures
            r == self.spec_state(),
    ;

    /// Returns the player whose turn it is.
    fn player(&self) -> (r: ZeroSumPlayer)
        ensures
            r == self.spec_player(),
    ;

    /// Returns the key of this position.
    fn key(&self) -> (r: u64)
        ensures
            r == self.spec_key(),
    ;

    /// Returns an identical copy of this position.
    fn duplicate(&self) -> (r: Self)
        ensures
            r == *self,
    ;

    /// Returns a position reachable in one move whose outcome is already
    /// settled, preferring, in this order, a win for the player to move, a
    /// tie, a loss. Returns `None` when every reachable position is still
    /// playable. Fails only where `make_move` does.
    ///
    /// This default tries every move; a game may override it with a faster
    /// check, which must meet the same contract.
    fn find_immediately_resolvable_game(&self) -> (r: Result<Option<Self>, Self::MoveError>)
        ensures
            r matches Ok(Some(c)) ==> exists|i: int|
                0 <= i < self.spec_moves().len() && c == self.spec_after(self.spec_moves()[i])
                    && !(c.spec_state() is Playable),
            r is Ok ==> ((exists|i: int|
                0 <= i < self.spec_moves().len() && self.spec_after(self.spec_moves()[i]).spec_state()
                    == GameState::Win(self.spec_player())) ==> (r matches Ok(Some(c))
                && c.spec_state() == GameState::Win(self.spec_player()))),
            r is Ok ==> ((forall|i: int|
                0 <= i < self.spec_moves().len() ==> self.spec_after(
                    self.spec_moves()[i],
                ).spec_state() != GameState::Win(self.spec_player())) && (exists|i: int|
                0 <= i < self.spec_moves().len() && self.spec_after(
                    self.spec_moves()[i],
                ).spec_state() is Tie) ==> (r matches Ok(Some(c)) && c.spec_state() is Tie)),
            (forall|i: int|
                0 <= i < self.spec_moves().len() ==> !self.spec_rejects(self.spec_moves()[i]))
                ==> r is Ok,
            r is Ok ==> (r matches Ok(None) <==> forall|i: int|
                0 <= i < self.spec_moves().len() ==> self.spec_after(
                    self.spec_moves()[i],
                ).spec_state() is Playable),
    {
        let moves = self.possible_moves();
        let n = moves.len();
        let me = self.player();
        let mut best_non_winning: Option<Self> = None;
        let mut i: usize = 0;
        while i < n
            invariant
                moves@ == self.spec_moves(),
                n == moves@.len(),
                me == self.spec_player(),
                0 <= i <= n,
                forall|j: int|
                    0 <= j < i ==> self.spec_after(self.spec_moves()[j]).spec_state()
                        != GameState::Win(self.spec_player()),
                best_non_winning is None ==> forall|j: int|
                    0 <= j < i ==> self.spec_after(self.spec_moves()[j]).spec_state() is Playable,
                best_non_winning matches Some(c) ==> exists|j: int|
                    0 <= j < i && c == self.spec_after(self.spec_moves()[j])
                        && !(c.spec_state() is Playable),
                (exists|j: int|
                    0 <= j < i && self.spec_after(self.spec_moves()[j]).spec_state() is Tie)
                    ==> (best_non_winning matches Some(c) && c.spec_state() is Tie),
            decreases n - i,
        {
            let mut next = self.duplicate();
            match next.make_move(&moves[i]) {
                Ok(()) => {},
                Err(e) => {
                    return Err(e);
                },
            }
            assert(next == self.spec_after(self.spec_moves()[i as int]));
            match next.state() {
                GameState::Playable => {},
                GameState::Tie => {
                    best_non_winning = Some(next);
                },
                GameState::Win(w) => {
                    if w == me {
                        assert(self.spec_after(self.spec_moves()[i as int]).spec_state()
                            == GameState::Win(self.spec_player()));
                        return Ok(Some(next));
                    } else if best_non_winning.is_none() {
                        best_non_winning = Some(next);
                    }
                },
            }
            i += 1;
        }
        Ok(best_non_winning)
    }

    /// The move count never exceeds the game's upper bound, and a position
    /// is playable exactly when it has a legal move.
    proof fn lemma_position(&self)
        requires
            self.wf(),
        ensures
            self.spec_move_count() <= match self.spec_max_moves() {
                Some(m) => if m <= isize::MAX {
                    m as int
                } else {
                    isize::MAX as int
                },
                None => isize::MAX as int,
            },
            (self.spec_state() is Playable) <==> self.spec_moves().len() > 0,
    ;

    /// A move adds one to the move count, keeps the bound and passes the turn.
    proof fn lemma_move(&self, i: int)
        requires
            self.wf(),
            0 <= i < self.spec_moves().len(),
        ensures
            self.spec_after(self.spec_moves()[i]).wf(),
            self.spec_after(self.spec_moves()[i]).spec_move_count() == self.spec_move_count() + 1,
            self.spec_after(self.spec_moves()[i]).spec_max_moves() == self.spec_max_moves(),
            self.spec_after(self.spec_moves()[i]).spec_player() == self.spec_player().spec_other(),
    ;

    /// Equal keys mean equal positions.
    proof fn lemma_key(a: Self, b: Self)
        requires
            a.wf(),
            b.wf(),
            a.spec_key() == b.spec_key(),
        ensures
            a == b,
    ;
}

impl StateType {
    /// The state of `game` under this convention: playable while a move is
    /// left; otherwise a win for the previous mover (normal) or for the
    /// player to move (misère).
    pub fn state<T: Game>(&self, game: &T) -> (r: GameState<ZeroSumPlayer>)
        ensures
            r == (if game.spec_moves().len() == 0 {
                GameState::Win(
                    match self {
                        StateType::Misere => game.spec_player(),
                        StateType::Normal => game.spec_player().spec_other(),
                    },
                )
            } else {
                GameState::Playable
            }),
    {
        let moves = game.possible_moves();
        if moves.len() == 0 {
            GameState::Win(
                match self {
                    StateType::Misere => game.player(),
                    StateType::Normal => game.player().previous(),
                },
            )
        } else {
            GameState::Playable
        }
    }
}

/// The upper score bound of a game: its maximal move count, or `isize::MAX`.
pub open spec fn spec_upper_bound<G: Game>(g: G) -> int {
    match g.spec_max_moves() {
        Some(m) => if m <= isize::MAX {
            m as int
        } else {
            isize::MAX as int
        },
        None => isize::MAX as int,
    }
}

/// Utility function to get the upper score bound of a game.
///
/// Scores are penalised by the number of moves made, so that shorter wins
/// score higher. The result is never negative.
pub fn upper_bound<T: Game>(game: &T) -> (r: isize)
    ensures
        r == spec_upper_bound(*game),
        r >= 0,
{
    match game.max_moves() {
        Some(m) => if m <= isize::MAX as usize {
            m as isize
        } else {
            isize::MAX
        },
        None => isize::MAX,
    }
}

/// Represents an outcome of a game derived by a score and a position.
///
/// For a score of the engine, the distance counts the moves still to be
/// played until the game ends; for a game that ends exactly at its upper
/// bound it counts one fewer (the final move is not counted).
#[derive(Clone, Copy, PartialEq, Eq, Debug)]
pub enum GameScoreOutcome {
    /// The player to move wins; the inner field is the distance.
    Win(usize),
    /// The player to move loses; the inner field is the distance.
    Loss(usize),
    Tie,
}

/// Moves left until the game's upper bound is reached.
pub open spec fn remaining<G: Game>(g: G) -> int {
    spec_upper_bound(g) - g.spec_move_count()
}

/// The outcome that a score stands for at a position.
pub open spec fn spec_outcome<G: Game>(g: G, score: int) -> GameScoreOutcome {
    if score > 0 {
        GameScoreOutcome::Win((remaining(g) - score) as usize)
    } else if score == 0 {
        GameScoreOutcome::Tie
    } else {
        GameScoreOutcome::Loss((remaining(g) + score) as usize)
    }
}

/// Converts a score to the amount of moves to a win or loss, or a tie.
pub fn score_to_outcome<T: Game>(game: &T, score: isize) -> (r: GameScoreOutcome)
    requires
        -remaining(*game) <= score <= remaining(*game),
    ensures
        r == spec_outcome(*game, score as int),
{
    let ub = upper_bound(game);
    let mc = game.move_count() as isize;
    if score > 0 {
        GameScoreOutcome::Win((ub - mc - score) as usize)
    } else if score == 0 {
        GameScoreOutcome::Tie
    } else {
        GameScoreOutcome::Loss((ub - mc + score) as usize)
    }
}

/// Rebuilds a score from an outcome, the move count and the upper bound.
pub open spec fn score_from_outcome(o: GameScoreOutcome, move_count: int, upper: int) -> int {
    match o {
        GameScoreOutcome::Win(n) => upper - n - move_count,
        GameScoreOutcome::Loss(n) => n - upper + move_count,
        GameScoreOutcome::Tie => 0,
    }
}

/// Converting a score in the reachable range to an outcome gives a
/// non-negative distance, and the score is recovered from that outcome.
pub proof fn lemma_outcome_round_trip<G: Game>(g: G, score: int)
    requires
        -remaining(g) <= score <= remaining(g),
    ensures
        match spec_outcome(g, score) {
            GameScoreOutcome::Win(n) => n == remaining(g) - score,
            GameScoreOutcome::Loss(n) => n == remaining(g) + score,
            GameScoreOutcome::Tie => score == 0,
        },
        score_from_outcome(
            spec_outcome(g, score),
            g.spec_move_count() as int,
            spec_upper_bound(g),
        ) == score,
{
}

/// The position reached by the `i`-th legal move.
pub open spec fn child<G: Game>(g: G, i: int) -> G {
    g.spec_after(g.spec_moves()[i])
}

/// `make_move` accepts every legal move at every position reachable from `g`.
pub open spec fn accepts_all<G: Game>(g: G) -> bool
    decreases remaining(g),
{
    forall|i: int|
        #![trigger g.spec_moves()[i]]
        0 <= i < g.spec_moves().len() ==> !g.spec_rejects(g.spec_moves()[i]) && (0 <= remaining(
            child(g, i),
        ) < remaining(g) ==> accepts_all(child(g, i)))
}

/// The magnitude of the score of a decided position: the moves left until the
/// upper bound (so shorter wins score higher), and at least one, so that a
/// decided game never scores like a tie.
pub open spec fn decided_score<G: Game>(g: G) -> int {
    if remaining(g) > 0 {
        remaining(g)
    } else {
        1
    }
}

/// The largest score a playable position can have: that of a win on the
/// next move.
pub open spec fn win_score<G: Game>(g: G) -> int {
    if remaining(g) > 1 {
        remaining(g) - 1
    } else {
        1
    }
}

/// The score of a finished position for the player to move: plus or minus
/// `decided_score` for a decided game, zero for a tie.
pub open spec fn terminal_value<G: Game>(g: G) -> int {
    match g.spec_state() {
        GameState::Win(p) => if p == g.spec_player() {
            decided_score(g)
        } else {
            -decided_score(g)
        },
        _ => 0,
    }
}

/// The exact game value of a position for the player to move (negamax).
pub open spec fn value<G: Game>(g: G) -> int
    decreases remaining(g), 1nat, 0nat,
{
    if g.spec_state() is Playable && 0 < remaining(g) {
        best(g, g.spec_moves().len())
    } else {
        terminal_value(g)
    }
}

/// The best of the negated values of the first `n` children of `g`.
pub open spec fn best<G: Game>(g: G, n: nat) -> int
    decreases remaining(g), 0nat, n,
{
    if n == 0 {
        -(remaining(g) + 1)
    } else {
        let c = child(g, n - 1);
        let s = if 0 <= remaining(c) < remaining(g) {
            -value(c)
        } else {
            0
        };
        let b = best(g, (n - 1) as nat);
        if s > b {
            s
        } else {
            b
        }
    }
}

/// The score of the `i`-th move for the player who makes it.
pub open spec fn child_score<G: Game>(g: G, i: int) -> int {
    -value(child(g, i))
}

/// `best` is an upper bound of each child score it covers, and is reached by one.
pub proof fn lemma_best<G: Game>(g: G, n: nat)
    requires
        g.wf(),
        n <= g.spec_moves().len(),
        0 < remaining(g),
    ensures
        forall|j: int| 0 <= j < n ==> child_score(g, j) <= best(g, n),
        n > 0 ==> exists|j: int| 0 <= j < n && child_score(g, j) == best(g, n),
    decreases n,
{
    g.lemma_position();
    if n > 0 {
        lemma_best(g, (n - 1) as nat);
        g.lemma_move(n - 1);
        child(g, n - 1).lemma_position();
        if n > 1 {
            let j0 = choose|j: int| 0 <= j < n - 1 && child_score(g, j) == best(g, (n - 1) as nat);
            if child_score(g, n - 1) <= best(g, (n - 1) as nat) {
                assert(0 <= j0 < n && child_score(g, j0) == best(g, n));
            } else {
                assert(child_score(g, n - 1) == best(g, n));
            }
        } else {
            g.lemma_move(0);
            lemma_value_range(child(g, 0));
            assert(best(g, 0) == -(remaining(g) + 1));
            assert(child_score(g, 0) == best(g, n));
        }
    }
}

/// A value is at most `decided_score` in magnitude, and at most `win_score`
/// while the game is still playable (a playable position has a move left).
pub proof fn lemma_value_range<G: Game>(g: G)
    requires
        g.wf(),
    ensures
        0 <= remaining(g),
        -decided_score(g) <= value(g) <= decided_score(g),
        g.spec_state() is Playable ==> 1 <= remaining(g) && -win_score(g) <= value(g) <= win_score(
            g,
        ),
    decreases remaining(g), 1nat,
{
    g.lemma_position();
    if g.spec_state() is Playable {
        g.lemma_move(0);
        child(g, 0).lemma_position();
        let n = g.spec_moves().len();
        lemma_best_range(g, n);
    }
}

proof fn lemma_best_range<G: Game>(g: G, n: nat)
    requires
        g.wf(),
        1 <= n <= g.spec_moves().len(),
    ensures
        -win_score(g) <= best(g, n) <= win_score(g),
    decreases remaining(g), 0nat, n,
{
    g.lemma_position();
    g.lemma_move(n - 1);
    let c = child(g, n - 1);
    c.lemma_position();
    lemma_value_range(c);
    if n > 1 {
        lemma_best_range(g, (n - 1) as nat);
    } else {
        assert(best(g, 0) == -(remaining(g) + 1));
    }
}

/// A value lies within `[-upper_bound, upper_bound]` (only a position decided
/// with an upper bound of zero is outside, at plus or minus one). Unless the
/// position is decided exactly at its upper bound, the value also lies within
/// `[-remaining, remaining]`, so that both distances derived from it are
/// non-negative.
pub proof fn lemma_score_range<G: Game>(g: G)
    requires
        g.wf(),
    ensures
        spec_upper_bound(g) > 0 ==> -spec_upper_bound(g) <= value(g) <= spec_upper_bound(g),
        !(g.spec_state() is Win) || remaining(g) > 0 ==> -remaining(g) <= value(g) <= remaining(g),
{
    lemma_value_range(g);
}

} // verus!
