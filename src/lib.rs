//! `game_solver` computes the exact value of positions in two-player,
//! zero-sum, perfect-information games: negamax with alpha-beta pruning,
//! principal-variation re-search and a transposition table, driven by an
//! MTD(f)-style null-window refinement.
use vstd::prelude::*;

pub mod game;
pub mod transposition;
pub mod pile;

use crate::game::{
    Game, GameState, SCORE_LIMIT, best, child, child_score, lemma_best, lemma_value_range,
    remaining, spec_upper_bound, upper_bound, value, accepts_all, lemma_score_range,
    terminal_value, win_score,
};
use crate::transposition::{TranspositionTable, TranspositionTableScore, bound_holds};

verus! {

/// Scores of `game` fit the engine's arithmetic.
pub open spec fn within_score_limit<G: Game>(g: G) -> bool {
    spec_upper_bound(g) + 2 <= SCORE_LIMIT
}

/// `r` is a fail-soft answer for a window `(alpha, beta)` on a position of value `v`:
/// a fail-low bounds `v` from above, a fail-high from below, and a result
/// inside the window is exact.
pub open spec fn fail_soft(r: int, alpha: int, beta: int, v: int) -> bool {
    &&& r <= alpha ==> v <= r
    &&& r >= beta ==> v >= r
    &&& alpha < r < beta ==> v == r
}

proof fn lemma_accepts_all_unfold<G: Game>(g: G, i: int)
    requires
        accepts_all(g),
        0 <= i < g.spec_moves().len(),
    ensures
        !g.spec_rejects(g.spec_moves()[i]),
        0 <= remaining(child(g, i)) < remaining(g) ==> accepts_all(child(g, i)),
{
    assert(g.spec_moves()[i] == g.spec_moves()[i]);
}

/// Some legal move of `g` wins on the spot for the player who makes it.
pub open spec fn has_winning_move<G: Game>(g: G) -> bool {
    exists|i: int|
        0 <= i < g.spec_moves().len() && child(g, i).spec_state() == GameState::Win(g.spec_player())
}

/// The bound the search starts from at `g`: the stored one, or else the
/// largest score a playable position can reach.
pub open spec fn probed<G: Game>(
    view: Map<u64, TranspositionTableScore>,
    g: G,
) -> TranspositionTableScore {
    if view.contains_key(g.spec_key()) {
        view[g.spec_key()]
    } else {
        TranspositionTableScore::UpperBound(remaining(g) as isize)
    }
}

/// The lower end of the window once a stored lower bound has tightened it.
pub open spec fn tight_alpha(alpha: int, s: TranspositionTableScore) -> int {
    match s {
        TranspositionTableScore::LowerBound(l) => if alpha < l {
            l as int
        } else {
            alpha
        },
        _ => alpha,
    }
}

/// The upper end of the window once a stored upper bound has tightened it.
pub open spec fn tight_beta(beta: int, s: TranspositionTableScore) -> int {
    match s {
        TranspositionTableScore::UpperBound(u) => if beta > u {
            u as int
        } else {
            beta
        },
        _ => beta,
    }
}

/// Negamax with alpha-beta pruning, principal-variation re-search and a
/// transposition table.
///
/// A finished position gets its terminal value and a move that wins on the
/// spot gets `win_score`, both without touching the table. Otherwise the
/// stored bound (or the default upper bound) tightens the window; a window
/// that closes returns the bound that closed it, again without storing. A
/// search that reaches the tightened beta stores `LowerBound(beta)` and
/// returns beta; any other search stores `UpperBound(result)`. Stored entries
/// are never dropped.
fn negamax<T: Game, TT: TranspositionTable<T>>(
    game: &T,
    transposition_table: &mut TT,
    alpha: isize,
    beta: isize,
) -> (r: Result<isize, T::MoveError>)
    requires
        game.wf(),
        -SCORE_LIMIT <= alpha < beta <= SCORE_LIMIT,
        within_score_limit(*game),
    ensures
        r matches Ok(x) ==> -SCORE_LIMIT <= x <= SCORE_LIMIT && fail_soft(
            x as int,
            alpha as int,
            beta as int,
            value(*game),
        ),
        accepts_all(*game) ==> r is Ok,
        old(transposition_table).spec_view().dom().subset_of(
            final(transposition_table).spec_view().dom(),
        ),
        !(game.spec_state() is Playable) ==> r == Ok::<isize, T::MoveError>(
            terminal_value(*game) as isize,
        ) && final(transposition_table).spec_view() == old(transposition_table).spec_view(),
        game.spec_state() is Playable && has_winning_move(*game) ==> r is Err || (r matches Ok(x)
            && x == win_score(*game) && final(transposition_table).spec_view() == old(
            transposition_table,
        ).spec_view()),
        game.spec_state() is Playable && !has_winning_move(*game) && tight_alpha(
            alpha as int,
            probed(old(transposition_table).spec_view(), *game),
        ) >= tight_beta(beta as int, probed(old(transposition_table).spec_view(), *game)) ==> r is Err
            || (r matches Ok(x) && x == (if probed(
            old(transposition_table).spec_view(),
            *game,
        ) is UpperBound {
            tight_beta(beta as int, probed(old(transposition_table).spec_view(), *game))
        } else {
            tight_alpha(alpha as int, probed(old(transposition_table).spec_view(), *game))
        }) && final(transposition_table).spec_view() == old(transposition_table).spec_view()),
        r matches Ok(x) ==> (game.spec_state() is Playable && !has_winning_move(*game)
            && tight_alpha(alpha as int, probed(old(transposition_table).spec_view(), *game))
            < tight_beta(beta as int, probed(old(transposition_table).spec_view(), *game)) ==> {
            let tb = tight_beta(beta as int, probed(old(transposition_table).spec_view(), *game));
            let ta = tight_alpha(alpha as int, probed(old(transposition_table).spec_view(), *game));
            let v1 = final(transposition_table).spec_view();
            &&& v1.contains_key(game.spec_key())
            &&& x >= tb ==> x == tb && v1[game.spec_key()] == TranspositionTableScore::LowerBound(
                x,
            )
            &&& x < tb ==> ta <= x && v1[game.spec_key()] == TranspositionTableScore::UpperBound(x)
        }),
    decreases remaining(*game),
{
    proof {
        game.lemma_position();
        lemma_value_range(*game);
    }
    let ub = upper_bound(game);
    let mc = game.move_count() as isize;
    let me = game.player();
    match game.state() {
        GameState::Tie => {
            return Ok(0);
        },
        GameState::Win(w) => {
            let d = if ub - mc > 0 {
                ub - mc
            } else {
                1
            };
            if w == me {
                return Ok(d);
            } else {
                return Ok(-d);
            }
        },
        GameState::Playable => {},
    }
    proof {
        game.lemma_move(0);
        child(*game, 0).lemma_position();
        lemma_best(*game, game.spec_moves().len());
    }
    // a move that wins on the spot is the best there is
    match game.find_immediately_resolvable_game() {
        Err(e) => {
            proof {
                if accepts_all(*game) {
                    assert forall|i: int| 0 <= i < game.spec_moves().len() implies !game.spec_rejects(
                        game.spec_moves()[i],
                    ) by {
                        lemma_accepts_all_unfold(*game, i);
                    }
                }
            }
            return Err(e);
        },
        Ok(Some(next)) => {
            match next.state() {
                GameState::Win(w) => {
                    if w == me {
                        proof {
                            let i = choose|i: int|
                                0 <= i < game.spec_moves().len() && next == game.spec_after(
                                    game.spec_moves()[i],
                                ) && !(next.spec_state() is Playable);
                            game.lemma_move(i);
                            assert(child_score(*game, i) == win_score(*game));
                        }
                        if ub - mc > 1 {
                            return Ok(ub - mc - 1);
                        } else {
                            return Ok(1);
                        }
                    }
                },
                _ => {},
            }
        },
        Ok(None) => {},
    }

    let mut a = alpha;
    let mut b = beta;
    let bound = match transposition_table.get(game) {
        Some(s) => s,
        None => TranspositionTableScore::UpperBound(ub - mc),
    };
    assert(bound_holds(*game, bound));
    match bound {
        TranspositionTableScore::UpperBound(max) => {
            if b > max {
                b = max;
                if a >= b {
                    return Ok(b);
                }
            }
        },
        TranspositionTableScore::LowerBound(min) => {
            if a < min {
                a = min;
                if a >= b {
                    return Ok(a);
                }
            }
        },
    }
    let ghost a0 = a;
    let ghost v0 = old(transposition_table).spec_view();
    let moves = game.possible_moves();
    let n = moves.len();
    let mut i: usize = 0;
    while i < n
        invariant
            moves@ == game.spec_moves(),
            n == moves@.len(),
            0 <= i <= n,
            -SCORE_LIMIT <= alpha <= a0 <= a < b <= beta <= SCORE_LIMIT,
            a0 > alpha ==> value(*game) >= a0,
            b < beta ==> value(*game) <= b,
            within_score_limit(*game),
            game.wf(),
            game.spec_state() is Playable,
            0 < remaining(*game),
            value(*game) == best(*game, n as nat),
            i > 0 ==> best(*game, i as nat) <= a,
            v0 == old(transposition_table).spec_view(),
            !has_winning_move(*game),
            a0 == tight_alpha(alpha as int, probed(v0, *game)),
            b == tight_beta(beta as int, probed(v0, *game)),
            v0.dom().subset_of(transposition_table.spec_view().dom()),
            a > a0 ==> i > 0 && best(*game, i as nat) == a,
        decreases n - i,
    {
        let mut board = game.duplicate();
        match board.make_move(&moves[i]) {
            Ok(()) => {},
            Err(e) => {
                proof {
                    if accepts_all(*game) {
                        lemma_accepts_all_unfold(*game, i as int);
                    }
                }
                return Err(e);
            },
        }
        proof {
            game.lemma_move(i as int);
            board.lemma_position();
            lemma_value_range(board);
            assert(board == child(*game, i as int));
        }
        let score: isize;
        if i == 0 {
            match negamax(&board, transposition_table, -b, -a) {
                Ok(x) => {
                    score = -x;
                },
                Err(e) => {
                    return Err(e);
                },
            }
        } else {
            // null-window probe first; re-search only if it may improve `a`
            match negamax(&board, transposition_table, -a - 1, -a) {
                Ok(x) => {
                    if -x > a {
                        match negamax(&board, transposition_table, -b, -a) {
                            Ok(y) => {
                                score = -y;
                            },
                            Err(e) => {
                                return Err(e);
                            },
                        }
                    } else {
                        score = -x;
                    }
                },
                Err(e) => {
                    return Err(e);
                },
            }
        }
        proof {
            lemma_best(*game, n as nat);
            assert(child_score(*game, i as int) == -value(board));
            assert(best(*game, 0) == -(remaining(*game) + 1));
            assert(best(*game, (i + 1) as nat) == if -value(board) > best(
                *game,
                i as nat,
            ) {
                -value(board)
            } else {
                best(*game, i as nat)
            });
        }
        if score >= b {
            transposition_table.insert(game.duplicate(), TranspositionTableScore::LowerBound(b));
            return Ok(b);
        }
        if score > a {
            a = score;
        }
        i += 1;
    }
    transposition_table.insert(game.duplicate(), TranspositionTableScore::UpperBound(a));
    Ok(a)
}

/// Solves a game, returning its exact value for the player to move:
/// positive means a winning strategy, negative a losing one, zero a draw.
///
/// Null windows narrow the range of candidate scores until it closes
/// (MTD(f)-style); the transposition table is reused across iterations.
/// The result does not depend on what the table held beforehand. An error of
/// `make_move` is handed back as it is.
pub fn solve<T: Game, TT: TranspositionTable<T>>(
    game: &T,
    transposition_table: &mut TT,
) -> (r: Result<isize, T::MoveError>)
    requires
        game.wf(),
        within_score_limit(*game),
    ensures
        r matches Ok(x) ==> x == value(*game),
        r matches Ok(x) ==> (spec_upper_bound(*game) > 0 ==> -spec_upper_bound(*game) <= x
            <= spec_upper_bound(*game)),
        r matches Ok(x) ==> (!(game.spec_state() is Win) || remaining(*game) > 0 ==> -remaining(
            *game,
        ) <= x <= remaining(*game)),
        accepts_all(*game) ==> r is Ok,
        old(transposition_table).spec_view().dom().subset_of(
            final(transposition_table).spec_view().dom(),
        ),
{
    proof {
        game.lemma_position();
        lemma_value_range(*game);
        lemma_score_range(*game);
    }
    let ghost v0 = old(transposition_table).spec_view();
    let ub = upper_bound(game);
    let mc = game.move_count() as isize;
    let mut alpha: isize = -(ub - mc + 1);
    let mut beta: isize = ub - mc + 2;
    while alpha < beta
        invariant
            game.wf(),
            within_score_limit(*game),
            -SCORE_LIMIT <= alpha <= value(*game) <= beta <= SCORE_LIMIT,
            v0 == old(transposition_table).spec_view(),
            v0.dom().subset_of(transposition_table.spec_view().dom()),
        decreases beta - alpha,
    {
        let med = (alpha as i128 + (beta as i128 - alpha as i128) / 2) as isize;
        match negamax(game, transposition_table, med, med + 1) {
            Ok(r) => {
                if r <= med {
                    beta = r;
                } else {
                    alpha = r;
                }
            },
            Err(e) => {
                return Err(e);
            },
        }
    }
    Ok(alpha)
}

/// The score of playing `m` at `game`, from the point of view of the player
/// who plays it: the negated value of the position it leads to.
pub fn move_score<T: Game, TT: TranspositionTable<T>>(
    game: &T,
    m: &T::Move,
    transposition_table: &mut TT,
) -> (r: Result<isize, T::MoveError>)
    requires
        game.wf(),
        game.spec_moves().contains(*m),
        within_score_limit(*game),
    ensures
        r matches Ok(x) ==> x == -value(game.spec_after(*m)),
        game.spec_rejects(*m) ==> r is Err,
        !game.spec_rejects(*m) && accepts_all(game.spec_after(*m)) ==> r is Ok,
{
    let mut board = game.duplicate();
    match board.make_move(m) {
        Ok(()) => {},
        Err(e) => {
            return Err(e);
        },
    }
    proof {
        let i = choose|i: int| 0 <= i < game.spec_moves().len() && game.spec_moves()[i] == *m;
        game.lemma_move(i);
        board.lemma_position();
        lemma_value_range(board);
    }
    match solve(&board, transposition_table) {
        Ok(x) => Ok(-x),
        Err(e) => Err(e),
    }
}

/// The `(move, score)` pairs of every legal move of `game`, in the order the
/// game lists its moves. Each score is the negated value of the position the
/// move leads to, so a positive score marks a winning move for the player
/// who makes it. One table serves all the searches.
pub fn move_scores<T: Game, TT: TranspositionTable<T>>(
    game: &T,
    transposition_table: &mut TT,
) -> (r: Result<Vec<(T::Move, isize)>, T::MoveError>)
    requires
        game.wf(),
        within_score_limit(*game),
    ensures
        r matches Ok(v) ==> v@.len() == game.spec_moves().len() && forall|i: int|
            0 <= i < v@.len() ==> v@[i].0 == game.spec_moves()[i] && v@[i].1 == -value(
                child(*game, i),
            ),
        accepts_all(*game) ==> r is Ok,
        (exists|i: int| 0 <= i < game.spec_moves().len() && game.spec_rejects(game.spec_moves()[i]))
            ==> r is Err,
{
    let mut rest = game.possible_moves();
    let ghost moves = rest@;
    let n = rest.len();
    let mut out: Vec<(T::Move, isize)> = Vec::new();
    let mut i: usize = 0;
    while i < n
        invariant
            moves == game.spec_moves(),
            n == moves.len(),
            0 <= i <= n,
            rest@ == moves.subrange(i as int, n as int),
            out@.len() == i,
            game.wf(),
            within_score_limit(*game),
            forall|j: int|
                0 <= j < i ==> out@[j].0 == moves[j] && out@[j].1 == -value(child(*game, j)),
            forall|j: int| 0 <= j < i ==> !game.spec_rejects(#[trigger] moves[j]),
        decreases n - i,
    {
        assert(rest@[0] == moves[i as int]);
        let m = rest.remove(0);
        assert(game.spec_moves().contains(m)) by {
            assert(moves[i as int] == m);
        }
        proof {
            game.lemma_move(i as int);
            child(*game, i as int).lemma_position();
        }
        match move_score(game, &m, transposition_table) {
            Ok(x) => {
                out.push((m, x));
            },
            Err(e) => {
                return Err(e);
            },
        }
        assert(rest@ =~= moves.subrange(i + 1, n as int));
        i += 1;
    }
    Ok(out)
}

} // verus!
