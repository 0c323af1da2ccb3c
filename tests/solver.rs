use game_solver::game::{
    score_to_outcome, upper_bound, Game, GameScoreOutcome,
    GameState, StateType, ZeroSumPlayer,
};
use game_solver::pile::{Pile, PileError};
use game_solver::transposition::{HashTable, TranspositionTable, TranspositionTableScore};
use game_solver::{move_score, move_scores, solve};

fn solved(game: &Pile) -> isize {
    let mut table = HashTable::new();
    solve(game, &mut table).unwrap()
}

fn after(game: &Pile, take: u8) -> Pile {
    let mut next = *game;
    next.make_move(&take).unwrap();
    next
}

#[test]
fn three_tokens_is_a_win() {
    let game = Pile::new(3, 1, false);
    let score = solved(&game);
    assert!(score > 0);
    assert_eq!(score, 1);
    assert!(score_to_outcome(&game, score) == GameScoreOutcome::Win(2));
}

#[test]
fn two_tokens_left_is_a_loss() {
    let game = after(&Pile::new(3, 1, false), 1);
    assert_eq!(game.tokens(), 2);
    let score = solved(&game);
    assert!(score < 0);
    assert_eq!(score, -1);
    assert!(score_to_outcome(&game, score) == GameScoreOutcome::Loss(1));
}

#[test]
fn multiple_of_four_loses_when_taking_up_to_three() {
    for tokens in 1u8..=13 {
        let score = solved(&Pile::new(tokens, 3, false));
        if tokens % 4 == 0 {
            assert!(score < 0, "{} tokens", tokens);
        } else {
            assert!(score > 0, "{} tokens", tokens);
        }
    }
}

#[test]
fn four_tokens_exact_value() {
    let game = Pile::new(4, 3, false);
    let score = solved(&game);
    assert_eq!(score, -2);
    assert!(score_to_outcome(&game, score) == GameScoreOutcome::Loss(2));
}

#[test]
fn misere_single_token_loses() {
    assert_eq!(solved(&Pile::new(1, 1, true)), -1);
}

#[test]
fn misere_two_tokens_wins() {
    assert_eq!(solved(&Pile::new(2, 1, true)), 1);
}

#[test]
fn misere_matches_known_pattern() {
    // with takes of one to three, the player to move loses under misère
    // play exactly when the pile holds one more than a multiple of four
    for tokens in 1u8..=13 {
        let score = solved(&Pile::new(tokens, 3, true));
        if tokens % 4 == 1 {
            assert!(score < 0, "{} tokens", tokens);
        } else {
            assert!(score > 0, "{} tokens", tokens);
        }
    }
}

#[test]
fn finished_game_with_zero_bound_scores_minus_one() {
    let game = Pile::new(0, 1, false);
    assert!(game.state() == GameState::Win(ZeroSumPlayer::Two));
    assert_eq!(upper_bound(&game), 0);
    assert_eq!(solved(&game), -1);
}

#[test]
fn finished_game_below_bound_scores_remaining() {
    let game = after(&Pile::new(2, 2, false), 2);
    assert!(game.state() == GameState::Win(ZeroSumPlayer::One));
    assert_eq!(upper_bound(&game) - game.move_count() as isize, 1);
    let score = solved(&game);
    assert_eq!(score, -1);
    assert!(score_to_outcome(&game, score) == GameScoreOutcome::Loss(0));
}

#[test]
fn scores_stay_within_upper_bound() {
    for tokens in 1u8..=12 {
        for take in 1u8..=4 {
            for misere in [false, true] {
                let game = Pile::new(tokens, take, misere);
                let ub = upper_bound(&game);
                let score = solved(&game);
                assert!(-ub <= score && score <= ub);
                assert!(score != 0);
                let child = after(&game, 1);
                let child_score = solved(&child);
                assert!(-ub <= child_score && child_score <= ub);
            }
        }
    }
}

#[test]
fn move_scores_exact_values() {
    let game = Pile::new(5, 3, false);
    let mut table = HashTable::new();
    let scores = move_scores(&game, &mut table).unwrap();
    assert_eq!(scores, vec![(1u8, 2isize), (2, -3), (3, -3)]);
    assert_eq!(solved(&game), 2);
}

#[test]
fn move_scores_are_negated_child_values() {
    for tokens in 1u8..=10 {
        let game = Pile::new(tokens, 3, false);
        let mut table = HashTable::new();
        let scores = move_scores(&game, &mut table).unwrap();
        assert_eq!(scores.len(), game.possible_moves().len());
        for (m, s) in scores {
            assert_eq!(s, -solved(&after(&game, m)));
        }
    }
}

#[test]
fn move_score_agrees_with_move_scores() {
    let game = Pile::new(9, 4, true);
    let mut shared = HashTable::new();
    let scores = move_scores(&game, &mut shared).unwrap();
    for (m, s) in scores {
        let mut own = HashTable::new();
        assert_eq!(move_score(&game, &m, &mut own).unwrap(), s);
    }
}

#[test]
fn prefilled_table_gives_same_score() {
    let game = Pile::new(11, 3, false);
    let fresh = solved(&game);
    let mut table = HashTable::new();
    for take in 1u8..=3 {
        solve(&after(&game, take), &mut table).unwrap();
    }
    assert!(table.len() > 0);
    assert_eq!(solve(&game, &mut table).unwrap(), fresh);
    assert_eq!(solve(&game, &mut table).unwrap(), fresh);
}

#[test]
fn table_holds_bounds_after_solving() {
    let game = Pile::new(6, 2, false);
    let mut table = HashTable::new();
    assert_eq!(table.len(), 0);
    solve(&game, &mut table).unwrap();
    assert!(table.len() > 0);
    let stored = table.get(&game);
    if let Some(TranspositionTableScore::UpperBound(x)) = stored {
        assert!(solved(&game) <= x);
    }
    if let Some(TranspositionTableScore::LowerBound(x)) = stored {
        assert!(solved(&game) >= x);
    }
}

#[test]
fn normal_terminal_state_is_previous_mover_win() {
    let game = after(&after(&Pile::new(2, 1, false), 1), 1);
    assert_eq!(game.move_count(), 2);
    assert!(StateType::Normal.state(&game) == GameState::Win(ZeroSumPlayer::Two));
    assert!(game.state() == GameState::Win(ZeroSumPlayer::Two));
}

#[test]
fn misere_terminal_state_is_current_mover_win() {
    let game = after(&after(&Pile::new(2, 1, true), 1), 1);
    assert!(StateType::Misere.state(&game) == GameState::Win(ZeroSumPlayer::One));
    assert!(game.state() == GameState::Win(ZeroSumPlayer::One));
}

#[test]
fn state_is_playable_with_moves_left() {
    let game = Pile::new(2, 1, false);
    assert!(StateType::Normal.state(&game) == GameState::Playable);
    assert!(StateType::Misere.state(&game) == GameState::Playable);
}

#[test]
fn outcome_round_trip() {
    let game = after(&Pile::new(10, 2, false), 2);
    let ub = upper_bound(&game);
    let mc = game.move_count() as isize;
    for score in -(ub - mc)..=(ub - mc) {
        match score_to_outcome(&game, score) {
            GameScoreOutcome::Win(n) => assert_eq!(ub - n as isize - mc, score),
            GameScoreOutcome::Loss(n) => assert_eq!(n as isize - ub + mc, score),
            GameScoreOutcome::Tie => assert_eq!(score, 0),
        }
    }
}

#[test]
fn outcome_exact_values() {
    let game = Pile::new(7, 1, false);
    assert!(score_to_outcome(&game, 0) == GameScoreOutcome::Tie);
    assert!(score_to_outcome(&game, 5) == GameScoreOutcome::Win(2));
    assert!(score_to_outcome(&game, -6) == GameScoreOutcome::Loss(1));
}

#[test]
fn upper_bound_is_max_moves() {
    assert_eq!(upper_bound(&Pile::new(5, 2, false)), 5);
    assert_eq!(upper_bound(&after(&Pile::new(5, 2, false), 2)), 5);
}

#[test]
fn immediate_win_is_found() {
    let game = Pile::new(3, 3, false);
    let found = game.find_immediately_resolvable_game().unwrap().unwrap();
    assert!(found.state() == GameState::Win(ZeroSumPlayer::One));
    assert_eq!(found.tokens(), 0);
}

#[test]
fn immediate_loss_is_last_resort() {
    // misère: taking the last token hands the win to the opponent
    let game = Pile::new(1, 1, true);
    let found = game.find_immediately_resolvable_game().unwrap().unwrap();
    assert!(found.state() == GameState::Win(ZeroSumPlayer::Two));
}

#[test]
fn nothing_resolvable_in_one_move() {
    let game = Pile::new(5, 3, false);
    assert!(game.find_immediately_resolvable_game().unwrap().is_none());
}

#[test]
fn illegal_take_is_refused() {
    let mut game = Pile::new(2, 1, false);
    assert_eq!(game.make_move(&2), Err(PileError::IllegalTake));
    assert_eq!(game.make_move(&0), Err(PileError::IllegalTake));
    assert_eq!(game.tokens(), 2);
    assert_eq!(game.make_move(&1), Ok(()));
    assert_eq!(game.tokens(), 1);
}

#[test]
fn possible_moves_lists_each_take() {
    assert_eq!(Pile::new(5, 3, false).possible_moves(), vec![1u8, 2, 3]);
    assert_eq!(Pile::new(2, 3, false).possible_moves(), vec![1u8, 2]);
    assert!(Pile::new(0, 3, false).possible_moves().is_empty());
}

#[test]
fn players_alternate() {
    let game = Pile::new(4, 1, false);
    assert_eq!(game.player(), ZeroSumPlayer::One);
    assert_eq!(after(&game, 1).player(), ZeroSumPlayer::Two);
    assert_eq!(ZeroSumPlayer::One.next(), ZeroSumPlayer::Two);
    assert_eq!(ZeroSumPlayer::Two.previous(), ZeroSumPlayer::One);
}

#[test]
fn keys_distinguish_positions() {
    let a = Pile::new(4, 2, false);
    let b = Pile::new(4, 2, true);
    let c = after(&a, 1);
    assert_ne!(a.key(), b.key());
    assert_ne!(a.key(), c.key());
    assert_eq!(a.key(), a.duplicate().key());
}
