//! A subtraction game on one pile of tokens: the players alternately take
//! between one and `max_take` tokens. Under normal play the player left
//! without a move loses; under misère play that player wins.
use vstd::prelude::*;
use crate::game::{
    Game, GameScoreOutcome, GameState, ZeroSumPlayer, accepts_all, best, child, remaining,
    spec_outcome, value,
};

verus! {

/// A position of the one-pile subtraction game.
#[derive(Clone, Copy, PartialEq, Eq, Debug, Hash)]
pub struct Pile {
    start: u8,
    tokens: u8,
    max_take: u8,
    move_count: u8,
    misere: bool,
}

/// The error of a take that the rules forbid.
#[derive(Clone, Copy, PartialEq, Eq, Debug, Hash)]
pub enum PileError {
    IllegalTake,
}

impl Pile {
    /// The tokens left on the pile.
    pub closed spec fn spec_tokens(self) -> nat {
        self.tokens as nat
    }

    /// The most tokens a move may take.
    pub closed spec fn spec_max_take(self) -> nat {
        self.max_take as nat
    }

    /// Whether the misère convention applies.
    pub closed spec fn spec_misere(self) -> bool {
        self.misere
    }

    /// A fresh game with `tokens` tokens, of which a move takes one to `max_take`.
    pub closed spec fn spec_new(tokens: u8, max_take: u8, misere: bool) -> Pile {
        Pile { start: tokens, tokens, max_take, move_count: 0, misere }
    }

    /// A fresh game with `tokens` tokens, of which a move takes one to `max_take`.
    pub fn new(tokens: u8, max_take: u8, misere: bool) -> (r: Pile)
        requires
            max_take >= 1,
        ensures
            r == Pile::spec_new(tokens, max_take, misere),
            r.wf(),
            r.spec_tokens() == tokens,
            r.spec_max_take() == max_take,
            r.spec_misere() == misere,
            r.spec_move_count() == 0,
            r.spec_max_moves() == Some(tokens as usize),
    {
        Pile { start: tokens, tokens, max_take, move_count: 0, misere }
    }

    /// The tokens left on the pile.
    pub fn tokens(&self) -> (r: u8)
        ensures
            r == self.spec_tokens(),
    {
        self.tokens
    }

    /// How many tokens the current player may take at most.
    pub closed spec fn spec_limit(self) -> nat {
        if self.tokens < self.max_take {
            self.tokens as nat
        } else {
            self.max_take as nat
        }
    }
}

/// Every legal take is accepted, at every position reachable from a
/// well-formed one: solving a pile never fails.
pub proof fn lemma_pile_accepts_all(p: Pile)
    requires
        p.wf(),
    ensures
        accepts_all(p),
    decreases remaining(p),
{
    assert forall|i: int|
        #![trigger p.spec_moves()[i]]
        0 <= i < p.spec_moves().len() implies !p.spec_rejects(p.spec_moves()[i]) && (0 <= remaining(
            child(p, i),
        ) < remaining(p) ==> accepts_all(child(p, i))) by {
        assert(p.spec_moves()[i] == (i + 1) as u8);
        p.lemma_move(i);
        if 0 <= remaining(child(p, i)) < remaining(p) {
            lemma_pile_accepts_all(child(p, i));
        }
    }
}

/// Three tokens, one taken per move, normal play: the player to move wins,
/// two moves before the winning one; after one move the player to move
/// loses, one move before the opponent's winning move.
pub proof fn lemma_three_single_tokens()
    ensures
        value(Pile::spec_new(3, 1, false)) == 1,
        spec_outcome(Pile::spec_new(3, 1, false), 1) == GameScoreOutcome::Win(2),
        value(Pile::spec_new(3, 1, false).spec_after(1)) == -1,
        spec_outcome(Pile::spec_new(3, 1, false).spec_after(1), -1) == GameScoreOutcome::Loss(1),
{
    let p0 = Pile::spec_new(3, 1, false);
    let p1 = p0.spec_after(1);
    let p2 = p1.spec_after(1);
    let p3 = p2.spec_after(1);
    assert(p3.spec_moves().len() == 0);
    assert(value(p3) == -1);
    assert(p2.spec_moves()[0] == 1u8);
    assert(child(p2, 0) == p3);
    assert(best(p2, 0) == -2);
    assert(value(p2) == best(p2, 1));
    assert(value(p2) == 1);
    assert(p1.spec_moves()[0] == 1u8);
    assert(child(p1, 0) == p2);
    assert(best(p1, 0) == -3);
    assert(value(p1) == -1);
    assert(p0.spec_moves()[0] == 1u8);
    assert(child(p0, 0) == p1);
    assert(best(p0, 0) == -4);
    assert(value(p0) == 1);
}

impl Game for Pile {
    type Move = u8;

    type MoveError = PileError;

    closed spec fn wf(&self) -> bool {
        &&& self.max_take >= 1
        &&& self.move_count + self.tokens <= self.start
    }

    closed spec fn spec_move_count(&self) -> nat {
        self.move_count as nat
    }

    closed spec fn spec_max_moves(&self) -> Option<usize> {
        Some(self.start as usize)
    }

    closed spec fn spec_moves(&self) -> Seq<u8> {
        Seq::new(self.spec_limit(), |i: int| (i + 1) as u8)
    }

    closed spec fn spec_after(&self, m: u8) -> Pile {
        Pile { tokens: (self.tokens - m) as u8, move_count: (self.move_count + 1) as u8, ..*self }
    }

    closed spec fn spec_rejects(&self, m: u8) -> bool {
        !(1 <= m && m <= self.max_take && m <= self.tokens && self.move_count < 255)
    }

    closed spec fn spec_state(&self) -> GameState<ZeroSumPlayer> {
        if self.spec_limit() == 0 {
            GameState::Win(
                if self.misere {
                    self.spec_player()
                } else {
                    self.spec_player().spec_other()
                },
            )
        } else {
            GameState::Playable
        }
    }

    closed spec fn spec_player(&self) -> ZeroSumPlayer {
        if self.move_count % 2 == 0 {
            ZeroSumPlayer::One
        } else {
            ZeroSumPlayer::Two
        }
    }

    closed spec fn spec_key(&self) -> u64 {
        (self.tokens as u64) | ((self.max_take as u64) << 8u64) | ((self.move_count as u64) << 16u64)
            | ((self.start as u64) << 24u64) | ((if self.misere {
            1u64
        } else {
            0u64
        }) << 32u64)
    }

    fn move_count(&self) -> (r: usize) {
        self.move_count as usize
    }

    fn max_moves(&self) -> (r: Option<usize>) {
        Some(self.start as usize)
    }

    fn make_move(&mut self, m: &u8) -> (r: Result<(), PileError>) {
        if *m >= 1 && *m <= self.max_take && *m <= self.tokens && self.move_count < 255 {
            self.tokens = self.tokens - *m;
            self.move_count = self.move_count + 1;
            Ok(())
        } else {
            Err(PileError::IllegalTake)
        }
    }

    fn possible_moves(&self) -> (r: Vec<u8>) {
        let limit = if self.tokens < self.max_take {
            self.tokens
        } else {
            self.max_take
        };
        let mut v: Vec<u8> = Vec::new();
        let mut k: u8 = 0;
        while k < limit
            invariant
                limit == self.spec_limit(),
                k <= limit,
                v@ =~= Seq::new(k as nat, |i: int| (i + 1) as u8),
            decreases limit - k,
        {
            v.push(k + 1);
            k += 1;
        }
        v
    }

    fn state(&self) -> (r: GameState<ZeroSumPlayer>) {
        if self.tokens > 0 && self.max_take > 0 {
            GameState::Playable
        } else if self.misere {
            GameState::Win(self.player())
        } else {
            GameState::Win(self.player().previous())
        }
    }

    fn player(&self) -> (r: ZeroSumPlayer) {
        if self.move_count % 2 == 0 {
            ZeroSumPlayer::One
        } else {
            ZeroSumPlayer::Two
        }
    }

    fn key(&self) -> (r: u64) {
        (self.tokens as u64) | ((self.max_take as u64) << 8u64) | ((self.move_count as u64) << 16u64)
            | ((self.start as u64) << 24u64) | ((if self.misere {
            1u64
        } else {
            0u64
        }) << 32u64)
    }

    fn duplicate(&self) -> (r: Pile) {
        *self
    }

    proof fn lemma_position(&self) {
    }

    proof fn lemma_move(&self, i: int) {
    }

    proof fn lemma_key(a: Pile, b: Pile) {
        let (t1, m1, c1, s1) = (a.tokens as u64, a.max_take as u64, a.move_count as u64, a.start as u64);
        let (t2, m2, c2, s2) = (b.tokens as u64, b.max_take as u64, b.move_count as u64, b.start as u64);
        let f1: u64 = if a.misere { 1 } else { 0 };
        let f2: u64 = if b.misere { 1 } else { 0 };
        assert(t1 < 256 && m1 < 256 && c1 < 256 && s1 < 256 && f1 < 2 && t2 < 256 && m2 < 256 && c2
            < 256 && s2 < 256 && f2 < 2 && (t1 | (m1 << 8u64) | (c1 << 16u64) | (s1 << 24u64) | (f1
            << 32u64)) == (t2 | (m2 << 8u64) | (c2 << 16u64) | (s2 << 24u64) | (f2 << 32u64)) ==> t1
            == t2 && m1 == m2 && c1 == c2 && s1 == s2 && f1 == f2) by (bit_vector);
    }
}

} // verus!
