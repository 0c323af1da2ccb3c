//! Transposition tables: stores of proven bounds on game values.
use vstd::prelude::*;
use std::collections::HashMap;
use std::marker::PhantomData;
use crate::game::{Game, value};

verus! {

broadcast use vstd::std_specs::hash::group_hash_axioms;

/// A proven bound on the value of a position.
#[derive(Clone, Copy, PartialEq, Eq, Debug, Hash)]
pub enum TranspositionTableScore {
    /// The value is at most this score.
    UpperBound(isize),
    /// The value is at least this score.
    LowerBound(isize),
}

/// The bound `s` holds of the value of `g`.
pub open spec fn bound_holds<G: Game>(g: G, s: TranspositionTableScore) -> bool {
    match s {
        TranspositionTableScore::UpperBound(x) => value(g) <= x,
        TranspositionTableScore::LowerBound(x) => value(g) >= x,
    }
}

/// A memo store from positions to proven bounds, keyed by the positions' keys.
///
/// Only sound bounds go in, so whatever comes out is sound.
pub trait TranspositionTable<G: Game> {
    /// The stored bounds, by position key.
    spec fn spec_view(&self) -> Map<u64, TranspositionTableScore>;

    /// The stored bound for `game`, if any.
    fn get(&self, game: &G) -> (r: Option<TranspositionTableScore>)
        requires
            game.wf(),
        ensures
            r == (if self.spec_view().contains_key(game.spec_key()) {
                Some(self.spec_view()[game.spec_key()])
            } else {
                None
            }),
            r matches Some(s) ==> bound_holds(*game, s),
    ;

    /// Records a bound proven for `game`, replacing the one stored for it.
    fn insert(&mut self, game: G, score: TranspositionTableScore)
        requires
            game.wf(),
            bound_holds(game, score),
        ensures
            final(self).spec_view() == old(self).spec_view().insert(game.spec_key(), score),
    ;
}

/// A transposition table on a `HashMap`, keyed by the positions' keys.
pub struct HashTable<G: Game> {
    map: HashMap<u64, TranspositionTableScore>,
    marker: PhantomData<G>,
}

impl<G: Game> HashTable<G> {
    /// Every stored bound holds of each position with that key.
    #[verifier::type_invariant]
    spec fn sound(self) -> bool {
        forall|g: G|
            g.wf() && #[trigger] self.map@.contains_key(g.spec_key()) ==> bound_holds(
                g,
                self.map@[g.spec_key()],
            )
    }

    /// An empty table.
    pub fn new() -> (r: Self)
        ensures
            r.spec_view() == Map::<u64, TranspositionTableScore>::empty(),
    {
        HashTable { map: HashMap::new(), marker: PhantomData }
    }

    /// The number of stored bounds.
    pub fn len(&self) -> (r: usize)
        ensures
            r == self.spec_view().len(),
    {
        self.map.len()
    }
}

impl<G: Game> TranspositionTable<G> for HashTable<G> {
    closed spec fn spec_view(&self) -> Map<u64, TranspositionTableScore> {
        self.map@
    }

    fn get(&self, game: &G) -> (r: Option<TranspositionTableScore>) {
        proof {
            use_type_invariant(self);
        }
        let k = game.key();
        match self.map.get(&k) {
            Some(s) => Some(*s),
            None => None,
        }
    }

    fn insert(&mut self, game: G, score: TranspositionTableScore) {
        proof {
            use_type_invariant(&*self);
        }
        let k = game.key();
        proof {
            assert forall|g: G|
                g.wf() && #[trigger] self.map@.insert(k, score).contains_key(
                    g.spec_key(),
                ) implies bound_holds(
                g,
                self.map@.insert(k, score)[g.spec_key()],
            ) by {
                if g.spec_key() == k {
                    G::lemma_key(g, game);
                }
            }
        }
        let mut taken = HashTable::new();
        std::mem::swap(self, &mut taken);
        let mut map = taken.map;
        map.insert(k, score);
        *self = HashTable { map, marker: PhantomData };
    }
}

} // verus!
