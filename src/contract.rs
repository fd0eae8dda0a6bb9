//! The game contract's state: the admin, the verification key and the
//! table of matches by session identifier, with the operations on it.

use std::collections::HashMap;
use vstd::prelude::*;
use crate::game::{
    game_wf, is_new_game, join_spec, join_step, lemma_new_game_wf, lemma_steps_move_forward,
    new_game, reveal_spec, reveal_step, settle_check, settle_check_spec, settle_spec, settle_step,
};
use crate::types::{Error, Game, PlayerId, PublicInputs, VerificationKey, PHASE_CREATED};

verus! {

broadcast use vstd::std_specs::hash::group_hash_axioms;

/// What `create` does to the table of matches: on an occupied session it
/// fails with `GameAlreadyExists` and changes nothing; on a free one it adds a
/// new match there and leaves the others as they were.
pub open spec fn create_outcome(
    before: Map<u32, Game>,
    after: Map<u32, Game>,
    session_id: u32,
    player1: PlayerId,
    seed_commit1: [u8; 32],
    r: Result<(), Error>,
) -> bool {
    &&& before.contains_key(session_id) ==> r == Err::<(), Error>(Error::GameAlreadyExists) && after == before
    &&& !before.contains_key(session_id) ==> {
        &&& r is Ok
        &&& after.dom() == before.dom().insert(session_id)
        &&& is_new_game(after[session_id], player1, seed_commit1)
        &&& forall|s: u32| s != session_id && #[trigger] before.contains_key(s) ==> after[s] == before[s]
    }
}

/// A fresh session, once created, holds a match in phase Created with no
/// winner and with player2 standing in as player1.
pub proof fn lemma_create_fresh(
    before: Map<u32, Game>,
    after: Map<u32, Game>,
    session_id: u32,
    player1: PlayerId,
    seed_commit1: [u8; 32],
    r: Result<(), Error>,
)
    requires
        !before.contains_key(session_id),
        create_outcome(before, after, session_id, player1, seed_commit1, r),
    ensures
        r is Ok,
        after.contains_key(session_id),
        after[session_id].phase == PHASE_CREATED,
        after[session_id].winner == 0,
        after[session_id].player1@ == player1@,
        after[session_id].player2@ == after[session_id].player1@,
{
}

/// Creating on an occupied session fails with `GameAlreadyExists` and
/// leaves every match, the one there included, as it was.
pub proof fn lemma_create_occupied(
    before: Map<u32, Game>,
    after: Map<u32, Game>,
    session_id: u32,
    player1: PlayerId,
    seed_commit1: [u8; 32],
    r: Result<(), Error>,
)
    requires
        before.contains_key(session_id),
        create_outcome(before, after, session_id, player1, seed_commit1, r),
    ensures
        r == Err::<(), Error>(Error::GameAlreadyExists),
        after == before,
        after[session_id] == before[session_id],
{
}

/// The game's state: who may set the key, the key once set, and every match
/// by session identifier.
pub struct PirateCardsContract {
    admin: PlayerId,
    games: HashMap<u32, Game>,
    vk: Option<VerificationKey>,
}

impl PirateCardsContract {
    /// The matches on record, by session identifier.
    pub closed spec fn games(&self) -> Map<u32, Game> {
        self.games@
    }

    /// Every match on record is well-formed.
    pub open spec fn wf(&self) -> bool {
        forall|s: u32| #[trigger] self.games().contains_key(s) ==> game_wf(self.games()[s])
    }

    /// The verification key, once the admin has set one.
    pub closed spec fn key(&self) -> Option<VerificationKey> {
        self.vk
    }

    /// The identity allowed to set the verification key.
    pub closed spec fn admin_id(&self) -> PlayerId {
        self.admin
    }

    /// A contract with no matches and no verification key.
    pub fn new(admin: PlayerId) -> (r: Self)
        ensures
            r.games() == Map::<u32, Game>::empty(),
            r.wf(),
            r.key() is None,
            r.admin_id() == admin,
    {
        PirateCardsContract { admin, games: HashMap::new(), vk: None }
    }

    /// The identity allowed to set the verification key.
    pub fn admin(&self) -> (r: PlayerId)
        ensures
            r == self.admin_id(),
    {
        self.admin
    }

    /// Replaces the verification key; the matches are untouched.
    pub fn set_vk(&mut self, vk: VerificationKey)
        requires
            old(self).wf(),
        ensures
            final(self).wf(),
            final(self).key() == Some(vk),
            final(self).games() == old(self).games(),
            final(self).admin_id() == old(self).admin_id(),
    {
        self.vk = Some(vk);
        assert(self.games() == old(self).games());
    }

    /// The verification key, once set.
    pub fn get_vk(&self) -> (r: Option<&VerificationKey>)
        ensures
            r == match self.key() {
                Some(k) => Some(&k),
                None => None::<&VerificationKey>,
            },
    {
        match &self.vk {
            Some(k) => Some(k),
            None => None,
        }
    }

    /// Whether a verification key has been set.
    pub fn has_vk(&self) -> (r: bool)
        ensures
            r == self.key() is Some,
    {
        self.vk.is_some()
    }

    /// The match of `session_id`, if there is one.
    pub fn get_game(&self, session_id: u32) -> (r: Option<Game>)
        ensures
            r == if self.games().contains_key(session_id) {
                Some(self.games()[session_id])
            } else {
                None
            },
    {
        match self.games.get(&session_id) {
            Some(g) => Some(*g),
            None => None,
        }
    }

    /// Opens a match under a fresh session identifier.
    pub fn create_game(&mut self, session_id: u32, player1: PlayerId, seed_commit1: [u8; 32]) -> (r: Result<(), Error>)
        requires
            old(self).wf(),
        ensures
            final(self).wf(),
            final(self).key() == old(self).key(),
            final(self).admin_id() == old(self).admin_id(),
            create_outcome(old(self).games(), final(self).games(), session_id, player1, seed_commit1, r),
    {
        if self.games.contains_key(&session_id) {
            return Err(Error::GameAlreadyExists);
        }
        let g = new_game(player1, seed_commit1);
        proof {
            lemma_new_game_wf(g, player1, seed_commit1);
        }
        self.games.insert(session_id, g);
        assert forall|s: u32| #[trigger] self.games().contains_key(s) implies game_wf(self.games()[s]) by {
            if s != session_id {
                assert(old(self).games().contains_key(s));
            }
        }
        Ok(())
    }

    /// Player2 joins the match of `session_id`.
    pub fn join_game(&mut self, session_id: u32, player2: PlayerId, seed_commit2: [u8; 32]) -> (r: Result<(), Error>)
        requires
            old(self).wf(),
        ensures
            final(self).wf(),
            final(self).key() == old(self).key(),
            final(self).admin_id() == old(self).admin_id(),
            !old(self).games().contains_key(session_id) ==> r == Err::<(), Error>(Error::GameNotFound)
                && final(self).games() == old(self).games(),
            old(self).games().contains_key(session_id) ==> match join_spec(old(self).games()[session_id], player2, seed_commit2) {
                Ok(g) => r is Ok && final(self).games() == old(self).games().insert(session_id, g),
                Err(e) => r == Err::<(), Error>(e) && final(self).games() == old(self).games(),
            },
    {
        let g = match self.games.get(&session_id) {
            Some(g) => *g,
            None => return Err(Error::GameNotFound),
        };
        proof {
            lemma_steps_move_forward(g, player2, seed_commit2, false, 0, arbitrary(), false);
        }
        match join_step(&g, player2, seed_commit2) {
            Ok(next) => {
                self.games.insert(session_id, next);
                Ok(())
            },
            Err(e) => Err(e),
        }
    }

    /// `player` reveals their seed in the match of `session_id`.
    pub fn reveal_seed(&mut self, session_id: u32, player: PlayerId, seed: [u8; 32]) -> (r: Result<(), Error>)
        requires
            old(self).wf(),
        ensures
            final(self).wf(),
            final(self).key() == old(self).key(),
            final(self).admin_id() == old(self).admin_id(),
            !old(self).games().contains_key(session_id) ==> r == Err::<(), Error>(Error::GameNotFound)
                && final(self).games() == old(self).games(),
            old(self).games().contains_key(session_id) ==> match reveal_spec(old(self).games()[session_id], player, seed) {
                Ok(g) => r is Ok && final(self).games() == old(self).games().insert(session_id, g),
                Err(e) => r == Err::<(), Error>(e) && final(self).games() == old(self).games(),
            },
    {
        let g = match self.games.get(&session_id) {
            Some(g) => *g,
            None => return Err(Error::GameNotFound),
        };
        proof {
            lemma_steps_move_forward(g, player, seed, false, 0, arbitrary(), false);
        }
        match reveal_step(&g, player, seed) {
            Ok(next) => {
                self.games.insert(session_id, next);
                Ok(())
            },
            Err(e) => Err(e),
        }
    }

    /// The checks of settlement that come before the proof, on the match of
    /// `session_id`; on success, whether player1 won.
    pub fn check_settlement(&self, session_id: u32, inputs: &PublicInputs) -> (r: Result<bool, Error>)
        ensures
            !self.games().contains_key(session_id) ==> r == Err::<bool, Error>(Error::GameNotFound),
            self.games().contains_key(session_id) ==> r == settle_check_spec(
                self.games()[session_id], self.key() is Some, session_id, *inputs),
    {
        match self.games.get(&session_id) {
            Some(g) => settle_check(g, self.vk.is_some(), session_id, inputs),
            None => Err(Error::GameNotFound),
        }
    }

    /// Settles the match of `session_id`, `proof_ok` saying whether its proof
    /// passed the pairing check; returns the winner.
    pub fn settle_game(&mut self, session_id: u32, inputs: &PublicInputs, proof_ok: bool) -> (r: Result<PlayerId, Error>)
        requires
            old(self).wf(),
        ensures
            final(self).wf(),
            final(self).key() == old(self).key(),
            final(self).admin_id() == old(self).admin_id(),
            !old(self).games().contains_key(session_id) ==> r == Err::<PlayerId, Error>(Error::GameNotFound)
                && final(self).games() == old(self).games(),
            old(self).games().contains_key(session_id) ==> match settle_spec(
                old(self).games()[session_id], old(self).key() is Some, session_id, *inputs, proof_ok) {
                Ok((g, w)) => r == Ok::<PlayerId, Error>(w) && final(self).games() == old(self).games().insert(session_id, g),
                Err(e) => r == Err::<PlayerId, Error>(e) && final(self).games() == old(self).games(),
            },
    {
        let g = match self.games.get(&session_id) {
            Some(g) => *g,
            None => return Err(Error::GameNotFound),
        };
        proof {
            lemma_steps_move_forward(g, g.player1, g.seed1, self.vk.is_some(), session_id, *inputs, proof_ok);
        }
        match settle_step(&g, self.vk.is_some(), session_id, inputs, proof_ok) {
            Ok((next, winner)) => {
                self.games.insert(session_id, next);
                Ok(winner)
            },
            Err(e) => Err(e),
        }
    }
}

} // verus!
