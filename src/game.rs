//! The life of one match: create, join, reveal and settle, each a pure step
//! from a match record to the next one or to an error.

use vstd::prelude::*;
use crate::field::{all_zero, is_zero32};
use crate::types::{Error, Game, PlayerId, PublicInputs, PHASE_CREATED, PHASE_JOINED, PHASE_REVEALED, PHASE_SETTLED};

verus! {

/// The 32-byte big-endian encoding of `v`, zero-padded in front.
pub open spec fn word32(v: u32) -> Seq<u8> {
    Seq::new(32, |i: int| if i < 28 { 0u8 } else { ((v >> ((31 - i) * 8) as u32) & 0xffu32) as u8 })
}

/// The record that `create` stores: player2 stands in as player1, nothing
/// else is committed or revealed yet.
pub open spec fn is_new_game(g: Game, player1: PlayerId, seed_commit1: [u8; 32]) -> bool {
    &&& g.player1@ == player1@
    &&& g.player2@ == player1@
    &&& g.seed_commit1@ == seed_commit1@
    &&& all_zero(g.seed_commit2@)
    &&& all_zero(g.seed1@)
    &&& all_zero(g.seed2@)
    &&& g.phase == PHASE_CREATED
    &&& g.winner == 0
}

/// A well-formed record: the phase is one of the four, and a winner is
/// named exactly when the match is settled.
pub open spec fn game_wf(g: Game) -> bool {
    &&& g.phase <= PHASE_SETTLED
    &&& g.phase < PHASE_SETTLED ==> g.winner == 0
    &&& g.phase == PHASE_SETTLED ==> (g.winner == 1 || g.winner == 2)
}

/// `after` is a later state of the match `before`: the phase has not gone
/// back, the players and player1's commitment are kept, and once joined so
/// is player2's commitment.
pub open spec fn moves_forward(before: Game, after: Game) -> bool {
    &&& after.phase >= before.phase
    &&& after.player1 == before.player1
    &&& after.seed_commit1 == before.seed_commit1
    &&& before.phase >= PHASE_JOINED ==> after.player2 == before.player2 && after.seed_commit2 == before.seed_commit2
}

/// The outcome of `join` on match `g`.
pub open spec fn join_spec(g: Game, player2: PlayerId, seed_commit2: [u8; 32]) -> Result<Game, Error> {
    if g.phase != PHASE_CREATED {
        Err(Error::InvalidState)
    } else if player2@ == g.player1@ {
        Err(Error::SelfPlay)
    } else {
        Ok(Game { player2, seed_commit2, phase: PHASE_JOINED, ..g })
    }
}

/// Moves a match on to Revealed once both seeds are non-zero.
pub open spec fn advance_if_revealed(g: Game) -> Game {
    if !all_zero(g.seed1@) && !all_zero(g.seed2@) {
        Game { phase: PHASE_REVEALED, ..g }
    } else {
        g
    }
}

/// The outcome of `reveal` by `player` on match `g`.
pub open spec fn reveal_spec(g: Game, player: PlayerId, seed: [u8; 32]) -> Result<Game, Error> {
    if g.phase < PHASE_JOINED || g.phase >= PHASE_REVEALED {
        Err(Error::InvalidState)
    } else if player@ == g.player1@ {
        if !all_zero(g.seed1@) {
            Err(Error::AlreadyRevealed)
        } else {
            Ok(advance_if_revealed(Game { seed1: seed, ..g }))
        }
    } else if player@ == g.player2@ {
        if !all_zero(g.seed2@) {
            Err(Error::AlreadyRevealed)
        } else {
            Ok(advance_if_revealed(Game { seed2: seed, ..g }))
        }
    } else {
        Err(Error::NotPlayer)
    }
}

/// The checks that `settle` makes before the proof, cheapest first: the
/// phase, the key, the public inputs against the record and the session, and
/// the winner code. On success, whether player1 won.
pub open spec fn settle_check_spec(g: Game, has_vk: bool, session_id: u32, inputs: PublicInputs) -> Result<bool, Error> {
    if g.phase < PHASE_REVEALED {
        Err(Error::SeedsNotRevealed)
    } else if g.phase >= PHASE_SETTLED {
        Err(Error::GameAlreadySettled)
    } else if !has_vk {
        Err(Error::NoVk)
    } else if inputs.seed_commit1@ != g.seed_commit1@ || inputs.seed_commit2@ != g.seed_commit2@
        || inputs.seed1@ != g.seed1@ || inputs.seed2@ != g.seed2@ {
        Err(Error::PublicInputMismatch)
    } else if inputs.session_id@ != word32(session_id) {
        Err(Error::PublicInputMismatch)
    } else if inputs.winner@ == word32(1) {
        Ok(true)
    } else if inputs.winner@ == word32(2) {
        Ok(false)
    } else {
        Err(Error::InvalidWinner)
    }
}

/// The outcome of `settle` on match `g`, where `proof_ok` says whether the
/// proof passed the pairing check: the settled record and the winner.
pub open spec fn settle_spec(g: Game, has_vk: bool, session_id: u32, inputs: PublicInputs, proof_ok: bool)
    -> Result<(Game, PlayerId), Error>
{
    match settle_check_spec(g, has_vk, session_id, inputs) {
        Err(e) => Err(e),
        Ok(player1_won) => if !proof_ok {
            Err(Error::InvalidProof)
        } else if player1_won {
            Ok((Game { winner: 1, phase: PHASE_SETTLED, ..g }, g.player1))
        } else {
            Ok((Game { winner: 2, phase: PHASE_SETTLED, ..g }, g.player2))
        },
    }
}

/// Whether two 32-byte values are equal.
pub fn eq32(a: &[u8; 32], b: &[u8; 32]) -> (r: bool)
    ensures
        r == (a@ == b@),
{
    let mut i: usize = 0;
    while i < 32
        invariant
            0 <= i <= 32,
            forall|k: int| 0 <= k < i ==> a[k] == b[k],
        decreases 32 - i,
    {
        if a[i] != b[i] {
            return false;
        }
        i = i + 1;
    }
    assert(a@ =~= b@);
    true
}

/// The 32-byte big-endian encoding of `v`.
pub fn word32_bytes(v: u32) -> (r: [u8; 32])
    ensures
        r@ == word32(v),
{
    let mut r: [u8; 32] = [0u8; 32];
    r[28] = ((v >> 24u32) & 0xffu32) as u8;
    r[29] = ((v >> 16u32) & 0xffu32) as u8;
    r[30] = ((v >> 8u32) & 0xffu32) as u8;
    r[31] = ((v >> 0u32) & 0xffu32) as u8;
    assert(r@ =~= word32(v));
    r
}

/// The record that `create` stores for a new match.
pub fn new_game(player1: PlayerId, seed_commit1: [u8; 32]) -> (g: Game)
    ensures
        is_new_game(g, player1, seed_commit1),
{
    let z: [u8; 32] = [0u8; 32];
    Game {
        player1,
        player2: player1,
        seed_commit1,
        seed_commit2: z,
        seed1: z,
        seed2: z,
        phase: PHASE_CREATED,
        winner: 0,
    }
}

/// Player2 joins the open match `g` with a commitment to their seed.
pub fn join_step(g: &Game, player2: PlayerId, seed_commit2: [u8; 32]) -> (r: Result<Game, Error>)
    ensures
        r == join_spec(*g, player2, seed_commit2),
{
    if g.phase != PHASE_CREATED {
        return Err(Error::InvalidState);
    }
    if eq32(&player2, &g.player1) {
        return Err(Error::SelfPlay);
    }
    Ok(Game { player2, seed_commit2, phase: PHASE_JOINED, ..*g })
}

fn advance(g: Game) -> (r: Game)
    ensures
        r == advance_if_revealed(g),
{
    if !is_zero32(&g.seed1) && !is_zero32(&g.seed2) {
        Game { phase: PHASE_REVEALED, ..g }
    } else {
        g
    }
}

/// `player` reveals their seed in match `g`.
pub fn reveal_step(g: &Game, player: PlayerId, seed: [u8; 32]) -> (r: Result<Game, Error>)
    ensures
        r == reveal_spec(*g, player, seed),
{
    if g.phase < PHASE_JOINED || g.phase >= PHASE_REVEALED {
        return Err(Error::InvalidState);
    }
    if eq32(&player, &g.player1) {
        if !is_zero32(&g.seed1) {
            return Err(Error::AlreadyRevealed);
        }
        Ok(advance(Game { seed1: seed, ..*g }))
    } else if eq32(&player, &g.player2) {
        if !is_zero32(&g.seed2) {
            return Err(Error::AlreadyRevealed);
        }
        Ok(advance(Game { seed2: seed, ..*g }))
    } else {
        Err(Error::NotPlayer)
    }
}

/// The checks of `settle` that come before the proof; on success, whether
/// player1 won.
pub fn settle_check(g: &Game, has_vk: bool, session_id: u32, inputs: &PublicInputs) -> (r: Result<bool, Error>)
    ensures
        r == settle_check_spec(*g, has_vk, session_id, *inputs),
{
    if g.phase < PHASE_REVEALED {
        return Err(Error::SeedsNotRevealed);
    }
    if g.phase >= PHASE_SETTLED {
        return Err(Error::GameAlreadySettled);
    }
    if !has_vk {
        return Err(Error::NoVk);
    }
    if !eq32(&inputs.seed_commit1, &g.seed_commit1) || !eq32(&inputs.seed_commit2, &g.seed_commit2)
        || !eq32(&inputs.seed1, &g.seed1) || !eq32(&inputs.seed2, &g.seed2) {
        return Err(Error::PublicInputMismatch);
    }
    let sid = word32_bytes(session_id);
    if !eq32(&inputs.session_id, &sid) {
        return Err(Error::PublicInputMismatch);
    }
    let w1 = word32_bytes(1);
    let w2 = word32_bytes(2);
    if eq32(&inputs.winner, &w1) {
        Ok(true)
    } else if eq32(&inputs.winner, &w2) {
        Ok(false)
    } else {
        Err(Error::InvalidWinner)
    }
}

/// Settles match `g` given whether its proof passed the pairing check:
/// the settled record and the winning player.
pub fn settle_step(g: &Game, has_vk: bool, session_id: u32, inputs: &PublicInputs, proof_ok: bool)
    -> (r: Result<(Game, PlayerId), Error>)
    ensures
        r == settle_spec(*g, has_vk, session_id, *inputs, proof_ok),
{
    let player1_won = match settle_check(g, has_vk, session_id, inputs) {
        Err(e) => return Err(e),
        Ok(w) => w,
    };
    if !proof_ok {
        return Err(Error::InvalidProof);
    }
    if player1_won {
        Ok((Game { winner: 1, phase: PHASE_SETTLED, ..*g }, g.player1))
    } else {
        Ok((Game { winner: 2, phase: PHASE_SETTLED, ..*g }, g.player2))
    }
}

/// Joining one's own open match fails with `SelfPlay`, whatever the commitment.
pub proof fn lemma_join_self_play(g: Game, player2: PlayerId, seed_commit2: [u8; 32])
    requires
        g.phase == PHASE_CREATED,
        player2@ == g.player1@,
    ensures
        join_spec(g, player2, seed_commit2) == Err::<Game, Error>(Error::SelfPlay),
{
}

/// Create, join, then both reveals, in either order: the match ends Revealed
/// holding both seeds. A seed of all zero bytes counts as unrevealed, so both
/// seeds are non-zero here.
pub proof fn lemma_happy_path(
    g: Game,
    player1: PlayerId,
    seed_commit1: [u8; 32],
    player2: PlayerId,
    seed_commit2: [u8; 32],
    seed1: [u8; 32],
    seed2: [u8; 32],
)
    requires
        is_new_game(g, player1, seed_commit1),
        player2@ != player1@,
        !all_zero(seed1@),
        !all_zero(seed2@),
    ensures
        join_spec(g, player2, seed_commit2) is Ok,
        ({
            let joined = join_spec(g, player2, seed_commit2)->Ok_0;
            let second_first = reveal_spec(joined, player2, seed2);
            let first_first = reveal_spec(joined, player1, seed1);
            &&& second_first is Ok
            &&& first_first is Ok
            &&& second_first->Ok_0.phase == PHASE_JOINED
            &&& first_first->Ok_0.phase == PHASE_JOINED
            &&& ({
                let a = reveal_spec(second_first->Ok_0, player1, seed1);
                let b = reveal_spec(first_first->Ok_0, player2, seed2);
                &&& a is Ok
                &&& b is Ok
                &&& a->Ok_0.phase == PHASE_REVEALED
                &&& b->Ok_0.phase == PHASE_REVEALED
                &&& a->Ok_0.seed1 == seed1 && a->Ok_0.seed2 == seed2
                &&& b->Ok_0.seed1 == seed1 && b->Ok_0.seed2 == seed2
                &&& a->Ok_0.seed_commit1 == seed_commit1 && a->Ok_0.seed_commit2 == seed_commit2
            })
        }),
{
}

/// A player who has revealed a non-zero seed cannot reveal again while the
/// other player's seed is still unrevealed: the second try fails with
/// `AlreadyRevealed`.
pub proof fn lemma_double_reveal(g: Game, player: PlayerId, seed: [u8; 32], again: [u8; 32])
    requires
        reveal_spec(g, player, seed) is Ok,
        !all_zero(seed@),
        player@ == g.player1@ ==> all_zero(g.seed2@),
        player@ != g.player1@ ==> all_zero(g.seed1@),
    ensures
        reveal_spec(reveal_spec(g, player, seed)->Ok_0, player, again) == Err::<Game, Error>(Error::AlreadyRevealed),
{
}

/// In a joined match, a reveal by anyone but the two players fails with
/// `NotPlayer`.
pub proof fn lemma_reveal_outsider(g: Game, player: PlayerId, seed: [u8; 32])
    requires
        g.phase == PHASE_JOINED,
        player@ != g.player1@,
        player@ != g.player2@,
    ensures
        reveal_spec(g, player, seed) == Err::<Game, Error>(Error::NotPlayer),
{
}

/// Settling before both seeds are revealed fails with `SeedsNotRevealed`;
/// settling a match that has been settled fails with `GameAlreadySettled`.
pub proof fn lemma_settle_order(
    g: Game,
    has_vk: bool,
    session_id: u32,
    inputs: PublicInputs,
    proof_ok: bool,
    inputs2: PublicInputs,
    proof_ok2: bool,
)
    ensures
        g.phase < PHASE_REVEALED ==> settle_spec(g, has_vk, session_id, inputs, proof_ok)
            == Err::<(Game, PlayerId), Error>(Error::SeedsNotRevealed),
        settle_spec(g, has_vk, session_id, inputs, proof_ok) is Ok ==> settle_spec(
            settle_spec(g, has_vk, session_id, inputs, proof_ok)->Ok_0.0, has_vk, session_id, inputs2, proof_ok2)
            == Err::<(Game, PlayerId), Error>(Error::GameAlreadySettled),
{
}

/// When every check before the proof passes but the proof fails the pairing
/// check, settling fails with `InvalidProof`, and the match, left as it was,
/// is still Revealed.
pub proof fn lemma_settle_bad_proof(g: Game, has_vk: bool, session_id: u32, inputs: PublicInputs)
    requires
        settle_check_spec(g, has_vk, session_id, inputs) is Ok,
    ensures
        settle_spec(g, has_vk, session_id, inputs, false) == Err::<(Game, PlayerId), Error>(Error::InvalidProof),
        g.phase == PHASE_REVEALED,
{
}

/// Every step keeps a record well-formed and only moves it forward: no
/// transition goes back, and commitments are fixed once the match is joined.
pub proof fn lemma_steps_move_forward(
    g: Game,
    player: PlayerId,
    bytes: [u8; 32],
    has_vk: bool,
    session_id: u32,
    inputs: PublicInputs,
    proof_ok: bool,
)
    requires
        game_wf(g),
    ensures
        join_spec(g, player, bytes) is Ok ==> game_wf(join_spec(g, player, bytes)->Ok_0)
            && moves_forward(g, join_spec(g, player, bytes)->Ok_0),
        reveal_spec(g, player, bytes) is Ok ==> game_wf(reveal_spec(g, player, bytes)->Ok_0)
            && moves_forward(g, reveal_spec(g, player, bytes)->Ok_0),
        settle_spec(g, has_vk, session_id, inputs, proof_ok) is Ok ==> game_wf(
            settle_spec(g, has_vk, session_id, inputs, proof_ok)->Ok_0.0)
            && moves_forward(g, settle_spec(g, has_vk, session_id, inputs, proof_ok)->Ok_0.0),
{
}

/// A new record is well-formed.
pub proof fn lemma_new_game_wf(g: Game, player1: PlayerId, seed_commit1: [u8; 32])
    requires
        is_new_game(g, player1, seed_commit1),
    ensures
        game_wf(g),
{
}

} // verus!
