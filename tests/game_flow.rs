use pirate_cards::contract::PirateCardsContract;
use pirate_cards::types::{
    Error, Game, PlayerId, PublicInputs, VerificationKey, PHASE_CREATED,
    PHASE_JOINED, PHASE_REVEALED, PHASE_SETTLED,
};

fn setup() -> (PirateCardsContract, PlayerId, PlayerId) {
    let admin = [9u8; 32];
    let contract = PirateCardsContract::new(admin);
    (contract, [1u8; 32], [2u8; 32])
}

fn fake_commit(val: u8) -> [u8; 32] {
    let mut arr = [0u8; 32];
    arr[31] = val;
    arr
}

fn some_vk() -> VerificationKey {
    VerificationKey {
        alpha_g1: [0u8; 64],
        beta_g2: [0u8; 128],
        gamma_g2: [0u8; 128],
        delta_g2: [0u8; 128],
        ic: vec![[0u8; 64]; 7],
    }
}

/// Creates session 1, joins it and reveals both seeds.
fn revealed_match() -> (PirateCardsContract, PlayerId, PlayerId) {
    let (mut c, p1, p2) = setup();
    c.create_game(1, p1, fake_commit(0xAA)).unwrap();
    c.join_game(1, p2, fake_commit(0xBB)).unwrap();
    c.reveal_seed(1, p1, fake_commit(0x11)).unwrap();
    c.reveal_seed(1, p2, fake_commit(0x22)).unwrap();
    (c, p1, p2)
}

fn matching_inputs(winner: u8) -> PublicInputs {
    PublicInputs {
        seed_commit1: fake_commit(0xAA),
        seed_commit2: fake_commit(0xBB),
        seed1: fake_commit(0x11),
        seed2: fake_commit(0x22),
        session_id: fake_commit(1),
        winner: fake_commit(winner),
    }
}

#[test]
fn test_create_game() {
    let (mut client, p1, _) = setup();
    let commit1 = fake_commit(0xAA);
    client.create_game(1, p1, commit1).unwrap();

    let game: Game = client.get_game(1).unwrap();
    assert_eq!(game.player1, p1);
    assert_eq!(game.player2, p1);
    assert_eq!(game.seed_commit1, commit1);
    assert_eq!(game.phase, PHASE_CREATED);
    assert_eq!(game.winner, 0);
}

#[test]
fn test_self_play_rejected() {
    let (mut client, p1, _) = setup();
    client.create_game(1, p1, fake_commit(0xAA)).unwrap();
    let result = client.join_game(1, p1, fake_commit(0xBB));
    assert_eq!(result.err().unwrap(), Error::SelfPlay);
}

#[test]
fn test_duplicate_session_rejected() {
    let (mut client, p1, _) = setup();
    let commit1 = fake_commit(0xAA);
    client.create_game(1, p1, commit1).unwrap();
    let result = client.create_game(1, p1, commit1);
    assert_eq!(result.err().unwrap(), Error::GameAlreadyExists);
}

#[test]
fn test_join_game() {
    let (mut client, p1, p2) = setup();
    let commit2 = fake_commit(0xBB);
    client.create_game(1, p1, fake_commit(0xAA)).unwrap();
    client.join_game(1, p2, commit2).unwrap();

    let game = client.get_game(1).unwrap();
    assert_eq!(game.player2, p2);
    assert_eq!(game.seed_commit2, commit2);
    assert_eq!(game.phase, PHASE_JOINED);
}

#[test]
fn test_join_wrong_phase() {
    let (mut client, p1, p2) = setup();
    let commit2 = fake_commit(0xBB);
    client.create_game(1, p1, fake_commit(0xAA)).unwrap();
    client.join_game(1, p2, commit2).unwrap();

    let p3 = [3u8; 32];
    let result = client.join_game(1, p3, commit2);
    assert_eq!(result.err().unwrap(), Error::InvalidState);
}

#[test]
fn test_reveal_seed() {
    let (mut client, p1, p2) = setup();
    let seed1 = fake_commit(0x11);
    let seed2 = fake_commit(0x22);
    client.create_game(1, p1, fake_commit(0xAA)).unwrap();
    client.join_game(1, p2, fake_commit(0xBB)).unwrap();

    client.reveal_seed(1, p1, seed1).unwrap();
    let game = client.get_game(1).unwrap();
    assert_eq!(game.seed1, seed1);
    assert_eq!(game.phase, PHASE_JOINED);

    client.reveal_seed(1, p2, seed2).unwrap();
    let game = client.get_game(1).unwrap();
    assert_eq!(game.seed2, seed2);
    assert_eq!(game.phase, PHASE_REVEALED);
}

#[test]
fn test_reveal_before_join() {
    let (mut client, p1, _) = setup();
    client.create_game(1, p1, fake_commit(0xAA)).unwrap();
    let result = client.reveal_seed(1, p1, fake_commit(0x11));
    assert_eq!(result.err().unwrap(), Error::InvalidState);
}

#[test]
fn test_double_reveal_rejected() {
    let (mut client, p1, p2) = setup();
    let seed1 = fake_commit(0x11);
    client.create_game(1, p1, fake_commit(0xAA)).unwrap();
    client.join_game(1, p2, fake_commit(0xBB)).unwrap();
    client.reveal_seed(1, p1, seed1).unwrap();

    let result = client.reveal_seed(1, p1, seed1);
    assert_eq!(result.err().unwrap(), Error::AlreadyRevealed);
}

#[test]
fn test_non_player_reveal_rejected() {
    let (mut client, p1, p2) = setup();
    let outsider = [7u8; 32];
    client.create_game(1, p1, fake_commit(0xAA)).unwrap();
    client.join_game(1, p2, fake_commit(0xBB)).unwrap();

    let result = client.reveal_seed(1, outsider, fake_commit(0x99));
    assert_eq!(result.err().unwrap(), Error::NotPlayer);
}

#[test]
fn test_settle_before_reveals_rejected() {
    let (mut client, p1, p2) = setup();
    let commit1 = fake_commit(0xAA);
    let commit2 = fake_commit(0xBB);
    client.create_game(1, p1, commit1).unwrap();
    client.join_game(1, p2, commit2).unwrap();

    let fake_inputs = PublicInputs {
        seed_commit1: commit1,
        seed_commit2: commit2,
        seed1: fake_commit(0x11),
        seed2: fake_commit(0x22),
        session_id: fake_commit(1),
        winner: fake_commit(1),
    };
    let result = client.settle_game(1, &fake_inputs, false);
    assert_eq!(result.err().unwrap(), Error::SeedsNotRevealed);
}

#[test]
fn test_game_not_found() {
    let (client, _, _) = setup();
    let result = client.get_game(999);
    assert!(result.is_none());
}

#[test]
fn test_full_game_flow_until_settlement() {
    let (mut client, p1, p2) = setup();
    let commit1 = fake_commit(0xAA);
    let commit2 = fake_commit(0xBB);
    let seed1 = fake_commit(0x11);
    let seed2 = fake_commit(0x22);

    client.create_game(1, p1, commit1).unwrap();
    assert_eq!(client.get_game(1).unwrap().phase, PHASE_CREATED);

    client.join_game(1, p2, commit2).unwrap();
    let game = client.get_game(1).unwrap();
    assert_eq!(game.phase, PHASE_JOINED);
    assert_eq!(game.player2, p2);

    client.reveal_seed(1, p2, seed2).unwrap();
    assert_eq!(client.get_game(1).unwrap().phase, PHASE_JOINED);

    client.reveal_seed(1, p1, seed1).unwrap();
    assert_eq!(client.get_game(1).unwrap().phase, PHASE_REVEALED);

    let game = client.get_game(1).unwrap();
    assert_eq!(game.seed1, seed1);
    assert_eq!(game.seed2, seed2);
    assert_eq!(game.seed_commit1, commit1);
    assert_eq!(game.seed_commit2, commit2);
}

#[test]
fn duplicate_create_keeps_record() {
    let (mut c, p1, p2) = setup();
    c.create_game(5, p1, fake_commit(0xAA)).unwrap();
    assert_eq!(c.create_game(5, p2, fake_commit(0xCC)), Err(Error::GameAlreadyExists));
    let g = c.get_game(5).unwrap();
    assert_eq!(g.player1, p1);
    assert_eq!(g.seed_commit1, fake_commit(0xAA));
}

#[test]
fn join_missing_match() {
    let (mut c, _, p2) = setup();
    assert_eq!(c.join_game(3, p2, fake_commit(1)), Err(Error::GameNotFound));
    assert_eq!(c.reveal_seed(3, p2, fake_commit(1)), Err(Error::GameNotFound));
    assert_eq!(c.settle_game(3, &matching_inputs(1), true), Err(Error::GameNotFound));
}

#[test]
fn reveal_after_both_revealed_is_invalid_state() {
    let (mut c, p1, _) = revealed_match();
    assert_eq!(c.reveal_seed(1, p1, fake_commit(0x33)), Err(Error::InvalidState));
}

#[test]
fn settle_without_key() {
    let (mut c, _, _) = revealed_match();
    assert_eq!(c.check_settlement(1, &matching_inputs(1)), Err(Error::NoVk));
    assert_eq!(c.settle_game(1, &matching_inputs(1), true), Err(Error::NoVk));
}

#[test]
fn settle_input_mismatch() {
    let (mut c, _, _) = revealed_match();
    c.set_vk(some_vk());
    let mut wrong_seed = matching_inputs(1);
    wrong_seed.seed2 = fake_commit(0x23);
    assert_eq!(c.settle_game(1, &wrong_seed, true), Err(Error::PublicInputMismatch));
    let mut wrong_session = matching_inputs(1);
    wrong_session.session_id = fake_commit(2);
    assert_eq!(c.settle_game(1, &wrong_session, true), Err(Error::PublicInputMismatch));
    let mut high_byte = matching_inputs(1);
    high_byte.session_id[0] = 1;
    assert_eq!(c.settle_game(1, &high_byte, true), Err(Error::PublicInputMismatch));
}

#[test]
fn settle_invalid_winner_code() {
    let (mut c, _, _) = revealed_match();
    c.set_vk(some_vk());
    assert_eq!(c.settle_game(1, &matching_inputs(0), true), Err(Error::InvalidWinner));
    assert_eq!(c.settle_game(1, &matching_inputs(3), true), Err(Error::InvalidWinner));
    assert_eq!(c.get_game(1).unwrap().phase, PHASE_REVEALED);
}

#[test]
fn settle_bad_proof_keeps_revealed() {
    let (mut c, _, _) = revealed_match();
    c.set_vk(some_vk());
    assert_eq!(c.check_settlement(1, &matching_inputs(2), ), Ok(false));
    assert_eq!(c.settle_game(1, &matching_inputs(2), false), Err(Error::InvalidProof));
    let g = c.get_game(1).unwrap();
    assert_eq!(g.phase, PHASE_REVEALED);
    assert_eq!(g.winner, 0);
}

#[test]
fn settle_player2_wins_then_twice_rejected() {
    let (mut c, _, p2) = revealed_match();
    c.set_vk(some_vk());
    assert_eq!(c.settle_game(1, &matching_inputs(2), true), Ok(p2));
    let g = c.get_game(1).unwrap();
    assert_eq!(g.phase, PHASE_SETTLED);
    assert_eq!(g.winner, 2);
    assert_eq!(c.settle_game(1, &matching_inputs(2), true), Err(Error::GameAlreadySettled));
}

#[test]
fn settle_player1_wins() {
    let (mut c, p1, _) = revealed_match();
    c.set_vk(some_vk());
    assert!(c.has_vk());
    assert_eq!(c.settle_game(1, &matching_inputs(1), true), Ok(p1));
    assert_eq!(c.get_game(1).unwrap().winner, 1);
}

#[test]
fn settle_large_session_id() {
    let (mut c, p1, p2) = setup();
    let sid: u32 = 0x0102_0304;
    c.create_game(sid, p1, fake_commit(0xAA)).unwrap();
    c.join_game(sid, p2, fake_commit(0xBB)).unwrap();
    c.reveal_seed(sid, p1, fake_commit(0x11)).unwrap();
    c.reveal_seed(sid, p2, fake_commit(0x22)).unwrap();
    c.set_vk(some_vk());
    let mut inputs = matching_inputs(1);
    inputs.session_id = [0u8; 32];
    inputs.session_id[28] = 1;
    inputs.session_id[29] = 2;
    inputs.session_id[30] = 3;
    inputs.session_id[31] = 4;
    assert_eq!(c.settle_game(sid, &inputs, true), Ok(p1));
}

#[test]
fn zero_seed_leaves_slot_unrevealed() {
    let (mut c, p1, p2) = setup();
    c.create_game(1, p1, fake_commit(0xAA)).unwrap();
    c.join_game(1, p2, fake_commit(0xBB)).unwrap();
    c.reveal_seed(1, p1, [0u8; 32]).unwrap();
    c.reveal_seed(1, p2, fake_commit(0x22)).unwrap();
    assert_eq!(c.get_game(1).unwrap().phase, PHASE_JOINED);
}

#[test]
fn admin_and_key() {
    let (mut c, _, _) = setup();
    assert_eq!(c.admin(), [9u8; 32]);
    assert!(!c.has_vk());
    assert!(c.get_vk().is_none());
    c.set_vk(some_vk());
    assert_eq!(c.get_vk().unwrap().ic.len(), 7);
}
