use arcium_anchor::prelude::ArgumentRef;
use horsebetting::le_bytes::u64_from_le_prefix;
use horsebetting::{
    create_horse, create_race, place_bet, race_arguments, run_race, simulate_race_callback,
    AccountKey, ErrorCode, Horse, RaceStatus,
};

fn key(byte: u8) -> AccountKey {
    AccountKey([byte; 32])
}

fn horses() -> [Horse; 4] {
    [
        create_horse(key(1), 1, 50, 40, String::from("Comet")).unwrap(),
        create_horse(key(1), 2, 90, 10, String::from("Blaze")).unwrap(),
        create_horse(key(2), 3, 20, 90, String::from("Nimbus")).unwrap(),
        create_horse(key(3), 4, 70, 70, String::from("Thunder")).unwrap(),
    ]
}

#[test]
fn create_horse_records_the_stats() {
    let horse = create_horse(key(7), 3, 80, 60, String::from("Pegasus")).unwrap();
    assert_eq!(horse.owner, key(7));
    assert_eq!(horse.id, 3);
    assert_eq!(horse.speed, 80);
    assert_eq!(horse.stamina, 60);
    assert_eq!(horse.name, "Pegasus");
}

#[test]
fn create_horse_refuses_a_name_longer_than_the_account() {
    let fits = "a".repeat(28);
    assert!(create_horse(key(1), 1, 1, 1, fits).is_some());
    let too_long = "a".repeat(29);
    assert!(create_horse(key(1), 1, 1, 1, too_long).is_none());
    // Fifteen two-byte characters take 30 bytes.
    let wide = "é".repeat(15);
    assert!(create_horse(key(1), 1, 1, 1, wide).is_none());
    let wide_fits = "é".repeat(14);
    assert!(create_horse(key(1), 1, 1, 1, wide_fits).is_some());
}

#[test]
fn create_race_opens_an_empty_race() {
    let race = create_race(9, [key(1), key(2), key(3), key(4)]);
    assert_eq!(race.race_id, 9);
    assert_eq!(race.status, RaceStatus::Open);
    assert_eq!(race.horses, [key(1), key(2), key(3), key(4)]);
    assert_eq!(race.bet_count, 0);
    assert_eq!(race.winner_id, 0);
    assert_eq!(race.payouts, [0; 4]);
    assert_eq!(race.random_seed, 0);
    for bet in race.bets.iter() {
        assert_eq!(bet.bettor, key(0));
        assert_eq!(bet.amount, 0);
        assert_eq!(bet.selection_ciphertext, [0; 32]);
    }
}

#[test]
fn place_bet_fills_the_next_slot() {
    let mut race = create_race(1, [key(1), key(2), key(3), key(4)]);
    assert_eq!(place_bet(&mut race, key(10), 500, [7; 32]), Ok(()));
    assert_eq!(place_bet(&mut race, key(11), 250, [8; 32]), Ok(()));
    assert_eq!(race.bet_count, 2);
    assert_eq!(race.bets[0].bettor, key(10));
    assert_eq!(race.bets[0].amount, 500);
    assert_eq!(race.bets[0].selection_ciphertext, [7; 32]);
    assert_eq!(race.bets[1].bettor, key(11));
    assert_eq!(race.bets[1].amount, 250);
    assert_eq!(race.bets[2].amount, 0);
    assert_eq!(race.status, RaceStatus::Open);
}

#[test]
fn a_fifth_bet_is_refused_and_changes_nothing() {
    let mut race = create_race(1, [key(1), key(2), key(3), key(4)]);
    for i in 0..4u8 {
        assert_eq!(place_bet(&mut race, key(i), 10 + i as u64, [i; 32]), Ok(()));
    }
    assert_eq!(place_bet(&mut race, key(9), 99, [9; 32]), Err(ErrorCode::RaceFull));
    assert_eq!(race.bet_count, 4);
    assert_eq!(race.bets[3].amount, 13);
}

#[test]
fn a_started_race_takes_no_bet_and_cannot_start_again() {
    let mut race = create_race(1, [key(1), key(2), key(3), key(4)]);
    assert!(run_race(&mut race, &horses(), 77).is_ok());
    assert_eq!(race.status, RaceStatus::Running);
    assert_eq!(race.random_seed, 77);
    assert_eq!(place_bet(&mut race, key(5), 10, [1; 32]), Err(ErrorCode::RaceNotOpen));
    assert_eq!(race.bet_count, 0);
    assert!(matches!(run_race(&mut race, &horses(), 78), Err(ErrorCode::RaceNotOpen)));
    assert_eq!(race.random_seed, 77);
}

#[test]
fn the_circuit_gets_horses_bets_padding_and_seed() {
    let mut race = create_race(1, [key(1), key(2), key(3), key(4)]);
    place_bet(&mut race, key(10), 500, [7; 32]).unwrap();
    place_bet(&mut race, key(11), 250, [8; 32]).unwrap();
    let list = run_race(&mut race, &horses(), 42).ok().unwrap();
    assert_eq!(list.args.len(), 21);
    let stats = [1u8, 50, 40, 2, 90, 10, 3, 20, 90, 4, 70, 70];
    for (i, stat) in stats.iter().enumerate() {
        assert!(matches!(list.args[i], ArgumentRef::PlaintextU8(v) if v == *stat));
    }
    for slot in 0..4 {
        assert!(matches!(list.args[12 + 2 * slot], ArgumentRef::PlaintextU64(_)));
        assert!(matches!(list.args[13 + 2 * slot], ArgumentRef::EncryptedU8(_)));
    }
    assert!(matches!(list.args[20], ArgumentRef::PlaintextU64(_)));
    assert_eq!(list.plaintext_numbers, vec![500, 250, 0, 0, 42]);
    assert_eq!(list.byte_arrays, vec![[7; 32], [8; 32], [0; 32], [0; 32]]);
}

#[test]
fn race_arguments_does_not_change_the_race() {
    let race = create_race(3, [key(1), key(2), key(3), key(4)]);
    let list = race_arguments(&race, &horses(), 5);
    assert_eq!(list.args.len(), 21);
    assert_eq!(list.plaintext_numbers, vec![0, 0, 0, 0, 5]);
    assert_eq!(race.status, RaceStatus::Open);
}

fn output_fields(winner: u8, payouts: [u64; 4]) -> [[u8; 32]; 5] {
    let mut fields = [[0xAAu8; 32]; 5];
    fields[0][0] = winner;
    for i in 0..4 {
        fields[i + 1][0..8].copy_from_slice(&payouts[i].to_le_bytes());
    }
    fields
}

#[test]
fn the_callback_records_the_result() {
    let mut race = create_race(12, [key(1), key(2), key(3), key(4)]);
    run_race(&mut race, &horses(), 1).ok().unwrap();
    let fields = output_fields(4, [316, 0, 158, u64::MAX]);
    let event = simulate_race_callback(&mut race, Some(fields)).ok().unwrap();
    assert_eq!(race.status, RaceStatus::Completed);
    assert_eq!(race.winner_id, 4);
    assert_eq!(race.payouts, [316, 0, 158, u64::MAX]);
    assert_eq!(event.race_id, 12);
    assert_eq!(event.winner_id, 4);
    assert_eq!(event.payouts, [316, 0, 158, u64::MAX]);
    assert_eq!(place_bet(&mut race, key(5), 10, [1; 32]), Err(ErrorCode::RaceNotOpen));
}

#[test]
fn a_failed_output_check_aborts_and_changes_nothing() {
    let mut race = create_race(12, [key(1), key(2), key(3), key(4)]);
    run_race(&mut race, &horses(), 1).ok().unwrap();
    assert!(matches!(
        simulate_race_callback(&mut race, None),
        Err(ErrorCode::AbortedComputation)
    ));
    assert_eq!(race.status, RaceStatus::Running);
    assert_eq!(race.payouts, [0; 4]);
}

#[test]
fn words_are_read_little_endian() {
    let mut field = [0xFFu8; 32];
    field[0..8].copy_from_slice(&[1, 2, 3, 4, 5, 6, 7, 8]);
    assert_eq!(u64_from_le_prefix(&field), 0x0807060504030201);
    assert_eq!(u64_from_le_prefix(&[0u8; 32]), 0);
}
