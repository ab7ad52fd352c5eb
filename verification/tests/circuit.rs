use horsebetting::circuits::{simulate_race, Bet, Horse, RaceInputs};
use horsebetting::rng::next_rng;

fn horse(id: u8, speed: u8, stamina: u8) -> Horse {
    Horse { id, speed, stamina }
}

fn bet(amount: u64, horse_id: u8) -> Bet {
    Bet { amount, horse_id }
}

fn field_of_four() -> [Horse; 4] {
    [horse(1, 50, 40), horse(2, 90, 10), horse(3, 20, 90), horse(4, 70, 70)]
}

#[test]
fn next_rng_from_zero_is_the_increment() {
    assert_eq!(next_rng(0), 1442695040888963407);
}

#[test]
fn next_rng_wraps_around() {
    assert_eq!(next_rng(1), 7806831264735756412);
    assert_eq!(next_rng(42), 10481999410520546993);
}

#[test]
fn winners_split_the_pool_in_proportion() {
    // Performances with seed 7: 710, 955, 662, 1093; horse 4 wins.
    let input = RaceInputs {
        horses: field_of_four(),
        bets: [bet(100, 4), bet(300, 2), bet(50, 4), bet(25, 1)],
        random_seed: 7,
    };
    let output = simulate_race(input);
    assert_eq!(output.winner_id, 4);
    // Pool 475, stake on horse 4 is 150: 100 * 475 / 150 and 50 * 475 / 150, rounded down.
    assert_eq!(output.payouts, [316, 0, 158, 0]);
    let paid: u64 = output.payouts.iter().sum();
    assert!(paid <= 475);
}

#[test]
fn every_bet_is_refunded_when_nobody_backed_the_winner() {
    let input = RaceInputs {
        horses: field_of_four(),
        bets: [bet(100, 1), bet(300, 2), bet(50, 3), bet(25, 1)],
        random_seed: 7,
    };
    let output = simulate_race(input);
    assert_eq!(output.winner_id, 4);
    assert_eq!(output.payouts, [100, 300, 50, 25]);
}

#[test]
fn the_random_factor_can_decide_between_equal_horses() {
    let input = RaceInputs {
        horses: [horse(9, 255, 255), horse(8, 255, 255), horse(7, 255, 255), horse(6, 255, 255)],
        bets: [bet(10, 9), bet(20, 8), bet(30, 7), bet(40, 6)],
        random_seed: 0,
    };
    let output = simulate_race(input);
    assert_eq!(output.winner_id, 7);
    // The only bet on horse 7 takes the whole pool of 100.
    assert_eq!(output.payouts, [0, 0, 100, 0]);
}

#[test]
fn horses_without_stats_are_ranked_by_chance() {
    let input = RaceInputs {
        horses: [horse(5, 0, 0), horse(6, 0, 0), horse(7, 0, 0), horse(8, 0, 0)],
        bets: [bet(10, 5), bet(20, 6), bet(0, 7), bet(0, 8)],
        random_seed: 123,
    };
    let output = simulate_race(input);
    // Random factors 50, 85, 4, 39.
    assert_eq!(output.winner_id, 6);
    assert_eq!(output.payouts, [0, 30, 0, 0]);
}

#[test]
fn a_winner_with_no_stake_refunds_everyone() {
    let input = RaceInputs {
        horses: field_of_four(),
        bets: [bet(0, 4), bet(300, 2), bet(0, 4), bet(25, 1)],
        random_seed: 7,
    };
    let output = simulate_race(input);
    assert_eq!(output.winner_id, 4);
    assert_eq!(output.payouts, [0, 300, 0, 25]);
}
