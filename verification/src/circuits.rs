//! The race circuit: picks a winner from the horses' stats and a random seed,
//! and splits the betting pool among the bets on the winner.
use vstd::prelude::*;
use vstd::arithmetic::div_mod::{lemma_fundamental_div_mod, lemma_div_is_ordered, lemma_div_multiples_vanish, lemma_mod_pos_bound};
use vstd::arithmetic::mul::{lemma_mul_inequality, lemma_mul_is_commutative};
use crate::rng::{next_rng, rng_state};

verus! {

/// A horse as the circuit sees it.
#[derive(Clone, Copy)]
pub struct Horse {
    pub id: u8,
    pub speed: u8,
    pub stamina: u8,
}

/// A bet as the circuit sees it: a stake on one horse.
#[derive(Clone, Copy)]
pub struct Bet {
    pub amount: u64,
    pub horse_id: u8,
}

/// Everything one race is computed from: four horses, four bets and a seed.
#[derive(Clone, Copy)]
pub struct RaceInputs {
    pub horses: [Horse; 4],
    pub bets: [Bet; 4],
    pub random_seed: u64,
}

/// The result of a race: the winning horse's id and one payout per bet.
pub struct RaceOutputs {
    pub winner_id: u8,
    pub payouts: [u64; 4],
}

/// How horse `i` performs: ten points per unit of speed, five per unit of
/// stamina, and a random factor below 100 from the generator's `i + 1`-th state.
pub open spec fn performance(input: RaceInputs, i: int) -> int {
    input.horses[i].speed as int * 10 + input.horses[i].stamina as int * 5
        + (rng_state(input.random_seed, (i + 1) as nat) % 100) as int
}

/// The best performance among the first `n` horses (0 if none beats 0) and the
/// id of the first horse that reached it (0 if none did).
pub open spec fn leader(input: RaceInputs, n: int) -> (int, u8)
    decreases n,
{
    if n <= 0 {
        (0, 0)
    } else {
        let previous = leader(input, n - 1);
        if performance(input, n - 1) > previous.0 {
            (performance(input, n - 1), input.horses[n - 1].id)
        } else {
            previous
        }
    }
}

/// The winner of the race.
pub open spec fn spec_winner(input: RaceInputs) -> u8 {
    leader(input, 4).1
}

/// Horse `k` performs above 0, at least as well as every horse, and strictly
/// better than every horse before it.
pub open spec fn first_fastest(input: RaceInputs, k: int) -> bool {
    &&& 0 <= k < 4
    &&& performance(input, k) > 0
    &&& forall|j: int| 0 <= j < 4 ==> performance(input, j) <= performance(input, k)
    &&& forall|j: int| 0 <= j < k ==> performance(input, j) < performance(input, k)
}

/// The sum of the first `n` stakes.
pub open spec fn total_stake(bets: Seq<Bet>, n: int) -> int
    decreases n,
{
    if n <= 0 {
        0
    } else {
        total_stake(bets, n - 1) + bets[n - 1].amount
    }
}

/// The sum of the first `n` stakes that are on horse `id`.
pub open spec fn stake_on(bets: Seq<Bet>, id: u8, n: int) -> int
    decreases n,
{
    if n <= 0 {
        0
    } else {
        stake_on(bets, id, n - 1) + if bets[n - 1].horse_id == id {
            bets[n - 1].amount as int
        } else {
            0
        }
    }
}

/// The whole pool of a race.
pub open spec fn spec_pool(input: RaceInputs) -> int {
    total_stake(input.bets@, 4)
}

/// The part of the pool staked on the winner.
pub open spec fn spec_winner_pool(input: RaceInputs) -> int {
    stake_on(input.bets@, spec_winner(input), 4)
}

/// What bet `i` is paid: when some stake is on the winner, a bet on the winner
/// gets its stake times the pool divided by the stake on the winner, rounded
/// down, and any other bet gets nothing; when no stake is on the winner,
/// every bet gets its stake back.
pub open spec fn spec_payout(input: RaceInputs, i: int) -> int {
    if spec_winner_pool(input) > 0 {
        if input.bets[i].horse_id == spec_winner(input) {
            input.bets[i].amount as int * spec_pool(input) / spec_winner_pool(input)
        } else {
            0
        }
    } else {
        input.bets[i].amount as int
    }
}

/// The race can be computed in 64-bit words: the pool fits, and so does each
/// product of a winning stake and the pool that the payouts divide.
pub open spec fn fits_in_words(input: RaceInputs) -> bool {
    &&& spec_pool(input) <= u64::MAX
    &&& spec_winner_pool(input) > 0 ==> forall|i: int|
        0 <= i < 4 && #[trigger] input.bets[i].horse_id == spec_winner(input) ==> input.bets[i].amount
            * spec_pool(input) <= u64::MAX
}

proof fn lemma_stakes_grow(bets: Seq<Bet>, id: u8, m: int, n: int)
    requires
        0 <= m <= n,
    ensures
        total_stake(bets, m) <= total_stake(bets, n),
        stake_on(bets, id, m) <= stake_on(bets, id, n),
        0 <= stake_on(bets, id, n) <= total_stake(bets, n),
    decreases n,
{
    if n > 0 {
        lemma_stakes_grow(bets, id, if m == n { m - 1 } else { m }, n - 1);
    }
}

/// Runs a race: each horse in turn draws the generator's next state, the first
/// horse with the best performance wins, and the pool is paid out.
pub fn simulate_race(input: RaceInputs) -> (output: RaceOutputs)
    requires
        fits_in_words(input),
    ensures
        output.winner_id == spec_winner(input),
        forall|i: int| 0 <= i < 4 ==> output.payouts[i] == spec_payout(input, i),
{
    let mut best_performance: u64 = 0;
    let mut winner_id: u8 = 0;
    let mut rng = input.random_seed;

    // 1. Simulate the race.
    for i in 0..4
        invariant
            rng == rng_state(input.random_seed, i as nat),
            best_performance as int == leader(input, i as int).0,
            winner_id == leader(input, i as int).1,
            best_performance <= 3924,
    {
        let horse = input.horses[i];
        rng = next_rng(rng);
        let random_factor = (rng % 100) as u64;
        let performance = (horse.speed as u64) * 10 + (horse.stamina as u64) * 5 + random_factor;
        if performance > best_performance {
            best_performance = performance;
            winner_id = horse.id;
        }
    }

    // 2. Calculate the pool and the payouts.
    let ghost bets = input.bets@;
    let mut total_pool: u64 = 0;
    let mut winner_pool: u64 = 0;
    for i in 0..4
        invariant
            bets == input.bets@,
            winner_id == spec_winner(input),
            spec_pool(input) <= u64::MAX,
            total_pool as int == total_stake(bets, i as int),
            winner_pool as int == stake_on(bets, winner_id, i as int),
    {
        proof {
            lemma_stakes_grow(bets, winner_id, i + 1, 4);
        }
        let bet = input.bets[i];
        total_pool += bet.amount;
        if bet.horse_id == winner_id {
            winner_pool += bet.amount;
        }
    }

    let mut payouts = [0u64; 4];
    if winner_pool > 0 {
        for i in 0..4
            invariant
                winner_id == spec_winner(input),
                fits_in_words(input),
                total_pool as int == spec_pool(input),
                winner_pool as int == spec_winner_pool(input),
                winner_pool > 0,
                forall|j: int| 0 <= j < i ==> payouts[j] == spec_payout(input, j),
        {
            let bet = input.bets[i];
            if bet.horse_id == winner_id {
                assert(input.bets[i as int].horse_id == spec_winner(input));
                payouts[i] = (bet.amount * total_pool) / winner_pool;
            } else {
                payouts[i] = 0;
            }
        }
    } else {
        for i in 0..4
            invariant
                spec_winner_pool(input) == 0,
                forall|j: int| 0 <= j < i ==> payouts[j] == spec_payout(input, j),
        {
            payouts[i] = input.bets[i].amount;
        }
    }

    RaceOutputs { winner_id, payouts }
}

/// The sum of the four payouts.
pub open spec fn total_payout(input: RaceInputs) -> int {
    spec_payout(input, 0) + spec_payout(input, 1) + spec_payout(input, 2) + spec_payout(input, 3)
}

proof fn lemma_leader(input: RaceInputs, n: int)
    requires
        0 <= n <= 4,
    ensures
        leader(input, n).0 >= 0,
        forall|j: int| 0 <= j < n ==> performance(input, j) <= leader(input, n).0,
        leader(input, n).0 == 0 ==> leader(input, n).1 == 0,
        leader(input, n).0 > 0 ==> exists|k: int|
            0 <= k < n && performance(input, k) == leader(input, n).0 && leader(input, n).1
                == input.horses[k].id && forall|j: int|
                0 <= j < k ==> performance(input, j) < performance(input, k),
    decreases n,
{
    if n > 0 {
        lemma_leader(input, n - 1);
        let previous = leader(input, n - 1);
        if performance(input, n - 1) > previous.0 {
            assert(forall|j: int| 0 <= j < n - 1 ==> #[trigger] performance(input, j) < performance(input, n - 1));
            assert(leader(input, n).1 == input.horses[n - 1].id);
        } else if previous.0 > 0 {
            let k = choose|k: int|
                0 <= k < n - 1 && performance(input, k) == previous.0 && previous.1
                    == input.horses[k].id && forall|j: int|
                    0 <= j < k ==> performance(input, j) < performance(input, k);
            assert(0 <= k < n && performance(input, k) == leader(input, n).0);
        }
    }
}

/// The winner is the first horse whose performance is the best and above 0;
/// when every horse performs 0, the winner id is 0.
pub proof fn lemma_winner_is_first_fastest(input: RaceInputs)
    ensures
        (forall|j: int| 0 <= j < 4 ==> performance(input, j) == 0) ==> spec_winner(input) == 0,
        (exists|j: int| 0 <= j < 4 && performance(input, j) > 0) ==> exists|k: int|
            first_fastest(input, k) && spec_winner(input) == input.horses[k].id,
{
    lemma_leader(input, 4);
    let best = leader(input, 4).0;
    if best > 0 {
        let k = choose|k: int|
            0 <= k < 4 && performance(input, k) == best && leader(input, 4).1 == input.horses[k].id
                && forall|j: int| 0 <= j < k ==> performance(input, j) < performance(input, k);
        assert(first_fastest(input, k));
    }
}

proof fn lemma_winning_share(amount: int, pool: int, winner_pool: int)
    requires
        0 <= amount,
        0 < winner_pool <= pool,
    ensures
        amount <= amount * pool / winner_pool,
        winner_pool * (amount * pool / winner_pool) <= amount * pool,
{
    lemma_mul_inequality(winner_pool, pool, amount);
    lemma_mul_is_commutative(winner_pool, amount);
    lemma_mul_is_commutative(pool, amount);
    lemma_div_is_ordered(amount * winner_pool, amount * pool, winner_pool);
    lemma_div_multiples_vanish(amount, winner_pool);
    lemma_fundamental_div_mod(amount * pool, winner_pool);
    lemma_mod_pos_bound(amount * pool, winner_pool);
}

/// The payouts never exceed the pool. When nobody bet on the winner every
/// bet is refunded, which pays out exactly the pool; otherwise bets on other
/// horses get nothing and every bet on the winner gets at least its stake back.
pub proof fn lemma_payouts_split_pool(input: RaceInputs)
    ensures
        total_payout(input) <= spec_pool(input),
        spec_winner_pool(input) == 0 ==> total_payout(input) == spec_pool(input),
        spec_winner_pool(input) == 0 ==> forall|i: int|
            0 <= i < 4 ==> spec_payout(input, i) == input.bets[i].amount,
        spec_winner_pool(input) > 0 ==> forall|i: int|
            0 <= i < 4 && input.bets[i].horse_id != spec_winner(input) ==> spec_payout(input, i) == 0,
        spec_winner_pool(input) > 0 ==> forall|i: int|
            0 <= i < 4 && input.bets[i].horse_id == spec_winner(input) ==> spec_payout(input, i)
                >= input.bets[i].amount,
{
    let bets = input.bets@;
    let w = spec_winner(input);
    let t = spec_pool(input);
    let wp = spec_winner_pool(input);
    reveal_with_fuel(total_stake, 5);
    reveal_with_fuel(stake_on, 5);
    lemma_stakes_grow(bets, w, 4, 4);
    if wp > 0 {
        let x0: int = if bets[0].horse_id == w { bets[0].amount as int } else { 0 };
        let x1: int = if bets[1].horse_id == w { bets[1].amount as int } else { 0 };
        let x2: int = if bets[2].horse_id == w { bets[2].amount as int } else { 0 };
        let x3: int = if bets[3].horse_id == w { bets[3].amount as int } else { 0 };
        assert(wp == x0 + x1 + x2 + x3);
        lemma_winning_share(x0, t, wp);
        lemma_winning_share(x1, t, wp);
        lemma_winning_share(x2, t, wp);
        lemma_winning_share(x3, t, wp);
        assert(spec_payout(input, 0) == x0 * t / wp);
        assert(spec_payout(input, 1) == x1 * t / wp);
        assert(spec_payout(input, 2) == x2 * t / wp);
        assert(spec_payout(input, 3) == x3 * t / wp);
        let p0 = x0 * t / wp;
        let p1 = x1 * t / wp;
        let p2 = x2 * t / wp;
        let p3 = x3 * t / wp;
        assert(p0 + p1 + p2 + p3 <= t) by (nonlinear_arith)
            requires
                wp > 0,
                wp == x0 + x1 + x2 + x3,
                wp * p0 <= x0 * t,
                wp * p1 <= x1 * t,
                wp * p2 <= x2 * t,
                wp * p3 <= x3 * t,
        {
            assert(wp * (p0 + p1 + p2 + p3) <= (x0 + x1 + x2 + x3) * t);
            assert(wp * (p0 + p1 + p2 + p3) <= wp * t);
        }
    }
}

/// The winner is the first horse with the best score, where horse `k` scores
/// ten points per unit of speed, five per unit of stamina, and the generator's
/// `k + 1`-th state from the seed, taken mod 100. When every score is 0 the
/// winner id is 0.
pub proof fn lemma_winner_has_best_score(input: RaceInputs)
    ensures
        (forall|j: int|
            0 <= j < 4 ==> #[trigger] input.horses[j].speed as int * 10 + input.horses[j].stamina as int * 5
                + (rng_state(input.random_seed, (j + 1) as nat) % 100) as int == 0)
            ==> spec_winner(input) == 0,
        (exists|j: int| 0 <= j < 4 && (#[trigger] input.horses[j].speed as int * 10 + input.horses[j].stamina as int * 5 + (rng_state(input.random_seed, (j + 1) as nat) % 100) as int) > 0) ==> exists|k: int|
            0 <= k < 4 && spec_winner(input) == input.horses[k].id
            && (forall|j: int| 0 <= j < 4 ==> (#[trigger] input.horses[j].speed as int * 10 + input.horses[j].stamina as int * 5 + (rng_state(input.random_seed, (j + 1) as nat) % 100) as int) <= (input.horses[k].speed as int * 10 + input.horses[k].stamina as int * 5 + (rng_state(input.random_seed, (k + 1) as nat) % 100) as int))
            && (forall|j: int| 0 <= j < k ==> (#[trigger] input.horses[j].speed as int * 10 + input.horses[j].stamina as int * 5 + (rng_state(input.random_seed, (j + 1) as nat) % 100) as int) < (input.horses[k].speed as int * 10 + input.horses[k].stamina as int * 5 + (rng_state(input.random_seed, (k + 1) as nat) % 100) as int)),
{
    lemma_winner_is_first_fastest(input);
    assert forall|j: int| 0 <= j < 4 implies #[trigger] input.horses[j].speed as int * 10
        + input.horses[j].stamina as int * 5 + (rng_state(input.random_seed, (j + 1) as nat)
        % 100) as int == performance(input, j) by {}
}

/// A horse whose ten points per speed and five per stamina beat every other
/// horse's by more than 99 wins, whatever the seed.
pub proof fn lemma_dominant_horse_wins(input: RaceInputs, k: int)
    requires
        0 <= k < 4,
        forall|j: int|
            0 <= j < 4 && j != k ==> input.horses[k].speed as int * 10 + input.horses[k].stamina as int
                * 5 > #[trigger] input.horses[j].speed as int * 10 + input.horses[j].stamina as int * 5
                + 99,
    ensures
        spec_winner(input) == input.horses[k].id,
{
    lemma_winner_is_first_fastest(input);
    assert forall|j: int| 0 <= j < 4 && j != k implies performance(input, j) < performance(input, k) by {
        assert(input.horses[k].speed as int * 10 + input.horses[k].stamina as int * 5 > input.horses[j].speed
            as int * 10 + input.horses[j].stamina as int * 5 + 99);
    }
    if k == 0 {
        assert(performance(input, 0) > performance(input, 1));
    } else {
        assert(performance(input, k) > performance(input, 0));
    }
    let k2 = choose|k2: int| first_fastest(input, k2) && spec_winner(input) == input.horses[k2].id;
    if k2 != k {
        assert(performance(input, k2) < performance(input, k));
        assert(performance(input, k) <= performance(input, k2));
    }
}

/// When some stake is on the winner, each bet on the winner is paid its stake
/// times the whole pool (the four stakes) divided by the stake on the winner,
/// rounded down; and the payouts leave less of the pool unpaid than there are
/// bets on the winner.
pub proof fn lemma_winners_share_the_whole_pool(input: RaceInputs)
    ensures
        ({
            let w = spec_winner(input);
            let b = input.bets;
            let pool = b[0].amount as int + b[1].amount as int + b[2].amount as int + b[3].amount as int;
            let on_winner = (if b[0].horse_id == w { b[0].amount as int } else { 0 })
                + (if b[1].horse_id == w { b[1].amount as int } else { 0 })
                + (if b[2].horse_id == w { b[2].amount as int } else { 0 })
                + (if b[3].horse_id == w { b[3].amount as int } else { 0 });
            let winning_bets = (if b[0].horse_id == w { 1int } else { 0 })
                + (if b[1].horse_id == w { 1int } else { 0 })
                + (if b[2].horse_id == w { 1int } else { 0 })
                + (if b[3].horse_id == w { 1int } else { 0 });
            on_winner > 0 ==> {
                &&& forall|i: int|
                    0 <= i < 4 && #[trigger] b[i].horse_id == w ==> spec_payout(input, i)
                        == b[i].amount as int * pool / on_winner
                &&& forall|i: int|
                    0 <= i < 4 && #[trigger] b[i].horse_id != w ==> spec_payout(input, i) == 0
                &&& pool - (spec_payout(input, 0) + spec_payout(input, 1) + spec_payout(input, 2)
                    + spec_payout(input, 3)) < winning_bets
            }
        }),
{
    let bets = input.bets@;
    let w = spec_winner(input);
    let t = spec_pool(input);
    let wp = spec_winner_pool(input);
    reveal_with_fuel(total_stake, 5);
    reveal_with_fuel(stake_on, 5);
    let x0: int = if bets[0].horse_id == w { bets[0].amount as int } else { 0 };
    let x1: int = if bets[1].horse_id == w { bets[1].amount as int } else { 0 };
    let x2: int = if bets[2].horse_id == w { bets[2].amount as int } else { 0 };
    let x3: int = if bets[3].horse_id == w { bets[3].amount as int } else { 0 };
    let c0: int = if bets[0].horse_id == w { 1 } else { 0 };
    let c1: int = if bets[1].horse_id == w { 1 } else { 0 };
    let c2: int = if bets[2].horse_id == w { 1 } else { 0 };
    let c3: int = if bets[3].horse_id == w { 1 } else { 0 };
    assert(wp == x0 + x1 + x2 + x3);
    assert(t == bets[0].amount + bets[1].amount + bets[2].amount + bets[3].amount);
    if wp > 0 {
        lemma_remainder(x0, t, wp, c0);
        lemma_remainder(x1, t, wp, c1);
        lemma_remainder(x2, t, wp, c2);
        lemma_remainder(x3, t, wp, c3);
        let p0 = x0 * t / wp;
        let p1 = x1 * t / wp;
        let p2 = x2 * t / wp;
        let p3 = x3 * t / wp;
        assert(spec_payout(input, 0) == p0);
        assert(spec_payout(input, 1) == p1);
        assert(spec_payout(input, 2) == p2);
        assert(spec_payout(input, 3) == p3);
        assert(t - (p0 + p1 + p2 + p3) < c0 + c1 + c2 + c3) by (nonlinear_arith)
            requires
                wp > 0,
                wp == x0 + x1 + x2 + x3,
                x0 * t - wp * p0 <= c0 * wp - c0,
                x1 * t - wp * p1 <= c1 * wp - c1,
                x2 * t - wp * p2 <= c2 * wp - c2,
                x3 * t - wp * p3 <= c3 * wp - c3,
                c0 >= 0,
                c1 >= 0,
                c2 >= 0,
                c3 >= 0,
                c0 + c1 + c2 + c3 >= 1,
        {
            assert(wp * (t - (p0 + p1 + p2 + p3)) == (x0 * t - wp * p0) + (x1 * t - wp * p1) + (x2
                * t - wp * p2) + (x3 * t - wp * p3));
            assert(wp * (t - (p0 + p1 + p2 + p3)) <= (c0 + c1 + c2 + c3) * wp - (c0 + c1 + c2 + c3));
            assert(wp * (t - (p0 + p1 + p2 + p3)) < wp * (c0 + c1 + c2 + c3));
            if t - (p0 + p1 + p2 + p3) >= c0 + c1 + c2 + c3 {
                assert(wp * (t - (p0 + p1 + p2 + p3)) >= wp * (c0 + c1 + c2 + c3));
            }
        }
        assert forall|i: int| 0 <= i < 4 && #[trigger] input.bets[i].horse_id == w implies spec_payout(
            input,
            i,
        ) == input.bets[i].amount as int * (input.bets[0].amount as int + input.bets[1].amount as int
            + input.bets[2].amount as int + input.bets[3].amount as int) / wp by {}
    }
}

proof fn lemma_remainder(x: int, pool: int, winner_pool: int, count: int)
    requires
        winner_pool > 0,
        x >= 0,
        pool >= 0,
        count == 0 ==> x == 0,
        count == 0 || count == 1,
    ensures
        x * pool - winner_pool * (x * pool / winner_pool) <= count * winner_pool - count,
        count == 0 ==> x * pool / winner_pool == 0,
{
    lemma_fundamental_div_mod(x * pool, winner_pool);
    lemma_mod_pos_bound(x * pool, winner_pool);
    if count == 0 {
        assert(x * pool == 0);
        assert(0int / winner_pool == 0);
    }
}

} // verus!
