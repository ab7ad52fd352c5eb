//! The betting program's instructions, as transitions of its accounts.
//!
//! Reading and writing the accounts, queueing the computation and checking its
//! signed output are left to the caller; these functions decide what the
//! accounts become and what the computation is asked.
use vstd::prelude::*;
use crate::arguments::{
    Argument, builder_arguments, builder_byte_array_count, builder_number_count, listed_arguments, new_builder, add_plaintext_u8,
    add_plaintext_u64, add_encrypted_u8, build_list,
};
use arcium_anchor::prelude::ArgumentList;
use crate::le_bytes::{le_value, u64_from_le_prefix};
use crate::state::{AccountKey, BetInfo, ErrorCode, Horse, Race, RaceResolvedEvent, RaceStatus, well_formed};

verus! {

/// The most bytes of UTF-8 a horse's name can take: a horse account is given
/// 75 bytes, of which the name has 32, and 4 of those hold its length.
pub const HORSE_NAME_CAPACITY: usize = 28;

/// Thirty-two zero bytes.
pub open spec fn zero_bytes() -> [u8; 32] {
    vstd::array::spec_array_fill_for_copy_type::<u8, 32>(0u8)
}

/// The bet recorded in a race account before any bet is placed.
pub open spec fn empty_bet() -> BetInfo {
    BetInfo { bettor: AccountKey(zero_bytes()), amount: 0, selection_ciphertext: zero_bytes() }
}

/// Registers a horse owned by `owner`; `None` when the name does not fit the account.
pub fn create_horse(owner: AccountKey, id: u8, speed: u8, stamina: u8, name: String) -> (horse:
    Option<Horse>)
    ensures
        horse is Some <==> vstd::utf8::encode_utf8(name@).len() <= HORSE_NAME_CAPACITY,
        horse matches Some(h) ==> {
            &&& h.owner == owner
            &&& h.id == id
            &&& h.speed == speed
            &&& h.stamina == stamina
            &&& h.name@ == name@
        },
{
    if name.as_str().as_bytes().len() <= HORSE_NAME_CAPACITY {
        Some(Horse { owner, id, speed, stamina, name })
    } else {
        None
    }
}

/// Opens race `race_id` between the four given horse accounts, with no bets yet.
pub fn create_race(race_id: u64, horses: [AccountKey; 4]) -> (race: Race)
    ensures
        race.race_id == race_id,
        race.status == RaceStatus::Open,
        race.horses == horses,
        race.bet_count == 0,
        race.winner_id == 0,
        race.random_seed == 0,
        forall|i: int| 0 <= i < 4 ==> race.bets[i] == empty_bet(),
        forall|i: int| 0 <= i < 4 ==> race.payouts[i] == 0,
        well_formed(race),
{
    let no_bet = BetInfo { bettor: AccountKey([0u8; 32]), amount: 0, selection_ciphertext: [0u8; 32] };
    Race {
        race_id,
        status: RaceStatus::Open,
        horses,
        bets: [no_bet; 4],
        bet_count: 0,
        winner_id: 0,
        payouts: [0u64; 4],
        random_seed: 0,
    }
}

/// Why a bet on `race` is refused, if it is.
pub open spec fn bet_refusal(race: Race) -> Option<ErrorCode> {
    if race.status != RaceStatus::Open {
        Some(ErrorCode::RaceNotOpen)
    } else if race.bet_count >= 4 {
        Some(ErrorCode::RaceFull)
    } else {
        None
    }
}

/// `after` is `before` with the bet appended in the next free slot.
pub open spec fn bet_placed(
    before: Race,
    after: Race,
    bettor: AccountKey,
    amount: u64,
    selection_ciphertext: [u8; 32],
) -> bool {
    &&& after.bets@ == before.bets@.update(
        before.bet_count as int,
        BetInfo { bettor, amount, selection_ciphertext },
    )
    &&& after.bet_count == before.bet_count + 1
    &&& after.race_id == before.race_id
    &&& after.status == before.status
    &&& after.horses == before.horses
    &&& after.winner_id == before.winner_id
    &&& after.payouts == before.payouts
    &&& after.random_seed == before.random_seed
}

/// Records a bet of `amount` by `bettor` on the horse hidden in `selection_ciphertext`.
pub fn place_bet(
    race: &mut Race,
    bettor: AccountKey,
    amount: u64,
    selection_ciphertext: [u8; 32],
) -> (result: Result<(), ErrorCode>)
    ensures
        result == (match bet_refusal(*old(race)) {
            Some(error) => Err(error),
            None => Ok(()),
        }),
        bet_refusal(*old(race)) is Some ==> *final(race) == *old(race),
        bet_refusal(*old(race)) is None ==> bet_placed(
            *old(race),
            *final(race),
            bettor,
            amount,
            selection_ciphertext,
        ),
        well_formed(*old(race)) ==> well_formed(*final(race)),
{
    if race.status != RaceStatus::Open {
        return Err(ErrorCode::RaceNotOpen);
    }
    if race.bet_count >= 4 {
        return Err(ErrorCode::RaceFull);
    }
    let bet_index = race.bet_count as usize;
    let mut bets = race.bets;
    bets[bet_index] = BetInfo { bettor, amount, selection_ciphertext };
    race.bets = bets;
    race.bet_count = race.bet_count + 1;
    Ok(())
}

/// The three stats of each of the first `n` horses, in order.
pub open spec fn horse_arguments(horses: Seq<Horse>, n: int) -> Seq<Argument>
    decreases n,
{
    if n <= 0 {
        Seq::empty()
    } else {
        horse_arguments(horses, n - 1) + seq![
            Argument::PlaintextU8(horses[n - 1].id),
            Argument::PlaintextU8(horses[n - 1].speed),
            Argument::PlaintextU8(horses[n - 1].stamina),
        ]
    }
}

/// The first `n` bet slots: the stake and the encrypted selection of a
/// recorded bet, or a zero stake and a zero ciphertext for an empty slot.
pub open spec fn bet_arguments(race: Race, n: int) -> Seq<Argument>
    decreases n,
{
    if n <= 0 {
        Seq::empty()
    } else {
        bet_arguments(race, n - 1) + if n - 1 < race.bet_count {
            seq![
                Argument::PlaintextU64(race.bets[n - 1].amount),
                Argument::EncryptedU8(race.bets[n - 1].selection_ciphertext),
            ]
        } else {
            seq![Argument::PlaintextU64(0), Argument::EncryptedU8(zero_bytes())]
        }
    }
}

/// What the race circuit is given: the four horses' stats, the four bet slots
/// and the seed.
pub open spec fn spec_race_arguments(race: Race, horses: Seq<Horse>, random_seed: u64) -> Seq<
    Argument,
> {
    horse_arguments(horses, 4) + bet_arguments(race, 4) + seq![Argument::PlaintextU64(random_seed)]
}

/// Builds the argument list of the race circuit.
pub fn race_arguments(race: &Race, horses: &[Horse; 4], random_seed: u64) -> (list: ArgumentList)
    ensures
        listed_arguments(list) == spec_race_arguments(*race, horses@, random_seed),
{
    let mut builder = new_builder();

    // 1. The horses' stats.
    for i in 0..4
        invariant
            builder_arguments(builder) == horse_arguments(horses@, i as int),
            builder_number_count(builder) == 0,
            builder_byte_array_count(builder) == 0,
    {
        let horse = &horses[i];
        builder = add_plaintext_u8(builder, horse.id);
        builder = add_plaintext_u8(builder, horse.speed);
        builder = add_plaintext_u8(builder, horse.stamina);
        assert(builder_arguments(builder) =~= horse_arguments(horses@, i + 1));
    }

    // 2. The bets; empty slots are padded with zeros.
    let ghost horse_part = horse_arguments(horses@, 4);
    for i in 0..4
        invariant
            horse_part == horse_arguments(horses@, 4),
            builder_arguments(builder) == horse_part + bet_arguments(*race, i as int),
            builder_number_count(builder) == i,
            builder_byte_array_count(builder) == i,
    {
        if i < race.bet_count as usize {
            let bet = &race.bets[i];
            builder = add_plaintext_u64(builder, bet.amount);
            builder = add_encrypted_u8(builder, bet.selection_ciphertext);
        } else {
            builder = add_plaintext_u64(builder, 0);
            builder = add_encrypted_u8(builder, [0u8; 32]);
        }
        assert(builder_arguments(builder) =~= horse_part + bet_arguments(*race, i + 1));
    }

    // 3. The seed.
    builder = add_plaintext_u64(builder, random_seed);
    build_list(builder)
}

/// Why a race cannot be started, if it cannot.
pub open spec fn start_refusal(race: Race) -> Option<ErrorCode> {
    if race.status != RaceStatus::Open {
        Some(ErrorCode::RaceNotOpen)
    } else {
        None
    }
}

/// `after` is `before` started with `random_seed`.
pub open spec fn race_started(before: Race, after: Race, random_seed: u64) -> bool {
    after == Race { status: RaceStatus::Running, random_seed, ..before }
}

/// Starts an open race with `random_seed` and returns the arguments its
/// computation is to be queued with.
pub fn run_race(race: &mut Race, horses: &[Horse; 4], random_seed: u64) -> (result: Result<
    ArgumentList,
    ErrorCode,
>)
    ensures
        start_refusal(*old(race)) is Some ==> result == Err::<ArgumentList, ErrorCode>(
            ErrorCode::RaceNotOpen,
        ) && *final(race) == *old(race),
        start_refusal(*old(race)) is None ==> result is Ok && race_started(
            *old(race),
            *final(race),
            random_seed,
        ),
        result matches Ok(list) ==> listed_arguments(list) == spec_race_arguments(
            *final(race),
            horses@,
            random_seed,
        ),
        well_formed(*old(race)) ==> well_formed(*final(race)),
{
    if race.status != RaceStatus::Open {
        return Err(ErrorCode::RaceNotOpen);
    }
    race.status = RaceStatus::Running;
    race.random_seed = random_seed;
    Ok(race_arguments(race, horses, random_seed))
}

/// The payout of bet `i` as the circuit's output field `i + 1` holds it.
pub open spec fn output_payout(ciphertexts: [[u8; 32]; 5], i: int) -> nat {
    le_value(ciphertexts[i + 1]@.subrange(0, 8))
}

/// `after` is `before` resolved with the given winner and payouts.
pub open spec fn race_completed(before: Race, after: Race, winner_id: u8, payouts: [u64; 4]) -> bool {
    after == Race { status: RaceStatus::Completed, winner_id, payouts, ..before }
}

/// Records a race's result. `ciphertexts` are the output fields of the race's
/// computation once its signature has been checked, `None` when the check
/// failed: then the race is left as it was and the computation counts as aborted.
pub fn simulate_race_callback(race: &mut Race, ciphertexts: Option<[[u8; 32]; 5]>) -> (result:
    Result<RaceResolvedEvent, ErrorCode>)
    ensures
        ciphertexts is None ==> result == Err::<RaceResolvedEvent, ErrorCode>(
            ErrorCode::AbortedComputation,
        ) && *final(race) == *old(race),
        ciphertexts matches Some(fields) ==> {
            &&& result is Ok
            &&& race_completed(*old(race), *final(race), fields[0][0], final(race).payouts)
            &&& forall|i: int| 0 <= i < 4 ==> final(race).payouts[i] == output_payout(fields, i)
        },
        result matches Ok(event) ==> {
            &&& event.race_id == final(race).race_id
            &&& event.winner_id == final(race).winner_id
            &&& event.payouts == final(race).payouts
        },
        well_formed(*old(race)) ==> well_formed(*final(race)),
{
    let fields = match ciphertexts {
        Some(fields) => fields,
        None => return Err(ErrorCode::AbortedComputation),
    };
    let winner_id = fields[0][0];
    let mut payouts = [0u64; 4];
    for i in 0..4
        invariant
            forall|j: int| 0 <= j < i ==> payouts[j] == output_payout(fields, j),
    {
        payouts[i] = u64_from_le_prefix(&fields[i + 1]);
    }
    race.status = RaceStatus::Completed;
    race.winner_id = winner_id;
    race.payouts = payouts;
    Ok(RaceResolvedEvent { race_id: race.race_id, winner_id, payouts })
}

/// Once a race has been started it takes no bet and cannot be started again.
pub proof fn lemma_started_race_is_closed(before: Race, after: Race, random_seed: u64)
    requires
        race_started(before, after, random_seed),
    ensures
        bet_refusal(after) == Some(ErrorCode::RaceNotOpen),
        start_refusal(after) == Some(ErrorCode::RaceNotOpen),
{
}

/// Once a race's result is recorded it takes no bet and cannot be started again.
pub proof fn lemma_completed_race_is_closed(
    before: Race,
    after: Race,
    winner_id: u8,
    payouts: [u64; 4],
)
    requires
        race_completed(before, after, winner_id, payouts),
    ensures
        bet_refusal(after) == Some(ErrorCode::RaceNotOpen),
        start_refusal(after) == Some(ErrorCode::RaceNotOpen),
{
}

proof fn lemma_bet_arguments_at(race: Race, n: int, k: int)
    requires
        0 <= k < n,
    ensures
        bet_arguments(race, n).len() == 2 * n,
        bet_arguments(race, n)[2 * k] == Argument::PlaintextU64(
            if k < race.bet_count { race.bets[k].amount } else { 0 },
        ),
        bet_arguments(race, n)[2 * k + 1] == Argument::EncryptedU8(
            if k < race.bet_count { race.bets[k].selection_ciphertext } else { zero_bytes() },
        ),
    decreases n,
{
    lemma_bet_arguments_len(race, n - 1);
    if k < n - 1 {
        lemma_bet_arguments_at(race, n - 1, k);
    }
}

proof fn lemma_bet_arguments_len(race: Race, n: int)
    requires
        0 <= n,
    ensures
        bet_arguments(race, n).len() == 2 * n,
    decreases n,
{
    if n > 0 {
        lemma_bet_arguments_len(race, n - 1);
    }
}

proof fn lemma_horse_arguments_len(horses: Seq<Horse>, n: int)
    requires
        0 <= n,
    ensures
        horse_arguments(horses, n).len() == 3 * n,
    decreases n,
{
    if n > 0 {
        lemma_horse_arguments_len(horses, n - 1);
    }
}

/// A bet that a race accepts reaches the race's computation as it was placed:
/// slot `k` of the arguments holds its stake and its encrypted selection.
pub proof fn lemma_placed_bet_reaches_circuit(
    before: Race,
    with_bet: Race,
    bettor: AccountKey,
    amount: u64,
    selection_ciphertext: [u8; 32],
    started: Race,
    horses: Seq<Horse>,
    random_seed: u64,
)
    requires
        bet_refusal(before) is None,
        bet_placed(before, with_bet, bettor, amount, selection_ciphertext),
        race_started(with_bet, started, random_seed),
    ensures
        spec_race_arguments(started, horses, random_seed).len() == 21,
        spec_race_arguments(started, horses, random_seed)[12 + 2 * before.bet_count]
            == Argument::PlaintextU64(amount),
        spec_race_arguments(started, horses, random_seed)[13 + 2 * before.bet_count]
            == Argument::EncryptedU8(selection_ciphertext),
{
    let k = before.bet_count as int;
    lemma_horse_arguments_len(horses, 4);
    lemma_bet_arguments_at(started, 4, k);
    assert(started.bets@[k] == BetInfo { bettor, amount, selection_ciphertext });
}

proof fn lemma_horse_arguments_at(horses: Seq<Horse>, n: int, k: int)
    requires
        0 <= k < n,
    ensures
        horse_arguments(horses, n)[3 * k] == Argument::PlaintextU8(horses[k].id),
        horse_arguments(horses, n)[3 * k + 1] == Argument::PlaintextU8(horses[k].speed),
        horse_arguments(horses, n)[3 * k + 2] == Argument::PlaintextU8(horses[k].stamina),
    decreases n,
{
    lemma_horse_arguments_len(horses, n - 1);
    if k < n - 1 {
        lemma_horse_arguments_at(horses, n - 1, k);
    }
}

/// The circuit's arguments, in order: for each horse `k`, its id, speed and
/// stamina at positions `3k`, `3k + 1` and `3k + 2`; for each bet slot `k`, at
/// positions `12 + 2k` and `13 + 2k`, the recorded bet's stake and encrypted
/// selection, or a zero stake and 32 zero bytes for a slot with no bet; and
/// the seed last, at position 20.
pub proof fn lemma_race_argument_layout(race: Race, horses: Seq<Horse>, random_seed: u64)
    ensures
        spec_race_arguments(race, horses, random_seed).len() == 21,
        forall|k: int|
            0 <= k < 4 ==> spec_race_arguments(race, horses, random_seed)[3 * k] == Argument::PlaintextU8(
                #[trigger] horses[k].id,
            ) && spec_race_arguments(race, horses, random_seed)[3 * k + 1] == Argument::PlaintextU8(
                horses[k].speed,
            ) && spec_race_arguments(race, horses, random_seed)[3 * k + 2] == Argument::PlaintextU8(
                horses[k].stamina,
            ),
        spec_race_arguments(race, horses, random_seed)[12] == Argument::PlaintextU64(
            if 0 < race.bet_count { race.bets[0].amount } else { 0 },
        ),
        spec_race_arguments(race, horses, random_seed)[13] == Argument::EncryptedU8(
            if 0 < race.bet_count {
                race.bets[0].selection_ciphertext
            } else {
                vstd::array::spec_array_fill_for_copy_type::<u8, 32>(0u8)
            },
        ),
        spec_race_arguments(race, horses, random_seed)[14] == Argument::PlaintextU64(
            if 1 < race.bet_count { race.bets[1].amount } else { 0 },
        ),
        spec_race_arguments(race, horses, random_seed)[15] == Argument::EncryptedU8(
            if 1 < race.bet_count {
                race.bets[1].selection_ciphertext
            } else {
                vstd::array::spec_array_fill_for_copy_type::<u8, 32>(0u8)
            },
        ),
        spec_race_arguments(race, horses, random_seed)[16] == Argument::PlaintextU64(
            if 2 < race.bet_count { race.bets[2].amount } else { 0 },
        ),
        spec_race_arguments(race, horses, random_seed)[17] == Argument::EncryptedU8(
            if 2 < race.bet_count {
                race.bets[2].selection_ciphertext
            } else {
                vstd::array::spec_array_fill_for_copy_type::<u8, 32>(0u8)
            },
        ),
        spec_race_arguments(race, horses, random_seed)[18] == Argument::PlaintextU64(
            if 3 < race.bet_count { race.bets[3].amount } else { 0 },
        ),
        spec_race_arguments(race, horses, random_seed)[19] == Argument::EncryptedU8(
            if 3 < race.bet_count {
                race.bets[3].selection_ciphertext
            } else {
                vstd::array::spec_array_fill_for_copy_type::<u8, 32>(0u8)
            },
        ),
        spec_race_arguments(race, horses, random_seed)[20] == Argument::PlaintextU64(random_seed),
{
    lemma_horse_arguments_len(horses, 4);
    lemma_bet_arguments_len(race, 4);
    assert forall|k: int| 0 <= k < 4 implies spec_race_arguments(race, horses, random_seed)[3 * k]
        == Argument::PlaintextU8(#[trigger] horses[k].id) && spec_race_arguments(
        race,
        horses,
        random_seed,
    )[3 * k + 1] == Argument::PlaintextU8(horses[k].speed) && spec_race_arguments(
        race,
        horses,
        random_seed,
    )[3 * k + 2] == Argument::PlaintextU8(horses[k].stamina) by {
        lemma_horse_arguments_at(horses, 4, k);
    }
    let h = horse_arguments(horses, 4);
    let b = bet_arguments(race, 4);
    assert(spec_race_arguments(race, horses, random_seed) == h + b + seq![
        Argument::PlaintextU64(random_seed),
    ]);
    lemma_bet_arguments_at(race, 4, 0);
    lemma_bet_arguments_at(race, 4, 1);
    lemma_bet_arguments_at(race, 4, 2);
    lemma_bet_arguments_at(race, 4, 3);
    assert(forall|i: int| 0 <= i < 8 ==> (h + b)[12 + i] == #[trigger] b[i]);
}

} // verus!
