//! The accounts the betting program keeps, its events and its errors.
use vstd::prelude::*;

verus! {

/// The 32 bytes of an account's public key.
#[derive(Clone, Copy, PartialEq, Eq, Debug)]
pub struct AccountKey(pub [u8; 32]);

/// A horse account: who registered it, its stats and its name.
pub struct Horse {
    pub owner: AccountKey,
    pub id: u8,
    pub speed: u8,
    pub stamina: u8,
    pub name: String,
}

/// Where a race stands: taking bets, waiting for its computation, or resolved.
#[derive(Clone, Copy, PartialEq, Eq, Structural, Debug)]
pub enum RaceStatus {
    Open,
    Running,
    Completed,
}

/// A bet as the race account records it; the horse it is on stays encrypted.
#[derive(Clone, Copy)]
pub struct BetInfo {
    pub bettor: AccountKey,
    pub amount: u64,
    pub selection_ciphertext: [u8; 32],
}

/// A race account.
#[derive(Clone, Copy)]
pub struct Race {
    pub race_id: u64,
    pub status: RaceStatus,
    pub horses: [AccountKey; 4],
    pub bets: [BetInfo; 4],
    pub bet_count: u8,
    pub winner_id: u8,
    pub payouts: [u64; 4],
    pub random_seed: u64,
}

/// Emitted when a race's result arrives.
#[derive(Clone, Copy)]
pub struct RaceResolvedEvent {
    pub race_id: u64,
    pub winner_id: u8,
    pub payouts: [u64; 4],
}

/// An encrypted sum with its nonce.
#[derive(Clone, Copy)]
pub struct SumEvent {
    pub sum: [u8; 32],
    pub nonce: [u8; 16],
}

/// The program's errors.
#[derive(Clone, Copy, PartialEq, Eq, Structural, Debug)]
pub enum ErrorCode {
    AbortedComputation,
    ClusterNotSet,
    RaceNotOpen,
    RaceFull,
    NoBets,
}

/// A race account never records more than four bets.
pub open spec fn well_formed(race: Race) -> bool {
    race.bet_count <= 4
}

} // verus!
