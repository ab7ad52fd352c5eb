//! Horse races whose outcome is computed by a confidential circuit and whose
//! bets and results are kept in race accounts.
//!
//! `circuits` holds the race computation itself, `horsebetting` the betting
//! program's instructions over the accounts in `state`, and `arguments` the
//! list of arguments that a race's computation is queued with.

pub mod arguments;
pub mod circuits;
pub mod horsebetting;
pub mod le_bytes;
pub mod rng;
pub mod state;

pub use horsebetting::{
    create_horse, create_race, place_bet, race_arguments, run_race, simulate_race_callback,
    HORSE_NAME_CAPACITY,
};
pub use state::{AccountKey, BetInfo, ErrorCode, Horse, Race, RaceResolvedEvent, RaceStatus, SumEvent};
