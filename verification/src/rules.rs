//! The rules of the game: where a half-inning starts, who bats, when a game
//! is over.
//!
//! Half-innings are counted from zero. The away side bats in the even ones,
//! the home side in the odd ones; two of them make an inning.

use vstd::prelude::*;

verus! {

/// The state in which a half-inning is over.
pub const TERMINAL_STATE: u8 = 25;

/// The number of states in which a batter comes up.
pub const ACTIVE_STATES: u8 = 24;

/// The number of weights in a transition row, one for each state that can
/// follow.
pub const ROW_LENGTH: usize = 25;

/// The number of batters in a lineup.
pub const LINEUP_SIZE: u32 = 9;

/// The state of empty bases and no outs.
pub const BASES_EMPTY: u8 = 1;

/// The state of a runner on second base and no outs.
pub const RUNNER_ON_SECOND: u8 = 3;

/// The last season in which every half-inning began with empty bases.
pub const LAST_SEASON_WITHOUT_EXTRA_RUNNER: i16 = 2019;

/// The first half-inning that begins with a runner on second base.
pub const FIRST_HALF_WITH_EXTRA_RUNNER: u32 = 20;

/// The last half-inning in which no game can end.
pub const LAST_REGULATION_HALF: u32 = 18;

/// The state in which a half-inning begins.
pub open spec fn start_state_spec(half_inning: nat, year: int) -> nat {
    if half_inning >= 20 && year > 2019 {
        3
    } else {
        1
    }
}

/// Whether the away side bats in a half-inning.
pub open spec fn away_bats_spec(half_inning: nat) -> bool {
    half_inning % 2 == 0
}

/// Whether a game is over after a plate appearance in `half_inning` that led
/// to `post_state`, with the runs of that plate appearance already counted.
/// Past the regulation half-innings the home side wins as soon as it leads,
/// and the away side wins when it leads at the end of a half-inning.
pub open spec fn game_over_spec(home_runs: int, away_runs: int, half_inning: nat, post_state: nat) -> bool {
    half_inning > 18 && (home_runs > away_runs || (home_runs < away_runs && post_state == 25))
}

/// The state in which a half-inning begins: a runner on second base from the
/// twentieth half-inning on in seasons after 2019, empty bases otherwise.
pub fn start_state(half_inning: u32, year: i16) -> (state: u8)
    ensures
        state == start_state_spec(half_inning as nat, year as int),
        state == BASES_EMPTY || state == RUNNER_ON_SECOND,
        1 <= state <= ACTIVE_STATES,
{
    if half_inning >= FIRST_HALF_WITH_EXTRA_RUNNER && year > LAST_SEASON_WITHOUT_EXTRA_RUNNER {
        RUNNER_ON_SECOND
    } else {
        BASES_EMPTY
    }
}

/// Whether the away side bats in a half-inning.
pub fn away_bats(half_inning: u32) -> (away: bool)
    ensures
        away == away_bats_spec(half_inning as nat),
{
    half_inning % 2 == 0
}

/// Whether a game is over after a plate appearance.
pub fn game_over(home_runs: u64, away_runs: u64, half_inning: u32, post_state: u8) -> (over: bool)
    ensures
        over == game_over_spec(
            home_runs as int,
            away_runs as int,
            half_inning as nat,
            post_state as nat,
        ),
{
    half_inning > LAST_REGULATION_HALF && (home_runs > away_runs || (home_runs < away_runs
        && post_state == TERMINAL_STATE))
}

/// No game ends in a tie: when a game is over, one side has more runs than
/// the other.
pub proof fn lemma_no_tie_when_over(home_runs: int, away_runs: int, half_inning: nat, post_state: nat)
    requires
        game_over_spec(home_runs, away_runs, half_inning, post_state),
    ensures
        home_runs != away_runs,
{
}

/// From the twentieth half-inning on, a half-inning of a season after 2019
/// begins with a runner on second base, and one of an earlier season with
/// empty bases.
pub proof fn lemma_extra_inning_start(half_inning: nat, year: int)
    requires
        half_inning >= 20,
    ensures
        year > 2019 ==> start_state_spec(half_inning, year) == 3,
        year <= 2019 ==> start_state_spec(half_inning, year) == 1,
{
}

} // verus!
