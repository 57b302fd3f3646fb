//! One game: plate appearance after plate appearance until a side has won.

use crate::error::SimError;
use crate::matchup::Matchup;
use crate::plate::Play;
use crate::rules::{
    away_bats, away_bats_spec, game_over, game_over_spec, start_state, start_state_spec,
    TERMINAL_STATE,
};
use vstd::prelude::*;

verus! {

/// The runs that a side has scored in the plays of a log.
pub open spec fn runs_scored(plays: Seq<Play>, away: bool) -> int
    decreases plays.len(),
{
    if plays.len() == 0 {
        0
    } else if away_bats_spec(plays.last().half_inning as nat) == away {
        runs_scored(plays.drop_last(), away) + plays.last().runs
    } else {
        runs_scored(plays.drop_last(), away)
    }
}

/// The number of plate appearances that a side has had in the plays of a
/// log.
pub open spec fn appearances(plays: Seq<Play>, away: bool) -> nat
    decreases plays.len(),
{
    if plays.len() == 0 {
        0
    } else if away_bats_spec(plays.last().half_inning as nat) == away {
        appearances(plays.drop_last(), away) + 1
    } else {
        appearances(plays.drop_last(), away)
    }
}

/// The half-inning and the state in which the next batter comes up after
/// the plays of a log: those of the first batter where the log is empty, the
/// start of the next half-inning where the last play ended one, and else
/// the state that the last play led to.
pub open spec fn position_after(plays: Seq<Play>, year: int) -> (nat, nat) {
    if plays.len() == 0 {
        (0, start_state_spec(0, year))
    } else if plays.last().post_state == 25 {
        (
            (plays.last().half_inning + 1) as nat,
            start_state_spec((plays.last().half_inning + 1) as nat, year),
        )
    } else {
        (plays.last().half_inning as nat, plays.last().post_state as nat)
    }
}

/// Whether the game is over after the last play of a log.
pub open spec fn decided(plays: Seq<Play>) -> bool {
    plays.len() > 0 && game_over_spec(
        runs_scored(plays, false),
        runs_scored(plays, true),
        plays.last().half_inning as nat,
        plays.last().post_state as nat,
    )
}

/// Whether `play` can come next in game `game` after the plays `before`: the
/// game is not over, and the play is what the batter whose turn it is can
/// record at the position that the earlier plays have led to.
pub open spec fn follows(matchup: Matchup, before: Seq<Play>, play: Play, game: nat) -> bool {
    let position = position_after(before, matchup.year as int);
    let away = away_bats_spec(position.0);
    &&& !decided(before)
    &&& play.game == game
    &&& play.half_inning == position.0
    &&& matchup.may_record(play, away, appearances(before, away), position.1)
}

/// Whether `plays` is the log of a game as far as it was played: each play
/// follows those before it.
pub open spec fn is_game_log(matchup: Matchup, plays: Seq<Play>, game: nat) -> bool {
    forall|k: int| 0 <= k < plays.len() ==> #[trigger] follows(matchup, plays.take(k), plays[k], game)
}

/// Whether a game can fail with `e`: after some log of the game that has not
/// decided it and is shorter than `limit`, the next plate appearance can
/// fail with `e`.
pub open spec fn game_may_fail(matchup: Matchup, game: nat, limit: nat, e: SimError) -> bool {
    exists|plays: Seq<Play>| #[trigger]
        is_game_log(matchup, plays, game) && !decided(plays) && plays.len() < limit && {
            let position = position_after(plays, matchup.year as int);
            let away = away_bats_spec(position.0);
            matchup.may_fail(e, away, appearances(plays, away), position.1)
        }
}

/// What one game came to.
#[derive(Debug, Clone, PartialEq, Eq)]
pub struct GameResults {
    /// Whether the home side won.
    pub home_win: bool,
    /// Whether the away side won.
    pub away_win: bool,
    /// The runs of the home side.
    pub home_runs: u64,
    /// The runs of the away side.
    pub away_runs: u64,
    /// The plate appearances of the game, in the order in which they were
    /// played.
    pub game_outcome: Vec<Play>,
}

impl GameResults {
    /// Whether one of the sides won. A game that reached the limit on plate
    /// appearances first has no winner.
    pub open spec fn completed(self) -> bool {
        self.home_win || self.away_win
    }

    /// Whether this is what game `game` of a matchup can come to under a
    /// limit on plate appearances: the log is a log of the game, it ends
    /// with the play that decided the game or at the limit, the runs are
    /// those of the log, and the side with more runs has won where the game
    /// was decided.
    pub open spec fn is_result_of(self, matchup: Matchup, game: nat, limit: nat) -> bool {
        &&& is_game_log(matchup, self.game_outcome@, game)
        &&& self.game_outcome@.len() <= limit
        &&& decided(self.game_outcome@) || self.game_outcome@.len() == limit
        &&& self.home_runs == runs_scored(self.game_outcome@, false)
        &&& self.away_runs == runs_scored(self.game_outcome@, true)
        &&& self.home_win == (decided(self.game_outcome@) && self.home_runs > self.away_runs)
        &&& self.away_win == (decided(self.game_outcome@) && self.away_runs > self.home_runs)
    }
}

/// A game that has a winner has exactly one, and its two sides have not
/// scored the same number of runs.
pub proof fn lemma_one_winner(results: GameResults, matchup: Matchup, game: nat, limit: nat)
    requires
        results.is_result_of(matchup, game, limit),
        results.completed(),
    ensures
        results.home_win != results.away_win,
        results.home_runs != results.away_runs,
        results.home_win <==> results.home_runs > results.away_runs,
{
}

/// Whether `r` is what playing game `game` of a matchup can give under a
/// limit on plate appearances.
pub open spec fn is_outcome_of(
    r: Result<GameResults, SimError>,
    matchup: Matchup,
    game: nat,
    limit: nat,
) -> bool {
    &&& matchup.covers() ==> r.is_ok()
    &&& match r {
        Ok(results) => results.is_result_of(matchup, game, limit),
        Err(e) => game_may_fail(matchup, game, limit, e),
    }
}

/// A log with one more play holds the earlier plays' runs and appearances,
/// and those of the new play for the side that batted.
proof fn lemma_push_play(plays: Seq<Play>, play: Play, away: bool)
    ensures
        runs_scored(plays.push(play), away) == runs_scored(plays, away) + if away_bats_spec(
            play.half_inning as nat,
        ) == away {
            play.runs as int
        } else {
            0
        },
        appearances(plays.push(play), away) == appearances(plays, away) + if away_bats_spec(
            play.half_inning as nat,
        ) == away {
            1nat
        } else {
            0nat
        },
{
    assert(plays.push(play).drop_last() =~= plays);
    assert(plays.push(play).last() == play);
}

/// A game log with a play that follows it is a game log.
proof fn lemma_extend_log(matchup: Matchup, plays: Seq<Play>, play: Play, game: nat)
    requires
        is_game_log(matchup, plays, game),
        follows(matchup, plays, play, game),
    ensures
        is_game_log(matchup, plays.push(play), game),
{
    let longer = plays.push(play);
    assert forall|k: int| 0 <= k < longer.len() implies #[trigger] follows(
        matchup,
        longer.take(k),
        longer[k],
        game,
    ) by {
        if k < plays.len() {
            assert(longer.take(k) =~= plays.take(k));
            assert(longer[k] == plays[k]);
            assert(follows(matchup, plays.take(k), plays[k], game));
        } else {
            assert(longer.take(k) =~= plays);
        }
    }
}

/// In a game log no play lies in an earlier half-inning than a play before
/// it, and every play belongs to the game.
pub proof fn lemma_game_log_ascends(matchup: Matchup, plays: Seq<Play>, game: nat, j: int, k: int)
    requires
        is_game_log(matchup, plays, game),
        0 <= j <= k < plays.len(),
    ensures
        plays[j].half_inning <= plays[k].half_inning,
        plays[j].game == game,
        plays[k].game == game,
    decreases k - j,
{
    assert(follows(matchup, plays.take(j), plays[j], game));
    assert(follows(matchup, plays.take(k), plays[k], game));
    if j < k {
        lemma_game_log_ascends(matchup, plays, game, j, k - 1);
        assert(plays.take(k).last() == plays[k - 1]);
        assert(position_after(plays.take(k), matchup.year as int).0 >= plays[k - 1].half_inning);
    }
}

/// Every half-inning of a game log holds a play: the play at position `k`
/// lies in half-inning `k` at the latest.
pub proof fn lemma_half_inning_at_most_index(matchup: Matchup, plays: Seq<Play>, game: nat, k: int)
    requires
        is_game_log(matchup, plays, game),
        0 <= k < plays.len(),
    ensures
        plays[k].half_inning <= k,
    decreases k,
{
    assert(follows(matchup, plays.take(k), plays[k], game));
    if k > 0 {
        lemma_half_inning_at_most_index(matchup, plays, game, k - 1);
        assert(plays.take(k).last() == plays[k - 1]);
    }
}

/// Plays game number `game` of a matchup until a side has won, or until
/// `limit` plate appearances have been played.
///
/// The game begins in half-inning zero. A plate appearance that ends a
/// half-inning is followed by the first batter of the next one; the game
/// ends with the first plate appearance after which it is over. Where the
/// matchup covers every plate appearance the game cannot fail.
pub fn play_game(matchup: &Matchup, game: u32, limit: u32) -> (r: Result<GameResults, SimError>)
    ensures
        is_outcome_of(r, *matchup, game as nat, limit as nat),
        r matches Ok(results) ==> results.completed() ==> results.home_runs != results.away_runs
            && results.home_win != results.away_win,
        r matches Ok(results) ==> forall|k: int|
            0 <= k < results.game_outcome.len() ==> (#[trigger] results.game_outcome[k]).half_inning
                <= k < limit,
{
    let mut plays: Vec<Play> = Vec::new();
    let mut half_inning: u32 = 0;
    let mut state: u8 = start_state(0, matchup.year);
    let mut home_runs: u64 = 0;
    let mut away_runs: u64 = 0;
    let mut home_turn: u32 = 0;
    let mut away_turn: u32 = 0;
    let mut played: u32 = 0;
    while played < limit
        invariant
            played <= limit,
            plays.len() == played,
            half_inning <= played,
            1 <= state <= 24,
            is_game_log(*matchup, plays@, game as nat),
            !decided(plays@),
            position_after(plays@, matchup.year as int) == (half_inning as nat, state as nat),
            home_runs == runs_scored(plays@, false),
            away_runs == runs_scored(plays@, true),
            home_runs <= 255 * played,
            away_runs <= 255 * played,
            home_turn == appearances(plays@, false),
            away_turn == appearances(plays@, true),
            home_turn <= played,
            away_turn <= played,
        decreases limit - played,
    {
        let away: bool = away_bats(half_inning);
        let turn: u32 = if away {
            away_turn
        } else {
            home_turn
        };
        let play: Play = match matchup.plate_appearance(turn, state, half_inning, game) {
            Ok(play) => play,
            Err(e) => {
                assert(game_may_fail(*matchup, game as nat, limit as nat, e));
                return Err(e);
            },
        };
        let post_state: u8 = play.post_state;
        let runs: u8 = play.runs;
        proof {
            assert(follows(*matchup, plays@, play, game as nat));
            lemma_extend_log(*matchup, plays@, play, game as nat);
            lemma_push_play(plays@, play, false);
            lemma_push_play(plays@, play, true);
        }
        plays.push(play);
        if away {
            away_runs = away_runs + runs as u64;
            away_turn = away_turn + 1;
        } else {
            home_runs = home_runs + runs as u64;
            home_turn = home_turn + 1;
        }
        played = played + 1;
        if game_over(home_runs, away_runs, half_inning, post_state) {
            let home_win: bool = home_runs > away_runs;
            proof {
                assert forall|k: int| 0 <= k < plays@.len() implies (#[trigger] plays@[k]).half_inning
                    <= k by {
                    lemma_half_inning_at_most_index(*matchup, plays@, game as nat, k);
                }
            }
            return Ok(
                GameResults {
                    home_win,
                    away_win: !home_win,
                    home_runs,
                    away_runs,
                    game_outcome: plays,
                },
            );
        }
        if post_state == TERMINAL_STATE {
            half_inning = half_inning + 1;
            state = start_state(half_inning, matchup.year);
        } else {
            state = post_state;
        }
    }
    proof {
        assert forall|k: int| 0 <= k < plays@.len() implies (#[trigger] plays@[k]).half_inning
            <= k by {
            lemma_half_inning_at_most_index(*matchup, plays@, game as nat, k);
        }
    }
    Ok(GameResults { home_win: false, away_win: false, home_runs, away_runs, game_outcome: plays })
}

} // verus!
