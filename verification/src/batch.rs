//! A batch of independent games, played side by side and added up.

use crate::error::SimError;
use crate::game::{
    is_outcome_of, lemma_game_log_ascends, lemma_half_inning_at_most_index, play_game, GameResults,
};
use crate::matchup::Matchup;
use crate::plate::Play;
use rayon::iter::{IntoParallelIterator, ParallelIterator};
use vstd::hash_map::StringHashMap;
use vstd::prelude::*;

verus! {

/// The limit on the plate appearances of one game that `simulation` plays
/// with.
pub const PLATE_APPEARANCE_LIMIT: u32 = 100_000;

/// The number of games that a request for `games` games plays: none where
/// the request is negative.
pub open spec fn game_count(games: int) -> nat {
    if games > 0 {
        games as nat
    } else {
        0
    }
}

/// Whether `results` is what the games of a batch can come to: one entry
/// for each game, in the order of the games, each of them an outcome of its
/// game.
pub open spec fn is_batch(
    results: Seq<Result<GameResults, SimError>>,
    matchup: Matchup,
    games: nat,
    limit: nat,
) -> bool {
    &&& results.len() == games
    &&& forall|i: int|
        0 <= i < results.len() ==> #[trigger] is_outcome_of(results[i], matchup, i as nat, limit)
}

/// Why a game's result keeps the batch from being counted, if it does: the
/// game failed, or it has no winner.
pub open spec fn failure_of(r: Result<GameResults, SimError>) -> Option<SimError> {
    match r {
        Err(e) => Some(e),
        Ok(results) => if results.completed() {
            None
        } else {
            Some(SimError::Unresolved)
        },
    }
}

/// The failure of the first game that keeps the batch from being counted.
pub open spec fn first_failure(results: Seq<Result<GameResults, SimError>>) -> Option<SimError>
    decreases results.len(),
{
    if results.len() == 0 {
        None
    } else {
        match first_failure(results.drop_last()) {
            Some(e) => Some(e),
            None => failure_of(results.last()),
        }
    }
}

/// The number of games that a side has won.
pub open spec fn wins(results: Seq<Result<GameResults, SimError>>, away: bool) -> nat
    decreases results.len(),
{
    if results.len() == 0 {
        0
    } else {
        wins(results.drop_last(), away) + match results.last() {
            Ok(game) => if (away && game.away_win) || (!away && game.home_win) {
                1nat
            } else {
                0nat
            },
            Err(_) => 0nat,
        }
    }
}

/// The logs of all games, one game after the other.
pub open spec fn combined_log(results: Seq<Result<GameResults, SimError>>) -> Seq<Play>
    decreases results.len(),
{
    if results.len() == 0 {
        Seq::empty()
    } else {
        combined_log(results.drop_last()) + match results.last() {
            Ok(game) => game.game_outcome@,
            Err(_) => Seq::empty(),
        }
    }
}

/// Whether a log keeps each game's plays in the order in which they were
/// played: of two plays of one game, the later one does not lie in an
/// earlier half-inning.
pub open spec fn chronological(plays: Seq<Play>) -> bool {
    forall|j: int, k: int|
        0 <= j <= k < plays.len() && plays[j].game == plays[k].game ==> plays[j].half_inning
            <= plays[k].half_inning
}

/// Whether every play of a log lies in one of the first `bound`
/// half-innings of its game.
pub open spec fn within_half_innings(plays: Seq<Play>, bound: nat) -> bool {
    forall|k: int| 0 <= k < plays.len() ==> (#[trigger] plays[k]).half_inning < bound
}

/// Whether a log holds the games one after the other, in the order of
/// their numbers.
pub open spec fn grouped_by_game(plays: Seq<Play>) -> bool {
    forall|j: int, k: int| 0 <= j <= k < plays.len() ==> plays[j].game <= plays[k].game
}

/// The wins of both sides and the play-by-play log of a batch.
#[derive(Debug, Clone, PartialEq, Eq)]
pub struct Tally {
    /// The number of games that the home side won.
    pub home_wins: usize,
    /// The number of games that the away side won.
    pub away_wins: usize,
    /// The logs of all games, one game after the other.
    pub plays: Vec<Play>,
}

/// Whether `r` is what adding up `results` gives: the first failure where
/// there is one, and else the wins of both sides and the combined log.
pub open spec fn is_tally_of(
    r: Result<Tally, SimError>,
    results: Seq<Result<GameResults, SimError>>,
) -> bool {
    match first_failure(results) {
        Some(e) => r == Err::<Tally, SimError>(e),
        None => r matches Ok(tally) && tally.home_wins == wins(results, false) && tally.away_wins
            == wins(results, true) && tally.plays@ == combined_log(results),
    }
}

/// rayon's `into_par_iter` on a range of game numbers, `map` and `collect`
/// into a `Vec`: every game of the batch is played by `play_game`, on
/// whichever thread takes it, and the results stand in the order of the
/// game numbers.
#[verifier::external_body]
fn play_games(matchup: &Matchup, games: u32, limit: u32) -> (results: Vec<
    Result<GameResults, SimError>,
>)
    ensures
        is_batch(results@, *matchup, games as nat, limit as nat),
{
    (0..games).into_par_iter().map(|game| play_game(matchup, game, limit)).collect()
}

/// The combined log of a batch holds the games in the order of their
/// numbers, and each game's plays in the order in which they were played.
pub proof fn lemma_combined_log_ordered(
    results: Seq<Result<GameResults, SimError>>,
    matchup: Matchup,
    limit: nat,
)
    requires
        is_batch(results, matchup, results.len(), limit),
    ensures
        chronological(combined_log(results)),
        grouped_by_game(combined_log(results)),
        forall|k: int|
            0 <= k < combined_log(results).len() ==> (#[trigger] combined_log(results)[k]).game
                < results.len(),
        within_half_innings(combined_log(results), limit),
    decreases results.len(),
{
    if results.len() > 0 {
        let front = results.drop_last();
        let last: int = results.len() - 1;
        assert forall|i: int| 0 <= i < front.len() implies #[trigger] is_outcome_of(
            front[i],
            matchup,
            i as nat,
            limit,
        ) by {
            assert(is_outcome_of(results[i], matchup, i as nat, limit));
        }
        lemma_combined_log_ordered(front, matchup, limit);
        let head = combined_log(front);
        let tail = match results.last() {
            Ok(game) => game.game_outcome@,
            Err(_) => Seq::empty(),
        };
        let log = combined_log(results);
        assert(log == head + tail);
        assert(is_outcome_of(results[last], matchup, last as nat, limit));
        assert forall|k: int| head.len() <= k < log.len() implies (#[trigger] log[k]).game
            == last && log[k].half_inning < limit by {
            let at: int = k - head.len();
            assert(log[k] == tail[at]);
            lemma_game_log_ascends(matchup, tail, last as nat, at, at);
            lemma_half_inning_at_most_index(matchup, tail, last as nat, at);
        }
        assert forall|k: int| 0 <= k < head.len() implies (#[trigger] log[k]).game < last
            && log[k].half_inning < limit by {
            assert(log[k] == head[k]);
        }
        assert forall|j: int, k: int|
            0 <= j <= k < log.len() && log[j].game == log[k].game implies log[j].half_inning
            <= log[k].half_inning by {
            if k < head.len() {
                assert(log[j] == head[j] && log[k] == head[k]);
            } else if j >= head.len() {
                assert(log[j] == tail[j - head.len()] && log[k] == tail[k - head.len()]);
                lemma_game_log_ascends(matchup, tail, last as nat, j - head.len(), k - head.len());
            }
        }
        assert forall|j: int, k: int| 0 <= j <= k < log.len() implies log[j].game
            <= log[k].game by {
            if k < head.len() {
                assert(log[j] == head[j] && log[k] == head[k]);
            }
        }
    }
}

/// Where every game of a batch has a winner, the wins of the two sides add
/// up to the number of games.
pub proof fn lemma_wins_add_up(
    results: Seq<Result<GameResults, SimError>>,
    matchup: Matchup,
    limit: nat,
)
    requires
        is_batch(results, matchup, results.len(), limit),
        first_failure(results).is_none(),
    ensures
        wins(results, false) + wins(results, true) == results.len(),
    decreases results.len(),
{
    if results.len() > 0 {
        let front = results.drop_last();
        let last: int = results.len() - 1;
        assert forall|i: int| 0 <= i < front.len() implies #[trigger] is_outcome_of(
            front[i],
            matchup,
            i as nat,
            limit,
        ) by {
            assert(is_outcome_of(results[i], matchup, i as nat, limit));
        }
        lemma_wins_add_up(front, matchup, limit);
        assert(is_outcome_of(results[last], matchup, last as nat, limit));
    }
}

/// A failure that follows games without failure is the first failure of
/// the batch.
pub proof fn lemma_first_failure_found(
    results: Seq<Result<GameResults, SimError>>,
    i: int,
    e: SimError,
)
    requires
        0 <= i < results.len(),
        first_failure(results.take(i)).is_none(),
        failure_of(results[i]) == Some(e),
    ensures
        first_failure(results) == Some(e),
    decreases results.len(),
{
    if i == results.len() - 1 {
        assert(results.drop_last() =~= results.take(i));
    } else {
        assert(results.drop_last().take(i) =~= results.take(i));
        lemma_first_failure_found(results.drop_last(), i, e);
    }
}

/// Adds up the results of a batch. The first game that failed or has no
/// winner makes the whole batch fail; otherwise the wins of both sides are
/// counted and the logs are joined, one game after the other.
pub fn tally(results: Vec<Result<GameResults, SimError>>) -> (r: Result<Tally, SimError>)
    ensures
        is_tally_of(r, results@),
{
    let total: usize = results.len();
    let mut home_wins: usize = 0;
    let mut away_wins: usize = 0;
    let mut i: usize = 0;
    proof {
        assert(results@.take(0) =~= Seq::empty());
    }
    while i < total
        invariant
            total == results.len(),
            i <= total,
            first_failure(results@.take(i as int)).is_none(),
            home_wins == wins(results@.take(i as int), false),
            away_wins == wins(results@.take(i as int), true),
            home_wins <= i,
            away_wins <= i,
        decreases total - i,
    {
        proof {
            assert(results@.take(i + 1).drop_last() =~= results@.take(i as int));
            assert(results@.take(i + 1).last() == results@[i as int]);
        }
        match &results[i] {
            Err(e) => {
                proof {
                    lemma_first_failure_found(results@, i as int, *e);
                }
                return Err(*e);
            },
            Ok(game) => {
                if !game.home_win && !game.away_win {
                    proof {
                        lemma_first_failure_found(results@, i as int, SimError::Unresolved);
                    }
                    return Err(SimError::Unresolved);
                }
                if game.home_win {
                    home_wins = home_wins + 1;
                }
                if game.away_win {
                    away_wins = away_wins + 1;
                }
            },
        }
        i = i + 1;
    }
    proof {
        assert(results@.take(total as int) =~= results@);
    }
    let plays: Vec<Play> = join_logs(results);
    Ok(Tally { home_wins, away_wins, plays })
}

/// Joins the logs of all games that have one, one game after the other.
fn join_logs(results: Vec<Result<GameResults, SimError>>) -> (plays: Vec<Play>)
    ensures
        plays@ == combined_log(results@),
{
    let ghost all = results@;
    let total: usize = results.len();
    let mut rest: Vec<Result<GameResults, SimError>> = results;
    let mut stack: Vec<Result<GameResults, SimError>> = Vec::new();
    while rest.len() > 0
        invariant
            total == all.len(),
            stack.len() + rest.len() == total,
            rest@ =~= all.take(rest.len() as int),
            forall|j: int| 0 <= j < stack.len() ==> stack[j] == all[total - 1 - j],
        decreases rest.len(),
    {
        let last = rest.pop().unwrap();
        stack.push(last);
    }
    let mut plays: Vec<Play> = Vec::new();
    let mut i: usize = 0;
    proof {
        assert(all.take(0) =~= Seq::empty());
    }
    while stack.len() > 0
        invariant
            total == all.len(),
            i + stack.len() == total,
            forall|j: int| 0 <= j < stack.len() ==> stack[j] == all[total - 1 - j],
            plays@ == combined_log(all.take(i as int)),
        decreases stack.len(),
    {
        let next = stack.pop().unwrap();
        proof {
            assert(next == all[i as int]);
            assert(all.take(i + 1).drop_last() =~= all.take(i as int));
            assert(all.take(i + 1).last() == all[i as int]);
        }
        match next {
            Ok(game) => {
                let mut log: Vec<Play> = game.game_outcome;
                plays.append(&mut log);
            },
            Err(_) => {
                assert(plays@ + Seq::<Play>::empty() =~= plays@);
            },
        }
        i = i + 1;
    }
    proof {
        assert(all.take(total as int) =~= all);
    }
    plays
}

/// The lines of a play-by-play log.
pub fn log_lines(plays: &Vec<Play>) -> (lines: Vec<String>)
    ensures
        is_text_of(lines@, plays@),
{
    let mut lines: Vec<String> = Vec::new();
    let mut i: usize = 0;
    while i < plays.len()
        invariant
            i <= plays.len(),
            lines.len() == i,
            forall|k: int| 0 <= k < i ==> lines[k]@ == plays[k].line_spec(),
        decreases plays.len() - i,
    {
        lines.push(plays[i].line());
        i = i + 1;
    }
    lines
}

/// Whether `lines` are the lines of a log, play by play.
pub open spec fn is_text_of(lines: Seq<String>, plays: Seq<Play>) -> bool {
    &&& lines.len() == plays.len()
    &&& forall|k: int| 0 <= k < lines.len() ==> (#[trigger] lines[k])@ == plays[k].line_spec()
}

/// Whether `r` is what a batch of `games` games of a matchup can come to:
/// the tally of results that the games can have.
pub open spec fn is_simulation_of(
    r: Result<Tally, SimError>,
    matchup: Matchup,
    games: nat,
    limit: nat,
) -> bool {
    exists|results: Seq<Result<GameResults, SimError>>| #[trigger]
        is_batch(results, matchup, games, limit) && is_tally_of(r, results)
}

/// Plays `games` games of a matchup, each of at most `limit` plate
/// appearances, and adds them up. A request for no games, or for a negative
/// number of games, plays none.
///
/// The batch fails as a whole with the failure of the first game that
/// failed or was not decided within the limit. Otherwise every game has
/// exactly one winner, so the wins add up to the number of games, and the
/// log holds the games in the order of their numbers, each in the order in
/// which it was played.
pub fn simulate(matchup: &Matchup, games: i32, limit: u32) -> (r: Result<Tally, SimError>)
    ensures
        is_simulation_of(r, *matchup, game_count(games as int), limit as nat),
        r matches Ok(tally) ==> {
            &&& tally.home_wins + tally.away_wins == game_count(games as int)
            &&& chronological(tally.plays@)
            &&& grouped_by_game(tally.plays@)
            &&& within_half_innings(tally.plays@, limit as nat)
        },
        r matches Err(e) ==> matchup.covers() ==> e == SimError::Unresolved,
{
    let count: u32 = if games > 0 {
        games as u32
    } else {
        0
    };
    let results = play_games(matchup, count, limit);
    proof {
        lemma_combined_log_ordered(results@, *matchup, limit as nat);
        if first_failure(results@).is_none() {
            lemma_wins_add_up(results@, *matchup, limit as nat);
        } else if matchup.covers() {
            lemma_failure_is_of_some_game(results@, *matchup, limit as nat);
        }
    }
    tally(results)
}

/// The first failure of a batch whose matchup covers every plate appearance
/// is that of a game without a winner.
pub proof fn lemma_failure_is_of_some_game(
    results: Seq<Result<GameResults, SimError>>,
    matchup: Matchup,
    limit: nat,
)
    requires
        is_batch(results, matchup, results.len(), limit),
        matchup.covers(),
    ensures
        first_failure(results) matches Some(e) ==> e == SimError::Unresolved,
    decreases results.len(),
{
    if results.len() > 0 {
        let front = results.drop_last();
        let last: int = results.len() - 1;
        assert forall|i: int| 0 <= i < front.len() implies #[trigger] is_outcome_of(
            front[i],
            matchup,
            i as nat,
            limit,
        ) by {
            assert(is_outcome_of(results[i], matchup, i as nat, limit));
        }
        lemma_failure_is_of_some_game(front, matchup, limit);
        assert(is_outcome_of(results[last], matchup, last as nat, limit));
    }
}

/// Whether `r` reports a tally: its failure, or its wins and the lines of
/// its log.
pub open spec fn is_report_of(
    r: Result<(i32, i32, Vec<String>), SimError>,
    tally: Result<Tally, SimError>,
) -> bool {
    match tally {
        Err(e) => r == Err::<(i32, i32, Vec<String>), SimError>(e),
        Ok(counted) => r matches Ok((home_wins, away_wins, log)) && home_wins == counted.home_wins
            && away_wins == counted.away_wins && is_text_of(log@, counted.plays@),
    }
}

/// Simulates `games` games between two lineups and reports the wins of the
/// home side, the wins of the away side and the play-by-play log of all
/// games, line by line.
///
/// `transition` is the league's matrix, `batter_trans` holds each batter's
/// matrix by name, `pitcher_trans` the home pitcher's matrix and then the
/// away pitcher's, `lineups` the home lineup and then the away lineup. The
/// three tables hold, by transition key, the runs of a transition, the plays
/// it can stand for and their weights. Each game is played with a limit of
/// `PLATE_APPEARANCE_LIMIT` plate appearances.
///
/// The report is that of a tally of the batch. In a report of success the
/// wins add up to the number of games, and the log is the text of a log
/// that holds every game's plays together and in the order in which they
/// were played.
pub fn simulation(
    games: i32,
    year: i16,
    transition: Vec<Vec<i64>>,
    batter_trans: StringHashMap<Vec<Vec<i64>>>,
    pitcher_trans: Vec<Vec<Vec<i64>>>,
    lineups: Vec<Vec<String>>,
    run_dict: StringHashMap<u8>,
    outcome_dict: StringHashMap<Vec<String>>,
    probs_dict: StringHashMap<Vec<i64>>,
) -> (r: Result<(i32, i32, Vec<String>), SimError>)
    ensures
        exists|tally: Result<Tally, SimError>| #[trigger]
            is_simulation_of(
                tally,
                (Matchup {
                    year,
                    transition,
                    batter_trans,
                    pitcher_trans,
                    lineups,
                    run_dict,
                    outcome_dict,
                    probs_dict,
                }),
                game_count(games as int),
                PLATE_APPEARANCE_LIMIT as nat,
            ) && is_report_of(r, tally),
        r matches Ok((home_wins, away_wins, log)) ==> {
            &&& home_wins >= 0
            &&& away_wins >= 0
            &&& home_wins + away_wins == game_count(games as int)
            &&& exists|plays: Seq<Play>| #[trigger]
                is_text_of(log@, plays) && chronological(plays) && grouped_by_game(plays)
                    && within_half_innings(plays, PLATE_APPEARANCE_LIMIT as nat)
        },
{
    let matchup = Matchup {
        year,
        transition,
        batter_trans,
        pitcher_trans,
        lineups,
        run_dict,
        outcome_dict,
        probs_dict,
    };
    let counted: Result<Tally, SimError> = simulate(&matchup, games, PLATE_APPEARANCE_LIMIT);
    match counted {
        Err(e) => {
            assert(is_report_of(Err(e), counted));
            Err(e)
        },
        Ok(tally) => {
            let log: Vec<String> = log_lines(&tally.plays);
            let home_wins: i32 = tally.home_wins as i32;
            let away_wins: i32 = tally.away_wins as i32;
            assert(is_report_of(Ok((home_wins, away_wins, log)), counted));
            Ok((home_wins, away_wins, log))
        },
    }
}

} // verus!
