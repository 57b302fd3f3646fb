//! One plate appearance: the state that follows, the play that the
//! transition stands for, and what the log records of both.

use crate::blend::{blend_rows, blendable, blended_row};
use crate::error::SimError;
use crate::matchup::{Matchup, PlateRows};
use crate::rules::{away_bats, away_bats_spec, ROW_LENGTH};
use crate::sampler::{is_distribution, sample_index_from_weights, sample_or_fall_back};
use crate::text::{play_line, play_line_spec};
use vstd::prelude::*;

verus! {

/// The weights from which the next state is drawn: the numerators of the
/// blended row where it can be formed and is a distribution, else the league
/// row where that is a distribution.
pub open spec fn next_state_weights(
    batter: Seq<i64>,
    baseline: Seq<i64>,
    pitcher: Seq<i64>,
) -> Result<Seq<i64>, SimError> {
    if batter.len() != ROW_LENGTH || baseline.len() != ROW_LENGTH || pitcher.len() != ROW_LENGTH {
        Err(SimError::ShapeMismatch)
    } else if blendable(batter, baseline, pitcher) && is_distribution(
        blended_row(batter, baseline, pitcher),
    ) {
        Ok(blended_row(batter, baseline, pitcher))
    } else if is_distribution(baseline) {
        Ok(baseline)
    } else {
        Err(SimError::InvalidWeights)
    }
}

/// Draws the state that follows a plate appearance from its three rows.
///
/// Rows that do not hold one weight for each state give `ShapeMismatch`;
/// rows from which no state can be drawn give `InvalidWeights`. Otherwise
/// the state that comes back carries a positive weight in the row that
/// `next_state_weights` names.
pub fn next_state(rows: &PlateRows) -> (r: Result<u8, SimError>)
    ensures
        match next_state_weights(rows.batter@, rows.baseline@, rows.pitcher@) {
            Ok(weights) => r matches Ok(state) && 1 <= state <= 25 && weights[state - 1] > 0,
            Err(e) => r matches Err(x) && x == e,
        },
{
    if rows.batter.len() != ROW_LENGTH || rows.baseline.len() != ROW_LENGTH || rows.pitcher.len()
        != ROW_LENGTH {
        return Err(SimError::ShapeMismatch);
    }
    let blended: Option<Vec<i64>> = match blend_rows(rows.batter, rows.baseline, rows.pitcher) {
        Some(row) => Some(row.numerators),
        None => None,
    };
    match sample_or_fall_back(blended, rows.baseline) {
        Some(draw) => {
            let i: usize = draw.index();
            Ok((i + 1) as u8)
        },
        None => Err(SimError::InvalidWeights),
    }
}

/// One plate appearance as the play-by-play log records it.
#[derive(Debug, Clone, PartialEq, Eq)]
pub struct Play {
    /// The batter's name.
    pub batter: String,
    /// What happened, in words.
    pub description: String,
    /// The state in which the batter came up.
    pub pre_state: u8,
    /// The state that the plate appearance led to.
    pub post_state: u8,
    /// The half-inning, counted from zero.
    pub half_inning: u32,
    /// The game, counted from zero.
    pub game: u32,
    /// The runs that the batting side scored.
    pub runs: u8,
}

impl Play {
    /// The play's line in the play-by-play log.
    pub open spec fn line_spec(self) -> Seq<char> {
        play_line_spec(
            self.batter@,
            self.description@,
            self.pre_state as nat,
            self.post_state as nat,
            self.half_inning as nat,
            self.game as nat,
        )
    }

    /// The play's line in the play-by-play log: batter, description, state
    /// before, state after, inning and game, separated by dollar signs.
    pub fn line(&self) -> (text: String)
        ensures
            text@ == self.line_spec(),
    {
        play_line(
            self.batter.as_str(),
            self.description.as_str(),
            self.pre_state,
            self.post_state,
            self.half_inning,
            self.game,
        )
    }
}

/// Whether `text` is one of `plays` at a position of positive weight.
pub open spec fn may_read(plays: Seq<String>, weights: Seq<i64>, text: Seq<char>) -> bool {
    exists|j: int|
        0 <= j < plays.len() && j < weights.len() && weights[j] > 0 && #[trigger] plays[j]@ == text
}

/// Whether some position of positive weight has no play.
pub open spec fn may_lack_play(plays: Seq<String>, weights: Seq<i64>) -> bool {
    exists|j: int| plays.len() <= j < weights.len() && #[trigger] weights[j] > 0
}

/// Draws the description of a play from the plays that a transition can
/// stand for.
///
/// Weights that are no distribution give `InvalidWeights`. Otherwise a
/// position of positive weight is drawn: its play comes back, or
/// `ShapeMismatch` where the list of plays ends before it.
pub fn draw_play<'a>(plays: &'a Vec<String>, weights: &Vec<i64>) -> (r: Result<
    &'a String,
    SimError,
>)
    ensures
        !is_distribution(weights@) ==> r == Err::<&String, SimError>(SimError::InvalidWeights),
        is_distribution(weights@) ==> match r {
            Ok(text) => may_read(plays@, weights@, text@),
            Err(e) => e == SimError::ShapeMismatch && may_lack_play(plays@, weights@),
        },
        weights.len() <= plays.len() && is_distribution(weights@) ==> r.is_ok(),
{
    let copy: Vec<i64> = weights.clone();
    assert(copy@ =~= weights@);
    match sample_index_from_weights(copy) {
        None => Err(SimError::InvalidWeights),
        Some(j) => {
            if j < plays.len() {
                assert(plays@[j as int]@ == plays[j as int]@);
                Ok(&plays[j])
            } else {
                assert(weights@[j as int] > 0);
                Err(SimError::ShapeMismatch)
            }
        },
    }
}

impl Matchup {
    /// Whether `play` can be what the `turn`-th plate appearance of a side
    /// records when its batter comes up in `state`: the batter is the one
    /// whose turn it is, the state after carries a positive weight in the
    /// row that the next state is drawn from, the runs are those of the
    /// transition, and the description is one of its plays with a positive
    /// weight.
    pub open spec fn may_record(self, play: Play, away: bool, turn: nat, state: nat) -> bool {
        &&& self.has_batter(away, turn)
        &&& play.batter@ == self.batter_name(away, turn)
        &&& play.pre_state == state
        &&& 1 <= play.post_state <= 25
        &&& self.state_weights(play.batter@, away, state as int) matches Ok(weights)
            && weights[play.post_state - 1] > 0
        &&& self.has_outcomes(state, play.post_state as nat)
        &&& play.runs == self.runs_of(state, play.post_state as nat)
        &&& may_read(
            self.plays_of(state, play.post_state as nat),
            self.play_weights_of(state, play.post_state as nat),
            play.description@,
        )
    }

    /// Whether drawing a play for a transition can fail with `e`.
    pub open spec fn outcome_may_fail(self, e: SimError, pre_state: nat, post_state: nat) -> bool {
        if !self.has_outcomes(pre_state, post_state) {
            e == SimError::MissingKey
        } else if !is_distribution(self.play_weights_of(pre_state, post_state)) {
            e == SimError::InvalidWeights
        } else {
            e == SimError::ShapeMismatch && may_lack_play(
                self.plays_of(pre_state, post_state),
                self.play_weights_of(pre_state, post_state),
            )
        }
    }

    /// Whether the `turn`-th plate appearance of a side can fail with `e`
    /// when its batter comes up in `state`.
    pub open spec fn may_fail(self, e: SimError, away: bool, turn: nat, state: nat) -> bool {
        if !self.has_batter(away, turn) {
            e == SimError::ShapeMismatch
        } else {
            match self.state_weights(self.batter_name(away, turn), away, state as int) {
                Err(x) => e == x,
                Ok(weights) => exists|post_state: nat|
                    1 <= post_state <= 25 && weights[post_state - 1] > 0
                        && #[trigger] self.outcome_may_fail(e, state, post_state),
            }
        }
    }

    /// A plate appearance that the matchup covers cannot fail.
    pub proof fn lemma_covered_cannot_fail(self, e: SimError, away: bool, turn: nat, state: nat)
        requires
            self.covers(),
            1 <= state <= 24,
        ensures
            !self.may_fail(e, away, turn, state),
    {
        let slot: nat = turn % 9;
        assert(self.covers_plate_appearance(away, slot, state));
        assert(slot % 9 == slot);
        assert(self.has_batter(away, turn));
        assert(self.batter_name(away, turn) == self.batter_name(away, slot));
        if self.may_fail(e, away, turn, state) {
            let weights = self.state_weights(self.batter_name(away, turn), away, state as int)->Ok_0;
            let post_state = choose|post_state: nat|
                1 <= post_state <= 25 && weights[post_state - 1] > 0
                    && #[trigger] self.outcome_may_fail(e, state, post_state);
            assert(self.outcomes_complete(state, post_state));
        }
    }

    /// Plays one plate appearance: finds the batter whose turn it is, draws
    /// the state that follows and the play that the transition stands for,
    /// and records them.
    ///
    /// The side that bats is the one whose half-inning it is, and `turn`
    /// counts the plate appearances that it has had before. What comes back
    /// is a play that the plate appearance may record, or a failure that it
    /// may end in. It cannot fail in an active state of a matchup that
    /// covers every plate appearance.
    pub fn plate_appearance(&self, turn: u32, state: u8, half_inning: u32, game: u32) -> (r: Result<
        Play,
        SimError,
    >)
        ensures
            self.covers() && 1 <= state <= 24 ==> r.is_ok(),
            match r {
                Ok(play) => {
                    &&& play.half_inning == half_inning
                    &&& play.game == game
                    &&& self.may_record(
                        play,
                        away_bats_spec(half_inning as nat),
                        turn as nat,
                        state as nat,
                    )
                },
                Err(e) => self.may_fail(
                    e,
                    away_bats_spec(half_inning as nat),
                    turn as nat,
                    state as nat,
                ),
            },
    {
        let r = self.draw_plate_appearance(turn, state, half_inning, game);
        proof {
            if let Err(e) = r {
                if self.covers() && 1 <= state <= 24 {
                    self.lemma_covered_cannot_fail(
                        e,
                        away_bats_spec(half_inning as nat),
                        turn as nat,
                        state as nat,
                    );
                }
            }
        }
        r
    }

    /// The draws and lookups of one plate appearance.
    fn draw_plate_appearance(&self, turn: u32, state: u8, half_inning: u32, game: u32) -> (r: Result<
        Play,
        SimError,
    >)
        ensures
            match r {
                Ok(play) => {
                    &&& play.half_inning == half_inning
                    &&& play.game == game
                    &&& self.may_record(
                        play,
                        away_bats_spec(half_inning as nat),
                        turn as nat,
                        state as nat,
                    )
                },
                Err(e) => self.may_fail(
                    e,
                    away_bats_spec(half_inning as nat),
                    turn as nat,
                    state as nat,
                ),
            },
    {
        let away: bool = away_bats(half_inning);
        let batter: &String = self.batter_up(away, turn)?;
        let rows: PlateRows = self.plate_rows(batter.as_str(), away, state)?;
        let post_state: u8 = next_state(&rows)?;
        let ghost weights = self.state_weights(batter@, away, state as int)->Ok_0;
        let found = match self.outcomes(state, post_state) {
            Ok(found) => found,
            Err(e) => {
                assert(self.outcome_may_fail(e, state as nat, post_state as nat));
                return Err(e);
            },
        };
        let description: &String = match draw_play(found.plays, found.weights) {
            Ok(text) => text,
            Err(e) => {
                assert(self.outcome_may_fail(e, state as nat, post_state as nat));
                return Err(e);
            },
        };
        Ok(
            Play {
                batter: batter.clone(),
                description: description.clone(),
                pre_state: state,
                post_state,
                half_inning,
                game,
                runs: found.runs,
            },
        )
    }
}

} // verus!
