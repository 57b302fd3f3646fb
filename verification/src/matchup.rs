//! What a batch of games is played with: the league's, the batters' and the
//! pitchers' transition matrices, the two lineups, and the tables that say
//! what a transition is worth and how it reads.

use crate::error::SimError;
use crate::plate::next_state_weights;
use crate::rules::LINEUP_SIZE;
use crate::sampler::is_distribution;
use crate::text::{transition_key, transition_key_spec};
use vstd::hash_map::StringHashMap;
use vstd::prelude::*;

verus! {

/// The inputs that all games of a batch share. Nothing in it changes while
/// games are played.
pub struct Matchup {
    /// The season; it decides whether extra innings begin with a runner on
    /// second base.
    pub year: i16,
    /// The league's matrix: one row for each of the 24 active states.
    pub transition: Vec<Vec<i64>>,
    /// Each batter's matrix, by the batter's name.
    pub batter_trans: StringHashMap<Vec<Vec<i64>>>,
    /// The home pitcher's matrix, then the away pitcher's.
    pub pitcher_trans: Vec<Vec<Vec<i64>>>,
    /// The home lineup, then the away lineup.
    pub lineups: Vec<Vec<String>>,
    /// The runs that each transition scores, by transition key.
    pub run_dict: StringHashMap<u8>,
    /// The plays that each transition can stand for, by transition key.
    pub outcome_dict: StringHashMap<Vec<String>>,
    /// The weights of those plays, position by position, by transition key.
    pub probs_dict: StringHashMap<Vec<i64>>,
}

/// The three rows that a plate appearance blends.
pub struct PlateRows<'a> {
    pub batter: &'a Vec<i64>,
    pub baseline: &'a Vec<i64>,
    pub pitcher: &'a Vec<i64>,
}

/// What the tables hold for one transition.
pub struct Outcomes<'a> {
    pub runs: u8,
    pub plays: &'a Vec<String>,
    pub weights: &'a Vec<i64>,
}

/// The index of a side in the lineups: the home side first.
pub open spec fn side_index(away: bool) -> int {
    if away {
        1
    } else {
        0
    }
}

/// The index of the pitcher that a side bats against: the away side faces
/// the home pitcher, who comes first.
pub open spec fn pitcher_index(away: bool) -> int {
    if away {
        0
    } else {
        1
    }
}

/// Whether a matrix has a row for a state.
pub open spec fn has_row(matrix: Seq<Vec<i64>>, state: int) -> bool {
    1 <= state <= matrix.len()
}

impl Matchup {
    /// Whether a side's lineup has a batter for its `turn`-th plate
    /// appearance. The batting order starts over after nine batters.
    pub open spec fn has_batter(self, away: bool, turn: nat) -> bool {
        &&& side_index(away) < self.lineups@.len()
        &&& turn % 9 < self.lineups@[side_index(away)]@.len()
    }

    /// The name of the batter of a side's `turn`-th plate appearance.
    pub open spec fn batter_name(self, away: bool, turn: nat) -> Seq<char> {
        self.lineups@[side_index(away)]@[(turn % 9) as int]@
    }

    /// The rows that a plate appearance of `batter` in `state` blends, or the
    /// failure of looking them up.
    pub open spec fn rows_for(self, batter: Seq<char>, away: bool, state: int) -> Result<
        (Seq<i64>, Seq<i64>, Seq<i64>),
        SimError,
    > {
        if !self.batter_trans@.contains_key(batter) {
            Err(SimError::MissingKey)
        } else if !(pitcher_index(away) < self.pitcher_trans@.len()) {
            Err(SimError::ShapeMismatch)
        } else if !has_row(self.batter_trans@[batter]@, state) || !has_row(
            self.pitcher_trans@[pitcher_index(away)]@,
            state,
        ) || !has_row(self.transition@, state) {
            Err(SimError::ShapeMismatch)
        } else {
            Ok(
                (
                    self.batter_trans@[batter]@[state - 1]@,
                    self.transition@[state - 1]@,
                    self.pitcher_trans@[pitcher_index(away)]@[state - 1]@,
                ),
            )
        }
    }

    /// The weights from which the state after a plate appearance is drawn, or
    /// the failure of forming them.
    pub open spec fn state_weights(self, batter: Seq<char>, away: bool, state: int) -> Result<
        Seq<i64>,
        SimError,
    > {
        match self.rows_for(batter, away, state) {
            Err(e) => Err(e),
            Ok((b, t, p)) => next_state_weights(b, t, p),
        }
    }

    /// Whether all three tables hold a transition's key.
    pub open spec fn has_outcomes(self, pre_state: nat, post_state: nat) -> bool {
        let key = transition_key_spec(pre_state, post_state);
        &&& self.run_dict@.contains_key(key)
        &&& self.outcome_dict@.contains_key(key)
        &&& self.probs_dict@.contains_key(key)
    }

    /// The runs that a transition scores.
    pub open spec fn runs_of(self, pre_state: nat, post_state: nat) -> u8 {
        self.run_dict@[transition_key_spec(pre_state, post_state)]
    }

    /// The plays that a transition can stand for.
    pub open spec fn plays_of(self, pre_state: nat, post_state: nat) -> Seq<String> {
        self.outcome_dict@[transition_key_spec(pre_state, post_state)]@
    }

    /// The weights of the plays that a transition can stand for.
    pub open spec fn play_weights_of(self, pre_state: nat, post_state: nat) -> Seq<i64> {
        self.probs_dict@[transition_key_spec(pre_state, post_state)]@
    }

    /// Whether a play can always be drawn for a transition: the tables hold
    /// its key, the weights of its plays are a distribution, and there is a
    /// play for every weight.
    pub open spec fn outcomes_complete(self, pre_state: nat, post_state: nat) -> bool {
        &&& self.has_outcomes(pre_state, post_state)
        &&& is_distribution(self.play_weights_of(pre_state, post_state))
        &&& self.play_weights_of(pre_state, post_state).len() <= self.plays_of(
            pre_state,
            post_state,
        ).len()
    }

    /// Whether a plate appearance of a side's `slot`-th batter in `state`
    /// cannot fail: the rows are there, a next state can be drawn from them,
    /// and a play can be drawn for every state that may follow.
    pub open spec fn covers_plate_appearance(self, away: bool, slot: nat, state: nat) -> bool {
        &&& self.has_batter(away, slot)
        &&& match self.state_weights(self.batter_name(away, slot), away, state as int) {
            Err(_) => false,
            Ok(weights) => forall|post_state: nat|
                1 <= post_state <= 25 && weights[post_state - 1] > 0
                    ==> #[trigger] self.outcomes_complete(state, post_state),
        }
    }

    /// Whether no plate appearance of either side can fail: for each of the
    /// nine batters of both lineups and each active state, the matrices give
    /// weights to draw the next state from, and the tables cover every
    /// transition that those weights allow.
    pub open spec fn covers(self) -> bool {
        forall|away: bool, slot: nat, state: nat|
            slot < 9 && 1 <= state <= 24 ==> #[trigger] self.covers_plate_appearance(
                away,
                slot,
                state,
            )
    }
}

/// The row of a matrix for a state.
pub fn state_row(matrix: &Vec<Vec<i64>>, state: u8) -> (r: Result<&Vec<i64>, SimError>)
    ensures
        r.is_ok() <==> has_row(matrix@, state as int),
        r matches Ok(row) ==> row@ == matrix@[state - 1]@,
        r matches Err(e) ==> e == SimError::ShapeMismatch,
{
    if state == 0 || state as usize > matrix.len() {
        return Err(SimError::ShapeMismatch);
    }
    Ok(&matrix[(state - 1) as usize])
}

impl Matchup {
    /// The batter of a side's `turn`-th plate appearance.
    pub fn batter_up(&self, away: bool, turn: u32) -> (r: Result<&String, SimError>)
        ensures
            r.is_ok() <==> self.has_batter(away, turn as nat),
            r matches Ok(name) ==> name@ == self.batter_name(away, turn as nat),
            r matches Err(e) ==> e == SimError::ShapeMismatch,
    {
        let side: usize = if away {
            1
        } else {
            0
        };
        if side >= self.lineups.len() {
            return Err(SimError::ShapeMismatch);
        }
        let lineup: &Vec<String> = &self.lineups[side];
        let slot: usize = (turn % LINEUP_SIZE) as usize;
        if slot >= lineup.len() {
            return Err(SimError::ShapeMismatch);
        }
        Ok(&lineup[slot])
    }

    /// The rows that a plate appearance of `batter` in `state` blends.
    pub fn plate_rows<'a>(&'a self, batter: &str, away: bool, state: u8) -> (r: Result<
        PlateRows<'a>,
        SimError,
    >)
        ensures
            match self.rows_for(batter@, away, state as int) {
                Ok((b, t, p)) => r matches Ok(rows) && rows.batter@ == b && rows.baseline@ == t
                    && rows.pitcher@ == p,
                Err(e) => r matches Err(x) && x == e,
            },
    {
        let batter_matrix: &Vec<Vec<i64>> = match self.batter_trans.get(batter) {
            Some(matrix) => matrix,
            None => {
                return Err(SimError::MissingKey);
            },
        };
        let pitcher: usize = if away {
            0
        } else {
            1
        };
        if pitcher >= self.pitcher_trans.len() {
            return Err(SimError::ShapeMismatch);
        }
        let batter_row: &Vec<i64> = state_row(batter_matrix, state)?;
        let pitcher_row: &Vec<i64> = state_row(&self.pitcher_trans[pitcher], state)?;
        let baseline_row: &Vec<i64> = state_row(&self.transition, state)?;
        Ok(PlateRows { batter: batter_row, baseline: baseline_row, pitcher: pitcher_row })
    }

    /// What the tables hold for the transition from `pre_state` to
    /// `post_state`. Fails with `MissingKey` where one of the tables lacks
    /// the transition's key.
    pub fn outcomes<'a>(&'a self, pre_state: u8, post_state: u8) -> (r: Result<
        Outcomes<'a>,
        SimError,
    >)
        ensures
            r.is_ok() <==> self.has_outcomes(pre_state as nat, post_state as nat),
            r matches Err(e) ==> e == SimError::MissingKey,
            r matches Ok(found) ==> {
                &&& found.runs == self.runs_of(pre_state as nat, post_state as nat)
                &&& found.plays@ == self.plays_of(pre_state as nat, post_state as nat)
                &&& found.weights@ == self.play_weights_of(pre_state as nat, post_state as nat)
            },
    {
        let key: String = transition_key(pre_state, post_state);
        let runs: u8 = match self.run_dict.get(key.as_str()) {
            Some(runs) => *runs,
            None => {
                return Err(SimError::MissingKey);
            },
        };
        let plays: &Vec<String> = match self.outcome_dict.get(key.as_str()) {
            Some(plays) => plays,
            None => {
                return Err(SimError::MissingKey);
            },
        };
        let weights: &Vec<i64> = match self.probs_dict.get(key.as_str()) {
            Some(weights) => weights,
            None => {
                return Err(SimError::MissingKey);
            },
        };
        Ok(Outcomes { runs, plays, weights })
    }
}

} // verus!
