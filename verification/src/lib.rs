//! A Markov-chain baseball simulator over whole-number transition weights.
//!
//! A half-inning is a walk over twenty-four base/out states that ends in a
//! twenty-fifth, terminal state. Each plate appearance blends the batter's,
//! the pitcher's and the league's transition rows into one weight row,
//! draws the next state from it, and scores the runs that the transition
//! is worth. Games are independent and are played side by side.
//!
//! All weights are whole numbers, so that every rule can be stated exactly.
//! A blended row is kept as numerators over the denominator 300, so that
//! nothing is rounded and no positive weight is lost; a row whose total
//! does not fit a weight is no distribution. Half-innings are counted in
//! whole numbers from zero, two to an inning. A game that is still open
//! after a given number of plate appearances is given up as unresolved, so
//! that every game ends.
//!
//! The modules, from the leaves up: `sampler` draws an index from a weight
//! row, `blend` forms the blended row, `rules` holds the rules of the game,
//! `text` writes keys and log lines, `matchup` holds what is played with,
//! `plate` plays one plate appearance, `game` one game and `batch` a batch
//! of games.

pub use vstd::hash_map::StringHashMap;

pub mod batch;
pub mod blend;
pub mod error;
pub mod game;
pub mod matchup;
pub mod plate;
pub mod rules;
pub mod sampler;
pub mod text;
