//! A verified engine for game-outcome predictions and market value.
//!
//! Score samples are summarized into a [`distribution`], two distributions
//! make a [`prediction`], a prediction is held against a bookmaker line in
//! [`betting`], and the rules of [`detection`] turn the comparison into
//! value opportunities. [`matchup`] runs the whole chain for one game,
//! [`csv`] reads games from text, and [`display`] prepares what is shown.
//!
//! All decimals are fixed-point numbers with six fractional digits
//! ([`fixed`]); every division rounds to the nearest millionth, ties to
//! even ([`rounding`]). Instants are microsecond counts ([`clock`]). The
//! properties that tie the operations together are proved in [`laws`].

pub mod betting;
pub mod clock;
pub mod csv;
pub mod detection;
pub mod display;
pub mod distribution;
pub mod fixed;
pub mod game;
pub mod ident;
pub mod laws;
pub mod logistic;
pub mod matchup;
pub mod migration;
pub mod ordering;
pub mod prediction;
pub mod rounding;
pub mod team;
pub mod text;
