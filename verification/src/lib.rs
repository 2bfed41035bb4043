//! A STARK protocol engine with a second, randomness-dependent trace.
//!
//! The engine commits to a main trace, derives challenges from the
//! transcript, lets the computation build an auxiliary trace from them,
//! folds every constraint into one value per point, and checks the quotient
//! identity on the verifying side.
//!
//! - [`config`]: what a run is given, as the trait [`StarkConfig`];
//!   [`field`]: the arithmetic it needs; [`air`]: what a computation
//!   declares, as the trait [`MultiTraceAir`].
//! - [`folder`]: the two constraint folders; [`proving`] and [`verifying`]:
//!   the two sides; [`transcript`] and [`quotient`]: what they share;
//!   [`laws`]: what holds of them together.
//! - [`baby_bear`], [`coset`], [`duplex`] and [`transparent`]: a
//!   configuration over the Baby Bear field built on Plonky3;
//!   [`fibonacci`]: a computation to try it on.

pub mod air;
pub mod baby_bear;
pub mod config;
pub mod coset;
pub mod duplex;
pub mod fibonacci;
pub mod field;
pub mod folder;
pub mod laws;
pub mod list;
pub mod matrix;
pub mod proof_data;
pub mod proving;
pub mod quotient;
pub mod transcript;
pub mod transparent;
pub mod util;
pub mod verifying;

pub use air::MultiTraceAir;
pub use config::{
    Challenge, Challenger, OpeningClaim, OpeningRequest, Selectors, StarkConfig, TranscriptEvent,
    Val,
};
pub use field::{ExtensionField, Field};
pub use folder::{AuxBuilder, EvalContext, ProverFolder, VerifierFolder, VerifierView};
pub use matrix::Matrix;
pub use proof_data::Proof;
pub use proving::{prove, prove_with_challenges, Challenges, ProveError};
pub use verifying::{verify, VerificationError};
