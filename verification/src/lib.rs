//! Core of the Nightshade binary-agreement protocol: the state algebra
//! (bare states, signed proofs, total ordering, merging) and the
//! per-authority state machine that ingests peer states, raises confidence
//! on super-majority support and detects commit.

pub mod chain;
pub mod nightshade;
pub mod state;
pub mod throttling;

pub use crate::nightshade::{NSResult, Nightshade};
pub use crate::state::{
    bare_ge, bare_gt, can_commit_bare, empty_bare, incompatible_bare, incompatible_states,
    is_real, merge, merge_bare, AuthorityId, BLSSignature, BareState, SignedState, State,
    COMMIT_THRESHOLD,
};
