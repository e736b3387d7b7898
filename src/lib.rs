//! Adaptive banded global and X-drop sequence alignment with affine gaps.
//!
//! A square block of the dynamic-programming matrix walks along the
//! anti-diagonal, shifting right or down and growing when the score stops
//! improving. Only the right column and the bottom row of the block are kept.
use vstd::prelude::*;

pub mod cigar;
pub mod kernel;
pub mod lanes;
pub mod padded;
pub mod scan_block;
pub mod scores;
pub mod trace;

verus! {

} // verus!
