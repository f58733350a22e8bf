//! A curriculum requirement satisfaction and plan validation engine for
//! multi-semester academic plans.
//!
//! The library models modules, curricula, students and plans, and offers:
//! semester sequence generation, prerequisite-tree evaluation, requirement
//! credit accounting, and plan validation producing ordered findings.

use vstd::prelude::*;

pub mod codes;
pub mod credits;
pub mod models;
pub mod prereq;
pub mod sequence;
pub mod validation;
pub mod text;
mod timeutil;

verus! {

/// A count capped at the largest `u32`.
pub open spec fn capped_u32(n: nat) -> u32 {
    if n > u32::MAX {
        u32::MAX
    } else {
        n as u32
    }
}

/// A count capped at the largest `u64`.
pub open spec fn capped_u64(n: nat) -> u64 {
    if n > u64::MAX {
        u64::MAX
    } else {
        n as u64
    }
}

} // verus!
