//! The bookkeeping around uncertainty propagation that involves no arithmetic on
//! measured values: which propagation mode is in force, how measurement ids are
//! minted, and how asymmetry shapes are named.

pub mod lineage;
pub mod mode;
pub mod moments;
pub mod shapes;
