//! An interactive walk over the local branches of a git repository: list
//! them, and inspect, keep or delete each one in turn.
//!
//! The library holds the verified core: the branch snapshot and its
//! construction from raw repository records (`git`), the stable sort of the
//! snapshot by commit time (`sort`), and the menu state machine that drives
//! the per-branch review (`review`). Reading the repository, the terminal,
//! and standard input are left to the surrounding program, which feeds this
//! library plain values and carries out the effects it selects.

pub mod git;
pub mod review;
pub mod sort;
