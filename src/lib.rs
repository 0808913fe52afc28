//! Substring containment over forward-only character cursors, and a lockstep
//! comparison of two cursors.

pub mod cursor;
pub mod compare;
pub mod search;

pub use cursor::CharCursor;
pub use compare::compare_iters;
pub use search::contains_kmp;
