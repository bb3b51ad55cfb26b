//! Running-best trackers: keep only the extremal (key, value) pair(s) of a
//! stream of candidates, under a caller-chosen ordering relation, without
//! retaining the history.

mod counting;
mod multi;
mod non_empty;
mod optional;
mod order;
mod sets;

pub use counting::{lemma_counting_parts_round_trip, BestMapNonEmptyCounting};
pub use multi::{lemma_tie_set_sizes, tie_step_gt, tie_step_lt, BestMultiSet};
pub use non_empty::{lemma_non_empty_view_determines, BestMapNonEmpty};
pub use optional::{lemma_parts_round_trip, BestMap};
pub use sets::{
    lemma_set_non_empty_view_determines, lemma_set_parts_round_trip, BestSet, BestSetNonEmpty,
};
pub use order::{accepts_ge, accepts_gt, accepts_le, accepts_lt};
pub use order::{step_ge, step_gt, step_le, step_lt};
pub use order::{opt_step_ge, opt_step_gt, opt_step_le, opt_step_lt};
pub use order::{is_maximal, key_eq, key_gt, opt_run_ge, opt_run_gt, run_ge, run_gt};
pub use order::totally_comparable;
pub use order::{
    lemma_first_insertion_occupies, lemma_ord_keys_totally_comparable, lemma_run_ge_last_max,
    lemma_run_gt_first_max, lemma_strict_rejects_ties,
};
