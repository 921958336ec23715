//! Iterator-style adaptors built around one verified core: a bounded
//! collector that draws a fixed number of values from a pull-based source
//! that may fall short, and a by-value cursor that keeps an exact record of
//! which slots of its buffer still hold live values.
//!
//! The cursor, [`IntoIter`], owns a buffer of element slots together with a
//! half-open range marking the live ones; every operation that moves a value
//! in or out updates the range in the same step, and the proofs hold each
//! operation to that record. The collector functions in [`collect`] draw on
//! a cursor and, on shortfall, hand the already-drawn values back through a
//! fresh cursor rather than discarding them. The adaptors — chunking,
//! sliding and wrapping windows, cartesian products and combination
//! enumerators — are built on those two pieces, each with a contract over
//! the sequence of values its source holds, and each paired with an
//! extension trait mirroring its constructor.
//!
//! [`collect`]: crate::collect()

mod array_chunks;
mod array_combinations;
mod array_windows;
mod cartesian_product;
mod circular_array_windows;
mod collect;
mod combinations;
mod flatten_tuple;
mod fmt;
mod generic_combinations;
mod into_iter;
mod min_max;
mod power_set;
pub mod prelude;
mod sorted;

pub use crate::array_chunks::{ArrayChunks, IterArrayChunks};
pub use crate::array_combinations::{
    ArrayCombinations, ArrayCombinationsWithReps, IterArrayCombinations,
    IterArrayCombinationsWithReps,
};
pub use crate::array_windows::{ArrayWindows, IterArrayWindows};
pub use crate::cartesian_product::{CartesianProduct, IterCartesianProduct};
pub use crate::circular_array_windows::{CircularArrayWindows, IterCircularArrayWindows};
pub use crate::collect::{
    IterCollectArray, IterNextChunk, collect, collect_array, collect_exact, collect_owned,
    collect_reversed, next_array, next_chunk,
};
pub use crate::combinations::{
    Combinations, CombinationsWithReps, IterCombinations, IterCombinationsWithReps,
};
pub use crate::flatten_tuple::{FlattenTuple, flatten_tuple};
pub use crate::fmt::cursor_debug_rep;
pub use crate::generic_combinations::{
    GenericCombinations, combi_successor, identity_indices, lemma_reps_successor_minimal,
    lemma_successor_minimal, lex_leq, lex_less, maximal_indices, picked_at, reps_step_at,
    reps_successor, saturated_indices, step_at, strictly_increasing, zero_indices,
};
pub use crate::into_iter::IntoIter;
pub use crate::min_max::{IterMinMax, min_max, min_max_by, min_max_by_key};
pub use crate::power_set::{IterPowerSet, PowerSet};
pub use crate::sorted::{IterSorted, sorted, sorted_seq};
