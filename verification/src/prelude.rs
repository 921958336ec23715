//! Re-exports every extension trait, so that one glob import brings all the
//! adaptor methods into scope.

pub use crate::array_chunks::IterArrayChunks;
pub use crate::array_combinations::IterArrayCombinations;
pub use crate::array_combinations::IterArrayCombinationsWithReps;
pub use crate::array_windows::IterArrayWindows;
pub use crate::cartesian_product::IterCartesianProduct;
pub use crate::circular_array_windows::IterCircularArrayWindows;
pub use crate::collect::IterCollectArray;
pub use crate::collect::IterNextChunk;
pub use crate::combinations::IterCombinations;
pub use crate::combinations::IterCombinationsWithReps;
pub use crate::min_max::IterMinMax;
pub use crate::power_set::IterPowerSet;
pub use crate::sorted::IterSorted;
