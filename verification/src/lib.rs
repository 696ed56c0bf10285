//! Dense integer matrix multiplication, sequential and by row blocks.
//!
//! A matrix is a `Vec<Vec<i32>>` of rows; contracts speak of its deep view,
//! a `Seq<Seq<i32>>`. Entries are computed in wrapping 32-bit arithmetic, and
//! every contract says so through [`wrap::wrap_i32`].

pub mod coordinator;
pub mod generate;
pub mod laws;
pub mod model;
pub mod parallel;
pub mod partition;
pub mod sequential;
pub mod validate;
pub mod worker;
pub mod wrap;

pub use crate::coordinator::assemble;
pub use crate::generate::{get_random_matrix, VALUE_LIMIT};
pub use crate::parallel::{mat_mul_blocks, mat_mul_pal, plan_blocks, plan_machine_blocks};
pub use crate::partition::{partition, row_block, RowBlock};
pub use crate::sequential::{compute_row, dot_entry, mat_mul};
pub use crate::validate::{check_dimensions, MatMulError};
pub use crate::worker::{compute_block, PartialResult};
