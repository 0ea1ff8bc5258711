//! A resumable sorting engine: sorting algorithms written as explicit state
//! machines that advance a bounded number of elementary actions per tick, and
//! an engine that schedules the ticks, validates a finished sort and answers
//! the controls.
pub mod engine;
pub mod insertion;
pub mod merge;
pub mod merge_laws;
mod order;
pub mod schrodinger;
pub mod selection;

pub use engine::{ascending_list, Algorithm, AnimationStep, Engine, Highlight, Speed, SpeedLimit};
pub use insertion::{insertion_tick, InsertionStep};
pub use merge::{merge_tick, MergeStep};
pub use order::{is_sorted, sorted};
pub use schrodinger::schrodinger_tick;
pub use selection::{selection_tick, SelectionStep};
