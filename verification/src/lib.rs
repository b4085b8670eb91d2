pub mod vector;
pub mod block;
pub mod random;
pub mod generation;
pub mod level;
pub mod pruning;
pub mod tiling;
pub mod pruning_laws;
