//! Normalizes a training-log export into workouts, exercises and sets, names
//! the exercises from a paginated measurement catalog, and flattens each
//! workout into one storage row per set.
pub mod numbers;
pub mod records;
pub mod cells;
pub mod catalog;
pub mod data_transformer;
pub mod rows;
