//! The aggregation and collection engine of a metrics SDK, verified with
//! Verus.
//!
//! Application code reports measurements on instruments. The
//! [`accumulator`] keeps one record for each instrument and label set, in
//! which an [`aggregator`] folds the measurements into a summary: a sum, a
//! minimum and maximum with sum and count, a histogram, the last value, or
//! every value. In a collection pass the accumulator checkpoints the records
//! that have changed and hands them to the [`integrator`], which merges the
//! records of one identity into a batch for an exporter. The
//! [`controllers`] say when a pass is due.
//!
//! Every function states what it returns and changes, over the views of the
//! types, and Verus proves that it does so. The engine is sequential: it
//! takes its state by `&mut`, reads no clock and calls nothing back. A
//! caller that shares it between threads locks it.
//!
//! Numbers are 64-bit patterns, read as unsigned integers or as IEEE 754
//! binary64 values; see [`number`] and [`ieee`]. No floating-point type
//! occurs: a caller turns a float into its pattern with `f64::to_bits`.
pub mod accumulator;
pub mod aggregation;
pub mod aggregator;
pub mod aggregators;
pub mod context;
pub mod controllers;
pub mod descriptor;
pub mod error;
pub mod export;
pub mod identity;
pub mod ieee;
pub mod instruments;
pub mod integrator;
pub mod labels;
pub mod number;
pub mod observer;
pub mod selector;
pub mod table;
