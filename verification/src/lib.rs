//! Verified core of a SAT-solver benchmark runner.
pub mod text;
pub mod pattern;
pub mod benchm;
pub mod report;
pub mod number;
pub mod answer;
pub mod satbench2csv;
pub mod runner;
pub mod bench18;
