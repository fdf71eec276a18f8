//! Utilities for the makers of reports.

pub mod item_accumulator;
