//! A lightweight metrics collector: items are read on a fixed schedule, their
//! raw text output is digested into numeric samples, and the results are
//! handed to output sinks.

pub mod bus;
pub mod conf;
pub mod digest;
pub mod document;
pub mod item;
pub mod number;
pub mod output;
pub mod plugin;
pub mod sample;
pub mod text;
