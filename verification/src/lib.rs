//! A per-instrument streaming aggregation engine: price ticks are validated,
//! folded into fixed-length tumbling windows, smoothed by two exponential
//! moving averages, checked for moving-average crossovers, and the completed
//! window results are batched for a downstream sink.

pub mod cli;
mod clock;
pub mod influx;
pub mod tick;
pub mod window;
