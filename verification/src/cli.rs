//! Partitioning policy and sink-writer settings, as decided on the
//! command line. Argument parsing itself lives with the binary; the
//! library only carries the decoded configuration.

use vstd::prelude::*;

verus! {

/// Which set of independent, state-isolated pipeline instances to spawn,
/// each bound to its own disjoint subject key.
#[derive(Clone, Copy, Debug)]
pub enum PartitionSubcommand {
    /// One global instance that listens for all events.
    Single,
    /// One instance per exchange, over a fixed named set of subjects.
    ByExchange,
    /// `n` instances with modulo-style subject assignment.
    Multi {
        /// How many instances to spawn.
        n: usize,
    },
}

impl PartitionSubcommand {
    /// How many independent pipeline instances the policy spawns.
    pub fn instance_count(&self) -> (n: usize)
        ensures
            n == (match *self {
                PartitionSubcommand::Single => 1usize,
                PartitionSubcommand::ByExchange => 3usize,
                PartitionSubcommand::Multi { n: k } => k,
            }),
    {
        match self {
            PartitionSubcommand::Single => 1,
            PartitionSubcommand::ByExchange => 3,
            PartitionSubcommand::Multi { n } => *n,
        }
    }
}

/// The command-line configuration of one consumer process.
#[derive(Clone, Copy, Debug)]
pub struct Cli {
    /// The partitioning policy to run.
    pub partition_subcommand: PartitionSubcommand,
    /// How many buffered results trigger an immediate sink flush.
    pub batch_size: usize,
    /// Sink idle-timeout in milliseconds.
    pub flush_period: u64,
}

} // verus!
