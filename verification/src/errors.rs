use vstd::prelude::*;

use crate::db::StoreError;

verus! {

/// Everything that can abort a pipeline run.
///
/// The first three are fatal inconsistencies of the decoded input tables:
/// a cell whose type or presence does not match the upstream schema, a
/// tier value outside the three known buckets, and a growth-table miss for
/// a defined primary role. `ChannelClosed` means the consumer went away
/// while requests were still being produced, and `Store` carries a failed
/// storage operation.
#[derive(Debug, Clone, PartialEq, Eq)]
pub enum PipelineError {
    MalformedCell,
    UnknownTier,
    GrowthTableMiss,
    ChannelClosed,
    Store(StoreError),
}

impl PipelineError {
    /// Whether this error reports a fatal inconsistency of the input
    /// tables, as opposed to a failure of the storage engine or channel.
    pub open spec fn spec_is_data_fault(self) -> bool {
        match self {
            PipelineError::MalformedCell => true,
            PipelineError::UnknownTier => true,
            PipelineError::GrowthTableMiss => true,
            PipelineError::ChannelClosed => false,
            PipelineError::Store(_) => false,
        }
    }
}

} // verus!
