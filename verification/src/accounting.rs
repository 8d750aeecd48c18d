//! Per-domain allowances and the ledger that charges an operation against them.
//!
//! A domain can bound one observation, cumulative work, or live ownership. The three
//! measurements are separate, and the ledger keeps them apart: a failed charge changes nothing,
//! cumulative work is never refunded, and the live peak never falls.

use crate::failure::ResourceExhausted;
use crate::protocol::RequestKey;
use vstd::prelude::*;

verus! {

/// An independently limited resource used by an operation.
#[derive(Debug, Clone, Copy, PartialEq, Eq, Structural)]
pub enum Resource {
    /// Internal evaluation pages, including empty EOF pages.
    EvaluationPages,
    /// Cumulative internal evaluation batches.
    EvaluationBatches,
    /// Cumulative internal evaluation rows, including unselected rows.
    EvaluationRows,
    /// Cumulative conservative evaluation backing and container bytes.
    EvaluationBytes,
    /// Dispatched task requests.
    Requests,
    /// Allocated continuation-token bytes.
    ContinuationBytes,
    /// Entries in one listing page.
    ListingEntries,
    /// Descriptor backing and container bytes in one listing page.
    ListingDescriptorBytes,
    /// Ranges in one read operation.
    ReadSlices,
    /// Chunks in one read response.
    ReadChunks,
    /// Backing bytes in one read response.
    ReadPayloadBytes,
    /// Batches in one internal evaluation page.
    EvaluationPageBatches,
    /// Rows in one internal evaluation page.
    EvaluationPageRows,
    /// Conservative backing bytes in one internal evaluation page.
    EvaluationPageBytes,
    /// Retained plan nodes.
    PlanNodes,
    /// Plan topology depth.
    PlanDepth,
    /// Checked encoded-size bound of an admitted plan.
    PlanEncodedBytes,
    /// Encoded footer bytes.
    FooterBytes,
    /// Decoded schema nodes.
    SchemaNodes,
    /// Decoded schema depth.
    SchemaDepth,
    /// Decoded row groups.
    RowGroups,
    /// Decoded column chunks.
    ColumnChunks,
    /// Conservative decoded metadata allocation bytes.
    MetadataAllocatedBytes,
    /// Encoded page-index bytes.
    PageIndexBytes,
    /// Decoded page-index entries.
    PageIndexEntries,
    /// Live task-owned state, including its fixed storage.
    TaskStateBytes,
    /// Cumulative retained log descriptors.
    LogDescriptors,
    /// Cumulative descriptor backing and container bytes.
    DescriptorBytes,
    /// Retained bytes of an incomplete JSON record.
    PartialJsonBytes,
    /// Cumulative decoded records.
    Records,
    /// Cumulative received input bytes.
    InputBytes,
    /// Cumulative requested read bytes, charged before I/O.
    RequestedReadBytes,
    /// Cumulative decoded backing bytes.
    DecodedBytes,
    /// Records processed in one CPU turn.
    TurnRecords,
    /// Plan nodes processed in one CPU turn.
    TurnPlanNodes,
    /// Input bytes processed in one CPU turn.
    TurnInputBytes,
    /// Cooperative yields.
    Yields,
    /// CPU entries, including start and matching successful resumptions.
    CpuTurns,
    /// Cumulative semantic work units.
    WorkUnits,
    /// Live caller-output queue slots.
    OutputQueuedBatches,
    /// Cumulative caller-output chunks.
    OutputChunks,
    /// Cumulative caller-output backing bytes.
    OutputBytes,
}

/// The number of accounting domains.
pub const DOMAINS: usize = 42;

impl Resource {
    /// The supported accounting domains, in counter-storage order.
    pub const ALL: [Resource; 42] = [
        Resource::EvaluationPages,
        Resource::EvaluationBatches,
        Resource::EvaluationRows,
        Resource::EvaluationBytes,
        Resource::Requests,
        Resource::ContinuationBytes,
        Resource::ListingEntries,
        Resource::ListingDescriptorBytes,
        Resource::ReadSlices,
        Resource::ReadChunks,
        Resource::ReadPayloadBytes,
        Resource::EvaluationPageBatches,
        Resource::EvaluationPageRows,
        Resource::EvaluationPageBytes,
        Resource::PlanNodes,
        Resource::PlanDepth,
        Resource::PlanEncodedBytes,
        Resource::FooterBytes,
        Resource::SchemaNodes,
        Resource::SchemaDepth,
        Resource::RowGroups,
        Resource::ColumnChunks,
        Resource::MetadataAllocatedBytes,
        Resource::PageIndexBytes,
        Resource::PageIndexEntries,
        Resource::TaskStateBytes,
        Resource::LogDescriptors,
        Resource::DescriptorBytes,
        Resource::PartialJsonBytes,
        Resource::Records,
        Resource::InputBytes,
        Resource::RequestedReadBytes,
        Resource::DecodedBytes,
        Resource::TurnRecords,
        Resource::TurnPlanNodes,
        Resource::TurnInputBytes,
        Resource::Yields,
        Resource::CpuTurns,
        Resource::WorkUnits,
        Resource::OutputQueuedBatches,
        Resource::OutputChunks,
        Resource::OutputBytes,
    ];

    /// The domain's counter.
    pub open spec fn slot(self) -> int {
        match self {
            Resource::EvaluationPages => 0,
            Resource::EvaluationBatches => 1,
            Resource::EvaluationRows => 2,
            Resource::EvaluationBytes => 3,
            Resource::Requests => 4,
            Resource::ContinuationBytes => 5,
            Resource::ListingEntries => 6,
            Resource::ListingDescriptorBytes => 7,
            Resource::ReadSlices => 8,
            Resource::ReadChunks => 9,
            Resource::ReadPayloadBytes => 10,
            Resource::EvaluationPageBatches => 11,
            Resource::EvaluationPageRows => 12,
            Resource::EvaluationPageBytes => 13,
            Resource::PlanNodes => 14,
            Resource::PlanDepth => 15,
            Resource::PlanEncodedBytes => 16,
            Resource::FooterBytes => 17,
            Resource::SchemaNodes => 18,
            Resource::SchemaDepth => 19,
            Resource::RowGroups => 20,
            Resource::ColumnChunks => 21,
            Resource::MetadataAllocatedBytes => 22,
            Resource::PageIndexBytes => 23,
            Resource::PageIndexEntries => 24,
            Resource::TaskStateBytes => 25,
            Resource::LogDescriptors => 26,
            Resource::DescriptorBytes => 27,
            Resource::PartialJsonBytes => 28,
            Resource::Records => 29,
            Resource::InputBytes => 30,
            Resource::RequestedReadBytes => 31,
            Resource::DecodedBytes => 32,
            Resource::TurnRecords => 33,
            Resource::TurnPlanNodes => 34,
            Resource::TurnInputBytes => 35,
            Resource::Yields => 36,
            Resource::CpuTurns => 37,
            Resource::WorkUnits => 38,
            Resource::OutputQueuedBatches => 39,
            Resource::OutputChunks => 40,
            Resource::OutputBytes => 41,
        }
    }

    /// The domain's counter, among the [`DOMAINS`] counters.
    pub fn index(self) -> (i: usize)
        ensures
            i == self.slot(),
            i < DOMAINS,
    {
        match self {
            Resource::EvaluationPages => 0,
            Resource::EvaluationBatches => 1,
            Resource::EvaluationRows => 2,
            Resource::EvaluationBytes => 3,
            Resource::Requests => 4,
            Resource::ContinuationBytes => 5,
            Resource::ListingEntries => 6,
            Resource::ListingDescriptorBytes => 7,
            Resource::ReadSlices => 8,
            Resource::ReadChunks => 9,
            Resource::ReadPayloadBytes => 10,
            Resource::EvaluationPageBatches => 11,
            Resource::EvaluationPageRows => 12,
            Resource::EvaluationPageBytes => 13,
            Resource::PlanNodes => 14,
            Resource::PlanDepth => 15,
            Resource::PlanEncodedBytes => 16,
            Resource::FooterBytes => 17,
            Resource::SchemaNodes => 18,
            Resource::SchemaDepth => 19,
            Resource::RowGroups => 20,
            Resource::ColumnChunks => 21,
            Resource::MetadataAllocatedBytes => 22,
            Resource::PageIndexBytes => 23,
            Resource::PageIndexEntries => 24,
            Resource::TaskStateBytes => 25,
            Resource::LogDescriptors => 26,
            Resource::DescriptorBytes => 27,
            Resource::PartialJsonBytes => 28,
            Resource::Records => 29,
            Resource::InputBytes => 30,
            Resource::RequestedReadBytes => 31,
            Resource::DecodedBytes => 32,
            Resource::TurnRecords => 33,
            Resource::TurnPlanNodes => 34,
            Resource::TurnInputBytes => 35,
            Resource::Yields => 36,
            Resource::CpuTurns => 37,
            Resource::WorkUnits => 38,
            Resource::OutputQueuedBatches => 39,
            Resource::OutputChunks => 40,
            Resource::OutputBytes => 41,
        }
    }

    /// The domain's allowance in the qualification profile.
    pub open spec fn qualification(self) -> usize {
        match self {
            Resource::EvaluationPages => 4096,
            Resource::EvaluationBatches => 1000000,
            Resource::EvaluationRows => 1000000,
            Resource::EvaluationBytes => 536870912,
            Resource::Requests => 4096,
            Resource::ContinuationBytes => 4096,
            Resource::ListingEntries => 256,
            Resource::ListingDescriptorBytes => 262144,
            Resource::ReadSlices => 16,
            Resource::ReadChunks => 64,
            Resource::ReadPayloadBytes => 4194304,
            Resource::EvaluationPageBatches => 8,
            Resource::EvaluationPageRows => 65536,
            Resource::EvaluationPageBytes => 8388608,
            Resource::PlanNodes => 4096,
            Resource::PlanDepth => 64,
            Resource::PlanEncodedBytes => 2097152,
            Resource::FooterBytes => 8388608,
            Resource::SchemaNodes => 4096,
            Resource::SchemaDepth => 64,
            Resource::RowGroups => 16384,
            Resource::ColumnChunks => 262144,
            Resource::MetadataAllocatedBytes => 33554432,
            Resource::PageIndexBytes => 4194304,
            Resource::PageIndexEntries => 1000000,
            Resource::TaskStateBytes => 33554432,
            Resource::LogDescriptors => 16384,
            Resource::DescriptorBytes => 268435456,
            Resource::PartialJsonBytes => 1048576,
            Resource::Records => 1000000,
            Resource::InputBytes => 268435456,
            Resource::RequestedReadBytes => 268435456,
            Resource::DecodedBytes => 536870912,
            Resource::TurnRecords => 1024,
            Resource::TurnPlanNodes => 256,
            Resource::TurnInputBytes => 1048576,
            Resource::Yields => 65536,
            Resource::CpuTurns => 69633,
            Resource::WorkUnits => 1000000,
            Resource::OutputQueuedBatches => 2,
            Resource::OutputChunks => 1024,
            Resource::OutputBytes => 67108864,
        }
    }

    /// The text of [`Resource::name`].
    pub open spec fn text(self) -> Seq<char> {
        match self {
            Resource::EvaluationPages => "EvaluationPages"@,
            Resource::EvaluationBatches => "EvaluationBatches"@,
            Resource::EvaluationRows => "EvaluationRows"@,
            Resource::EvaluationBytes => "EvaluationBytes"@,
            Resource::Requests => "Requests"@,
            Resource::ContinuationBytes => "ContinuationBytes"@,
            Resource::ListingEntries => "ListingEntries"@,
            Resource::ListingDescriptorBytes => "ListingDescriptorBytes"@,
            Resource::ReadSlices => "ReadSlices"@,
            Resource::ReadChunks => "ReadChunks"@,
            Resource::ReadPayloadBytes => "ReadPayloadBytes"@,
            Resource::EvaluationPageBatches => "EvaluationPageBatches"@,
            Resource::EvaluationPageRows => "EvaluationPageRows"@,
            Resource::EvaluationPageBytes => "EvaluationPageBytes"@,
            Resource::PlanNodes => "PlanNodes"@,
            Resource::PlanDepth => "PlanDepth"@,
            Resource::PlanEncodedBytes => "PlanEncodedBytes"@,
            Resource::FooterBytes => "FooterBytes"@,
            Resource::SchemaNodes => "SchemaNodes"@,
            Resource::SchemaDepth => "SchemaDepth"@,
            Resource::RowGroups => "RowGroups"@,
            Resource::ColumnChunks => "ColumnChunks"@,
            Resource::MetadataAllocatedBytes => "MetadataAllocatedBytes"@,
            Resource::PageIndexBytes => "PageIndexBytes"@,
            Resource::PageIndexEntries => "PageIndexEntries"@,
            Resource::TaskStateBytes => "TaskStateBytes"@,
            Resource::LogDescriptors => "LogDescriptors"@,
            Resource::DescriptorBytes => "DescriptorBytes"@,
            Resource::PartialJsonBytes => "PartialJsonBytes"@,
            Resource::Records => "Records"@,
            Resource::InputBytes => "InputBytes"@,
            Resource::RequestedReadBytes => "RequestedReadBytes"@,
            Resource::DecodedBytes => "DecodedBytes"@,
            Resource::TurnRecords => "TurnRecords"@,
            Resource::TurnPlanNodes => "TurnPlanNodes"@,
            Resource::TurnInputBytes => "TurnInputBytes"@,
            Resource::Yields => "Yields"@,
            Resource::CpuTurns => "CpuTurns"@,
            Resource::WorkUnits => "WorkUnits"@,
            Resource::OutputQueuedBatches => "OutputQueuedBatches"@,
            Resource::OutputChunks => "OutputChunks"@,
            Resource::OutputBytes => "OutputBytes"@,
        }
    }

    /// Names the domain.
    pub fn name(self) -> (s: &'static str)
        ensures
            s@ == self.text(),
    {
        match self {
            Resource::EvaluationPages => "EvaluationPages",
            Resource::EvaluationBatches => "EvaluationBatches",
            Resource::EvaluationRows => "EvaluationRows",
            Resource::EvaluationBytes => "EvaluationBytes",
            Resource::Requests => "Requests",
            Resource::ContinuationBytes => "ContinuationBytes",
            Resource::ListingEntries => "ListingEntries",
            Resource::ListingDescriptorBytes => "ListingDescriptorBytes",
            Resource::ReadSlices => "ReadSlices",
            Resource::ReadChunks => "ReadChunks",
            Resource::ReadPayloadBytes => "ReadPayloadBytes",
            Resource::EvaluationPageBatches => "EvaluationPageBatches",
            Resource::EvaluationPageRows => "EvaluationPageRows",
            Resource::EvaluationPageBytes => "EvaluationPageBytes",
            Resource::PlanNodes => "PlanNodes",
            Resource::PlanDepth => "PlanDepth",
            Resource::PlanEncodedBytes => "PlanEncodedBytes",
            Resource::FooterBytes => "FooterBytes",
            Resource::SchemaNodes => "SchemaNodes",
            Resource::SchemaDepth => "SchemaDepth",
            Resource::RowGroups => "RowGroups",
            Resource::ColumnChunks => "ColumnChunks",
            Resource::MetadataAllocatedBytes => "MetadataAllocatedBytes",
            Resource::PageIndexBytes => "PageIndexBytes",
            Resource::PageIndexEntries => "PageIndexEntries",
            Resource::TaskStateBytes => "TaskStateBytes",
            Resource::LogDescriptors => "LogDescriptors",
            Resource::DescriptorBytes => "DescriptorBytes",
            Resource::PartialJsonBytes => "PartialJsonBytes",
            Resource::Records => "Records",
            Resource::InputBytes => "InputBytes",
            Resource::RequestedReadBytes => "RequestedReadBytes",
            Resource::DecodedBytes => "DecodedBytes",
            Resource::TurnRecords => "TurnRecords",
            Resource::TurnPlanNodes => "TurnPlanNodes",
            Resource::TurnInputBytes => "TurnInputBytes",
            Resource::Yields => "Yields",
            Resource::CpuTurns => "CpuTurns",
            Resource::WorkUnits => "WorkUnits",
            Resource::OutputQueuedBatches => "OutputQueuedBatches",
            Resource::OutputChunks => "OutputChunks",
            Resource::OutputBytes => "OutputBytes",
        }
    }
}

/// Two domains share no counter.
pub proof fn slots_are_distinct(a: Resource, b: Resource)
    ensures
        a.slot() == b.slot() <==> a == b,
        0 <= a.slot() < DOMAINS,
{
}

/// Finite per-domain allowances for an operation.
///
/// A domain can constrain a per-operation observation, cumulative work, or live ownership.
/// These measurements are distinct; callers choose the corresponding accounting method.
#[derive(Debug, Clone, Copy, PartialEq, Eq)]
pub struct TaskLimits {
    limits: [usize; 42],
}

impl TaskLimits {
    /// The allowance of a domain.
    pub closed spec fn allowance(self, resource: Resource) -> usize {
        self.limits@[resource.slot()]
    }

    /// Returns the finite qualification profile, including its 4096-request limit.
    pub fn qualification() -> (limits: TaskLimits)
        ensures
            forall|r: Resource| #[trigger] limits.allowance(r) == r.qualification(),
    {
        TaskLimits {
            limits: [
                4096,
                1000000,
                1000000,
                536870912,
                4096,
                4096,
                256,
                262144,
                16,
                64,
                4194304,
                8,
                65536,
                8388608,
                4096,
                64,
                2097152,
                8388608,
                4096,
                64,
                16384,
                262144,
                33554432,
                4194304,
                1000000,
                33554432,
                16384,
                268435456,
                1048576,
                1000000,
                268435456,
                268435456,
                536870912,
                1024,
                256,
                1048576,
                65536,
                69633,
                1000000,
                2,
                1024,
                67108864,
            ],
        }
    }

    /// `later` has another allowance in one domain and is the same in every other.
    pub open spec fn limited(self, later: TaskLimits, resource: Resource, limit: usize) -> bool {
        &&& later.allowance(resource) == limit
        &&& forall|r: Resource| r != resource ==> #[trigger] later.allowance(r) == self.allowance(r)
    }

    /// Replaces one allowance. Zero deliberately rejects any positive use of that domain.
    pub fn with_limit(self, resource: Resource, limit: usize) -> (limits: TaskLimits)
        ensures
            self.limited(limits, resource, limit),
    {
        let mut limits = self.limits;
        let index: usize = resource.index();
        limits[index] = limit;
        let result = TaskLimits { limits };
        assert forall|r: Resource| r != resource implies #[trigger] result.allowance(r)
            == self.allowance(r) by {
            slots_are_distinct(r, resource);
        }
        result
    }

    /// Projects the decoder allowances into an allocation-free footer request payload.
    pub fn footer_limits(&self) -> (limits: FooterLimits)
        ensures
            limits == (FooterLimits {
                footer_bytes: self.allowance(Resource::FooterBytes),
                schema_nodes: self.allowance(Resource::SchemaNodes),
                schema_depth: self.allowance(Resource::SchemaDepth),
                row_groups: self.allowance(Resource::RowGroups),
                column_chunks: self.allowance(Resource::ColumnChunks),
                metadata_allocated_bytes: self.allowance(Resource::MetadataAllocatedBytes),
                page_index_bytes: self.allowance(Resource::PageIndexBytes),
                page_index_entries: self.allowance(Resource::PageIndexEntries),
            }),
    {
        FooterLimits {
            footer_bytes: self.limit(Resource::FooterBytes),
            schema_nodes: self.limit(Resource::SchemaNodes),
            schema_depth: self.limit(Resource::SchemaDepth),
            row_groups: self.limit(Resource::RowGroups),
            column_chunks: self.limit(Resource::ColumnChunks),
            metadata_allocated_bytes: self.limit(Resource::MetadataAllocatedBytes),
            page_index_bytes: self.limit(Resource::PageIndexBytes),
            page_index_entries: self.limit(Resource::PageIndexEntries),
        }
    }

    /// Returns the configured allowance for a domain.
    pub fn limit(&self, resource: Resource) -> (limit: usize)
        ensures
            limit == self.allowance(resource),
    {
        self.limits[resource.index()]
    }
}

/// Decoder-specific allowances carried by a limited footer request.
///
/// The injected reader enforces each bound before its payload fetch, decoding or allocation.
/// A bounded trailer read may precede footer-length validation. Zero rejects positive use of the
/// corresponding domain; no unlimited sentinel is implied.
#[derive(Debug, Clone, Copy, PartialEq, Eq, Structural)]
pub struct FooterLimits {
    /// Encoded footer bytes.
    pub footer_bytes: usize,
    /// Decoded schema nodes.
    pub schema_nodes: usize,
    /// Decoded schema depth.
    pub schema_depth: usize,
    /// Decoded row groups.
    pub row_groups: usize,
    /// Decoded column chunks.
    pub column_chunks: usize,
    /// Conservative decoded metadata allocation bytes.
    pub metadata_allocated_bytes: usize,
    /// Encoded page-index bytes.
    pub page_index_bytes: usize,
    /// Decoded page-index entries.
    pub page_index_entries: usize,
}

/// Separate cumulative work and live-ownership measurements for one domain.
#[derive(Debug, Clone, Copy, PartialEq, Eq, Structural)]
pub struct ResourceUsage {
    consumed: usize,
    live: usize,
    peak_live: usize,
}

impl ResourceUsage {
    /// The measurements of a domain.
    pub closed spec fn of(consumed: usize, live: usize, peak_live: usize) -> ResourceUsage {
        ResourceUsage { consumed, live, peak_live }
    }

    /// Cumulative successful charges.
    pub closed spec fn spent(self) -> usize {
        self.consumed
    }

    /// The currently owned amount.
    pub closed spec fn held(self) -> usize {
        self.live
    }

    /// The largest admitted live amount.
    pub closed spec fn peak(self) -> usize {
        self.peak_live
    }

    /// Returns cumulative successful charges, including work whose storage has been released.
    pub fn consumed(self) -> (n: usize)
        ensures
            n == self.spent(),
    {
        self.consumed
    }

    /// Returns the current owned amount reported by its allocation owner.
    pub fn live(self) -> (n: usize)
        ensures
            n == self.held(),
    {
        self.live
    }

    /// Returns the largest successfully admitted live amount.
    pub fn peak_live(self) -> (n: usize)
        ensures
            n == self.peak(),
    {
        self.peak_live
    }
}

/// The measurements of a domain are determined by their three parts.
pub broadcast proof fn usage_parts(consumed: usize, live: usize, peak_live: usize)
    ensures
        (#[trigger] ResourceUsage::of(consumed, live, peak_live)).spent() == consumed,
        ResourceUsage::of(consumed, live, peak_live).held() == live,
        ResourceUsage::of(consumed, live, peak_live).peak() == peak_live,
{
}

impl Default for ResourceUsage {
    fn default() -> (usage: ResourceUsage)
        ensures
            usage == ResourceUsage::of(0, 0, 0),
    {
        ResourceUsage { consumed: 0, live: 0, peak_live: 0 }
    }
}

/// Read-only accounting observations exposed by a task machine.
pub struct TaskUsage<'a> {
    pub(crate) accounting: &'a TaskAccounting,
}

impl<'a> TaskUsage<'a> {
    /// The ledger under observation.
    pub closed spec fn ledger(self) -> TaskAccounting {
        *self.accounting
    }

    /// Returns one numeric snapshot without exposing mutable accounting operations.
    pub fn usage(&self, resource: Resource) -> (usage: ResourceUsage)
        ensures
            usage == self.ledger().counters(resource),
    {
        self.accounting.usage(resource)
    }

    pub(crate) fn of(accounting: &'a TaskAccounting) -> (usage: TaskUsage<'a>)
        ensures
            usage.ledger() == *accounting,
    {
        TaskUsage { accounting }
    }
}

/// The refusal of `amount` in a domain, where its allowance is `limit`.
pub open spec fn refusal(resource: Resource, limit: usize, amount: nat) -> ResourceExhausted {
    ResourceExhausted {
        resource,
        limit,
        observed: if amount > usize::MAX { usize::MAX } else { amount as usize },
    }
}

/// Operation-local checked counters; these are ownership charges, not process-memory readings.
///
/// Owners check or charge before allocating or growing and report live ownership at handoffs.
/// This ledger does not discover allocations or establish producer admission retroactively.
/// Nothing it offers replaces limits or resets cumulative counters. The ledger is movable between
/// threads but is not shared across concurrent tasks.
pub struct TaskAccounting {
    limits: TaskLimits,
    usage: [ResourceUsage; 42],
}

impl TaskAccounting {
    /// The allowances.
    pub closed spec fn allowances(self) -> TaskLimits {
        self.limits
    }

    /// The allowance of one domain.
    pub open spec fn allowance(self, resource: Resource) -> usize {
        self.allowances().allowance(resource)
    }

    /// The measurements of one domain.
    pub closed spec fn counters(self, resource: Resource) -> ResourceUsage {
        self.usage@[resource.slot()]
    }

    /// Cumulative work and live peaks stay within the allowances, and nothing is live beyond
    /// its peak.
    pub open spec fn wf(self) -> bool {
        forall|r: Resource|
            {
                &&& (#[trigger] self.counters(r)).spent() <= self.allowance(r)
                &&& self.counters(r).held() <= self.counters(r).peak()
                &&& self.counters(r).peak() <= self.allowance(r)
            }
    }

    /// `later` is this ledger after any amount of further work: the allowances are the same and
    /// no cumulative measurement has fallen.
    pub open spec fn precedes(self, later: TaskAccounting) -> bool {
        &&& later.allowances() == self.allowances()
        &&& forall|r: Resource|
            self.counters(r).spent() <= (#[trigger] later.counters(r)).spent()
                && self.counters(r).peak() <= later.counters(r).peak()
    }

    /// `later` is this ledger with new measurements in one domain only.
    pub open spec fn updated(self, later: TaskAccounting, resource: Resource, usage: ResourceUsage) -> bool {
        &&& later.allowances() == self.allowances()
        &&& later.counters(resource) == usage
        &&& forall|r: Resource| r != resource ==> #[trigger] later.counters(r) == self.counters(r)
    }

    /// Whether a domain admits an observation of `amount`.
    pub open spec fn admits(self, resource: Resource, amount: nat) -> bool {
        amount <= self.allowance(resource)
    }

    /// The cumulative work of a domain after `amount` more.
    pub open spec fn total(self, resource: Resource, amount: usize) -> nat {
        (self.counters(resource).spent() + amount) as nat
    }

    /// What a charge of `amount` gives.
    pub open spec fn charge_result(self, resource: Resource, amount: usize) -> Result<(), ResourceExhausted> {
        if self.total(resource, amount) <= usize::MAX && self.admits(resource, self.total(resource, amount)) {
            Ok(())
        } else {
            Err(refusal(resource, self.allowance(resource), self.total(resource, amount)))
        }
    }

    /// `later` is this ledger after a charge of `amount`, admitted or refused.
    pub open spec fn charged(self, later: TaskAccounting, resource: Resource, amount: usize) -> bool {
        if self.charge_result(resource, amount) is Ok {
            self.updated(
                later,
                resource,
                ResourceUsage::of(
                    self.total(resource, amount) as usize,
                    self.counters(resource).held(),
                    self.counters(resource).peak(),
                ),
            )
        } else {
            later == self
        }
    }

    /// `later` is this ledger after a report of `amount` as live, admitted or refused.
    pub open spec fn observed_live(self, later: TaskAccounting, resource: Resource, amount: usize) -> bool {
        if self.admits(resource, amount as nat) {
            self.updated(
                later,
                resource,
                ResourceUsage::of(
                    self.counters(resource).spent(),
                    amount,
                    if self.counters(resource).peak() < amount { amount } else { self.counters(resource).peak() },
                ),
            )
        } else {
            later == self
        }
    }

    /// Creates empty counters for the supplied finite allowances without allocating.
    pub fn new(limits: TaskLimits) -> (accounting: TaskAccounting)
        ensures
            accounting.allowances() == limits,
            forall|r: Resource|
                {
                    &&& #[trigger] accounting.counters(r) == ResourceUsage::of(0, 0, 0)
                    &&& accounting.counters(r).spent() == 0
                    &&& accounting.counters(r).held() == 0
                    &&& accounting.counters(r).peak() == 0
                },
            accounting.wf(),
    {
        let zero = ResourceUsage { consumed: 0, live: 0, peak_live: 0 };
        let accounting = TaskAccounting { limits, usage: [zero; 42] };
        assert forall|r: Resource| #[trigger] accounting.counters(r) == ResourceUsage::of(0, 0, 0) by {
            slots_are_distinct(r, r);
        }
        accounting
    }

    /// Returns a numeric snapshot of one domain.
    pub fn usage(&self, resource: Resource) -> (usage: ResourceUsage)
        ensures
            usage == self.counters(resource),
    {
        self.usage[resource.index()]
    }

    /// Returns the immutable configured allowance for a domain.
    pub fn limit(&self, resource: Resource) -> (limit: usize)
        ensures
            limit == self.allowance(resource),
    {
        self.limits.limit(resource)
    }

    /// Checks a per-operation amount without changing cumulative or live accounting.
    pub fn check(&self, resource: Resource, amount: usize) -> (r: Result<(), ResourceExhausted>)
        ensures
            r == (if self.admits(resource, amount as nat) {
                Ok::<(), ResourceExhausted>(())
            } else {
                Err(refusal(resource, self.allowance(resource), amount as nat))
            }),
    {
        let limit: usize = self.limits.limit(resource);
        if amount > limit {
            return Err(ResourceExhausted { resource, limit, observed: amount });
        }
        Ok(())
    }

    fn store(&mut self, resource: Resource, usage: ResourceUsage)
        ensures
            old(self).updated(*final(self), resource, usage),
    {
        let index: usize = resource.index();
        self.usage[index] = usage;
        assert forall|r: Resource| r != resource implies #[trigger] self.counters(r)
            == old(self).counters(r) by {
            slots_are_distinct(r, resource);
        }
    }

    /// Consumes cumulative work before performing it; successful charges are never refunded.
    ///
    /// Overflow or limit exhaustion leaves the ledger unchanged and returns a typed error.
    pub fn charge(&mut self, resource: Resource, amount: usize) -> (r: Result<(), ResourceExhausted>)
        ensures
            r == old(self).charge_result(resource, amount),
            old(self).charged(*final(self), resource, amount),
            r is Ok ==> final(self).counters(resource).spent() == old(self).total(resource, amount),
            final(self).counters(resource).held() == old(self).counters(resource).held(),
            final(self).counters(resource).peak() == old(self).counters(resource).peak(),
            old(self).precedes(*final(self)),
            old(self).wf() ==> final(self).wf(),
    {
        let total: usize = match self.next_charge(resource, amount) {
            Ok(total) => total,
            Err(error) => return Err(error),
        };
        let mut usage = self.usage(resource);
        usage.consumed = total;
        self.store(resource, usage);
        Ok(())
    }

    /// Admits the owner's next live amount and updates its peak, without refunding work.
    ///
    /// Owners call this before growing and again when releasing storage. Exhaustion preserves
    /// the previous observation. This cannot validate an allocation already made by a producer.
    pub fn set_live(&mut self, resource: Resource, amount: usize) -> (r: Result<(), ResourceExhausted>)
        ensures
            r == (if old(self).admits(resource, amount as nat) {
                Ok::<(), ResourceExhausted>(())
            } else {
                Err(refusal(resource, old(self).allowance(resource), amount as nat))
            }),
            old(self).observed_live(*final(self), resource, amount),
            r is Ok ==> final(self).counters(resource).held() == amount,
            final(self).counters(resource).spent() == old(self).counters(resource).spent(),
            old(self).precedes(*final(self)),
            old(self).wf() ==> final(self).wf(),
    {
        self.check(resource, amount)?;
        let mut usage = self.usage(resource);
        usage.live = amount;
        if usage.peak_live < amount {
            usage.peak_live = amount;
        }
        self.store(resource, usage);
        Ok(())
    }

    /// The cumulative work that a charge would reach, without charging it.
    pub fn next_charge(&self, resource: Resource, amount: usize) -> (r: Result<usize, ResourceExhausted>)
        ensures
            r == (match self.charge_result(resource, amount) {
                Ok(()) => Ok::<usize, ResourceExhausted>(self.total(resource, amount) as usize),
                Err(error) => Err(error),
            }),
    {
        let total: usize = match self.usage(resource).consumed.checked_add(amount) {
            Some(total) => total,
            None => return Err(
                ResourceExhausted {
                    resource,
                    limit: self.limits.limit(resource),
                    observed: usize::MAX,
                },
            ),
        };
        self.check(resource, total)?;
        Ok(total)
    }

    /// Releases every live amount but the fixed storage of the task itself.
    pub fn clear_live(&mut self, fixed_task_bytes: usize)
        ensures
            final(self).allowances() == old(self).allowances(),
            forall|r: Resource|
                #[trigger] final(self).counters(r) == ResourceUsage::of(
                    old(self).counters(r).spent(),
                    if r == Resource::TaskStateBytes { fixed_task_bytes } else { 0 },
                    old(self).counters(r).peak(),
                ),
            old(self).precedes(*final(self)),
            old(self).wf() && fixed_task_bytes <= old(self).counters(Resource::TaskStateBytes).peak()
                ==> final(self).wf(),
    {
        let ghost before = *self;
        let mut i: usize = 0;
        while i < 42
            invariant
                i <= 42,
                self.limits == before.limits,
                self.usage@.len() == 42,
                before.usage@.len() == 42,
                forall|j: int|
                    0 <= j < 42 ==> #[trigger] self.usage@[j] == (if j < i {
                        ResourceUsage { live: 0, ..before.usage@[j] }
                    } else {
                        before.usage@[j]
                    }),
            decreases 42 - i,
        {
            let mut usage = self.usage[i];
            usage.live = 0;
            self.usage[i] = usage;
            i += 1;
        }
        // Construction already admitted this storage; dropping semantic state cannot release it.
        let mut usage = self.usage(Resource::TaskStateBytes);
        usage.live = fixed_task_bytes;
        self.store(Resource::TaskStateBytes, usage);
        assert forall|r: Resource|
            #[trigger] self.counters(r) == ResourceUsage::of(
                before.counters(r).spent(),
                if r == Resource::TaskStateBytes { fixed_task_bytes } else { 0 },
                before.counters(r).peak(),
            ) by {
            slots_are_distinct(r, Resource::TaskStateBytes);
        }
    }
}

proof fn every_slot_has_a_domain(i: int) -> (r: Resource)
    requires
        0 <= i < DOMAINS,
    ensures
        r.slot() == i,
{
    Resource::ALL[i]
}

/// Limits are their allowances: those with the same allowance in every domain are the same.
pub proof fn limits_are_their_allowances(left: TaskLimits, right: TaskLimits)
    requires
        forall|r: Resource| #[trigger] left.allowance(r) == right.allowance(r),
    ensures
        left == right,
{
    assert forall|i: int| 0 <= i < DOMAINS implies left.limits[i] == right.limits[i] by {
        let r = every_slot_has_a_domain(i);
        assert(left.allowance(r) == right.allowance(r));
    }
    assert(left.limits =~= right.limits);
}

/// Of two replacements in one domain the last one counts.
pub proof fn last_replacements_count(
    limits: TaskLimits,
    first: TaskLimits,
    both: TaskLimits,
    last: TaskLimits,
    resource: Resource,
    earlier: usize,
    later: usize,
)
    requires
        limits.limited(first, resource, earlier),
        first.limited(both, resource, later),
        limits.limited(last, resource, later),
    ensures
        both == last,
{
    limits_are_their_allowances(both, last);
}

/// Replacements in two domains give the same limits in either order.
pub proof fn replacements_commute(
    limits: TaskLimits,
    left: TaskLimits,
    left_first: TaskLimits,
    right: TaskLimits,
    right_first: TaskLimits,
    a: Resource,
    to_a: usize,
    b: Resource,
    to_b: usize,
)
    requires
        a != b,
        limits.limited(left, a, to_a),
        left.limited(left_first, b, to_b),
        limits.limited(right, b, to_b),
        right.limited(right_first, a, to_a),
    ensures
        left_first == right_first,
{
    assert forall|r: Resource| #[trigger]
        left_first.allowance(r) == right_first.allowance(r) by {
        assert(r != a ==> left.allowance(r) == limits.allowance(r));
        assert(r != b ==> right.allowance(r) == limits.allowance(r));
    }
    limits_are_their_allowances(left_first, right_first);
}

/// Work done later on a ledger that already followed another follows that one too.
pub proof fn precedence_is_transitive(a: TaskAccounting, b: TaskAccounting, c: TaskAccounting)
    requires
        a.precedes(b),
        b.precedes(c),
    ensures
        a.precedes(c),
{
    assert forall|r: Resource|
        a.counters(r).spent() <= (#[trigger] c.counters(r)).spent() && a.counters(r).peak()
            <= c.counters(r).peak() by {
        assert(a.counters(r).spent() <= b.counters(r).spent());
    }
}

/// A refused charge leaves every domain as it was, and an admitted one adds exactly its amount
/// to the work of its own domain.
pub proof fn charges_are_all_or_nothing(
    before: TaskAccounting,
    after: TaskAccounting,
    resource: Resource,
    amount: usize,
    other: Resource,
)
    requires
        before.charged(after, resource, amount),
    ensures
        before.charge_result(resource, amount) is Err ==> after == before,
        before.charge_result(resource, amount) is Ok ==> after.counters(resource).spent()
            == before.counters(resource).spent() + amount,
        other != resource ==> after.counters(other) == before.counters(other),
        after.counters(other).held() == before.counters(other).held(),
{
}

/// Two charges in a row are admitted exactly when their sum is, as long as the sum does not
/// overflow.
pub proof fn charges_add_up(
    before: TaskAccounting,
    between: TaskAccounting,
    resource: Resource,
    first: usize,
    second: usize,
)
    requires
        first + second <= usize::MAX,
        before.charge_result(resource, first) is Ok,
        before.charged(between, resource, first),
    ensures
        between.charge_result(resource, second) is Ok <==> before.charge_result(
            resource,
            (first + second) as usize,
        ) is Ok,
{
}

/// The ledgers are those of charges that were tried one after the other, admitted or refused.
pub open spec fn charged_in_turn(
    ledgers: Seq<TaskAccounting>,
    charges: Seq<(Resource, usize)>,
) -> bool {
    &&& ledgers.len() == charges.len() + 1
    &&& forall|i: int|
        0 <= i < charges.len() ==> #[trigger] ledgers[i].charged(
            ledgers[i + 1],
            charges[i].0,
            charges[i].1,
        )
}

/// What these charges added to a domain: the admitted ones alone.
pub open spec fn admitted_work(
    ledgers: Seq<TaskAccounting>,
    charges: Seq<(Resource, usize)>,
    resource: Resource,
) -> nat
    decreases charges.len(),
{
    if charges.len() == 0 {
        0
    } else {
        let (domain, amount) = charges.last();
        let last = ledgers[charges.len() - 1];
        admitted_work(ledgers.drop_last(), charges.drop_last(), resource) + if domain == resource
            && last.charge_result(domain, amount) is Ok {
            amount as nat
        } else {
            0
        }
    }
}

/// Over any number of charges a ledger's work is what it was and what was admitted since, it stays
/// within the allowance that it was within, and nothing else of the ledger changes.
pub proof fn ledgers_keep_what_was_admitted(
    ledgers: Seq<TaskAccounting>,
    charges: Seq<(Resource, usize)>,
    resource: Resource,
)
    requires
        charged_in_turn(ledgers, charges),
    ensures
        ledgers.last().counters(resource).spent() == ledgers[0].counters(resource).spent()
            + admitted_work(ledgers, charges, resource),
        ledgers[0].counters(resource).spent() <= ledgers[0].allowance(resource)
            ==> ledgers.last().counters(resource).spent() <= ledgers[0].allowance(resource),
        ledgers.last().counters(resource).held() == ledgers[0].counters(resource).held(),
        ledgers.last().counters(resource).peak() == ledgers[0].counters(resource).peak(),
        ledgers.last().allowances() == ledgers[0].allowances(),
    decreases charges.len(),
{
    broadcast use usage_parts;

    if charges.len() > 0 {
        let n = charges.len() as int;
        let earlier = ledgers.drop_last();
        let fewer = charges.drop_last();
        assert forall|i: int| 0 <= i < fewer.len() implies #[trigger] earlier[i].charged(
            earlier[i + 1],
            fewer[i].0,
            fewer[i].1,
        ) by {
            assert(ledgers[i].charged(ledgers[i + 1], charges[i].0, charges[i].1));
        }
        ledgers_keep_what_was_admitted(earlier, fewer, resource);
        assert(ledgers[n - 1].charged(ledgers[n - 1 + 1], charges[n - 1].0, charges[n - 1].1));
    }
}

/// Work-only loan of one task's ledger while its exact request is pending.
///
/// The task makes this view; callers cannot forge its key or replace its accounting authority.
/// Holding the borrow prevents resuming or cancelling the task. Hosts prepay semantic work
/// before executing it; successful charges remain consumed if a completion is abandoned or fails.
pub struct PendingWork<'a> {
    key: RequestKey,
    accounting: &'a mut TaskAccounting,
}

impl<'a> PendingWork<'a> {
    /// The request that the loan is for.
    pub closed spec fn request(self) -> RequestKey {
        self.key
    }

    /// The borrow of the task's ledger.
    pub closed spec fn loan(self) -> &'a mut TaskAccounting {
        self.accounting
    }

    /// The ledger as it stands.
    pub open spec fn ledger(self) -> TaskAccounting {
        *self.loan()
    }

    pub(crate) fn new(key: RequestKey, accounting: &'a mut TaskAccounting) -> (work: PendingWork<'a>)
        ensures
            work.request() == key,
            work.ledger() == *old(accounting),
            *final(work.loan()) == *final(accounting),
    {
        PendingWork { key, accounting }
    }

    /// The only request for which this loan authorizes host work.
    pub fn key(&self) -> (key: RequestKey)
        ensures
            key == self.request(),
    {
        self.key
    }

    /// Task-owned bytes that remain live while the host completes this request.
    ///
    /// This read-only observation excludes the transferred request. Hosts must compose it with
    /// their request and execution owners before allocation.
    pub fn retained_task_bytes(&self) -> (bytes: usize)
        ensures
            bytes == self.ledger().counters(Resource::TaskStateBytes).held(),
    {
        self.accounting.usage(Resource::TaskStateBytes).live()
    }

    /// Remaining cumulative work, including all prior task and host charges.
    pub fn remaining(&self) -> (units: usize)
        ensures
            units == if self.ledger().counters(Resource::WorkUnits).spent() <= self.ledger().allowance(
                Resource::WorkUnits,
            ) {
                self.ledger().allowance(Resource::WorkUnits) - self.ledger().counters(
                    Resource::WorkUnits,
                ).spent()
            } else {
                0
            },
    {
        let limit: usize = self.accounting.limit(Resource::WorkUnits);
        let consumed: usize = self.accounting.usage(Resource::WorkUnits).consumed();
        limit.saturating_sub(consumed)
    }

    /// Admits and permanently charges work before the corresponding stage.
    pub fn charge(&mut self, units: usize) -> (r: Result<(), ResourceExhausted>)
        ensures
            r == old(self).ledger().charge_result(Resource::WorkUnits, units),
            old(self).ledger().charged(final(self).ledger(), Resource::WorkUnits, units),
            old(self).ledger().precedes(final(self).ledger()),
            final(self).request() == old(self).request(),
            *final(final(self).loan()) == *final(old(self).loan()),
    {
        self.accounting.charge(Resource::WorkUnits, units)
    }
}

/// A loan that is over has left the task's ledger as it last stood.
pub broadcast proof fn ended_loans_settle(work: PendingWork<'_>)
    ensures
        #[trigger] has_resolved(work) ==> *final(work.loan()) == work.ledger(),
{
}

/// A charge is admitted exactly where what was spent and the amount together are within the
/// allowance. It then adds the amount to what was spent in its domain and changes nothing else; a
/// refused one changes nothing and says what the domain would have reached, as far as the machine can
/// count.
pub proof fn charges_are_admitted_up_to_their_allowance(
    before: TaskAccounting,
    after: TaskAccounting,
    resource: Resource,
    amount: usize,
    other: Resource,
)
    requires
        before.charged(after, resource, amount),
    ensures
        before.charge_result(resource, amount) is Ok <==> before.counters(resource).spent() + amount
            <= before.allowances().allowance(resource),
        before.charge_result(resource, amount) is Ok ==> {
            &&& after.counters(resource).spent() == before.counters(resource).spent() + amount
            &&& after.counters(resource).held() == before.counters(resource).held()
            &&& after.counters(resource).peak() == before.counters(resource).peak()
            &&& other != resource ==> after.counters(other) == before.counters(other)
            &&& after.allowances() == before.allowances()
        },
        before.charge_result(resource, amount) matches Err(error) ==> {
            &&& after == before
            &&& error.resource == resource
            &&& error.limit == before.allowances().allowance(resource)
            &&& error.observed > error.limit || error.observed == usize::MAX
            &&& before.counters(resource).spent() + amount <= usize::MAX ==> error.observed
                == before.counters(resource).spent() + amount
            &&& before.counters(resource).spent() + amount > usize::MAX ==> error.observed
                == usize::MAX
        },
{
    broadcast use usage_parts;

}

/// A report of a live amount is admitted exactly where the amount is within the allowance. It then
/// replaces what was live, raises the peak to the amount where it was lower, and changes nothing
/// else.
pub proof fn reports_are_admitted_up_to_their_allowance(
    before: TaskAccounting,
    after: TaskAccounting,
    resource: Resource,
    amount: usize,
    other: Resource,
)
    requires
        before.observed_live(after, resource, amount),
    ensures
        amount > before.allowances().allowance(resource) ==> after == before,
        amount <= before.allowances().allowance(resource) ==> {
            &&& after.counters(resource).held() == amount
            &&& after.counters(resource).peak() >= amount
            &&& after.counters(resource).peak() >= before.counters(resource).peak()
            &&& after.counters(resource).peak() == amount || after.counters(resource).peak()
                == before.counters(resource).peak()
            &&& after.counters(resource).spent() == before.counters(resource).spent()
            &&& other != resource ==> after.counters(other) == before.counters(other)
            &&& after.allowances() == before.allowances()
        },
{
    broadcast use usage_parts;

}

} // verus!
