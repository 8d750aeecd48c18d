//! Bounded snapshot loading from a JSON history.
//!
//! The task lists the log directory, replays the protocol and metadata of the history through an
//! evaluation, and configures the table. Every owner is admitted beside everything that the task
//! holds before it is made.

use crate::accounting::{Resource, TaskAccounting, TaskLimits};
use crate::backing::{optional_text_capacity, vec_capacity};
use crate::bytes::{byte_len, utf8};
use crate::checks::{counted, exhausted, outcome, uncountable};
use crate::evaluation::EvaluationPage;
use crate::failure::{Error, FailureKind, OperationFailure, ResourceExhausted};
use crate::headroom::Headroom;
use crate::json_discovery::{text_covered, turned, DiscoveryView, EntrySize, LogDiscovery};
use crate::json_plans::{budgeted, work_admitted, JsonPlanBudget};
use crate::json_producer_shape::{manifest_steps, manifest_work};
use crate::ledger::{spend, LedgerView};
use crate::log_manifest::{HistoryCapacities, LogIdentityManifest};
use crate::machine::{semantic_work, TaskMachine};
use crate::plan::Plan;
use crate::plan_admission::{AdmittedPlan, PlanAdmissionError};
use crate::protocol::{CpuSlice, EvaluationKey, FileDescriptor};
use crate::refusals::{told, Refusal};
use crate::sizing::{fitted, plus, size};
use crate::table::{KernelLayout, LogSegment, PmCandidate, TableKernel};
use std::sync::Arc;
use vstd::arithmetic::overflow::CheckedUsize;
use vstd::layout::size_of;
use vstd::prelude::*;

verus! {

broadcast use {crate::ledger::semantic_work_chains, crate::ledger::idleness_is_semantic_work};

/// The state of a snapshot task.
pub struct SnapshotState<K: TableKernel> {
    /// The table implementation.
    pub kernel: K,
    /// The sizes of its owners.
    pub layout: KernelLayout,
    /// The table's root, as canonical URL text.
    pub table_root: String,
    /// The owners of the root and the log directory.
    pub roots: usize,
    /// The evaluation that replays the history.
    pub evaluation: EvaluationKey,
    /// The allowances.
    pub limits: TaskLimits,
    /// The discovery of the history.
    pub discovery: LogDiscovery,
    /// The discovered history.
    pub manifest: Option<Arc<LogIdentityManifest>>,
    /// Its segment.
    pub segment: Option<LogSegment>,
    /// The owners of the segment.
    pub segment_bytes: usize,
    /// The plan that replays it, until the plan is handed over.
    pub plan: Option<AdmittedPlan>,
    /// Whether the history is being replayed.
    pub evaluating: bool,
    /// The current page of the replay.
    pub page: Option<EvaluationPage>,
    /// The batches of the page that were looked at.
    pub page_index: usize,
    /// The replayed actions.
    pub candidate: Option<PmCandidate>,
    /// The owners of the actions.
    pub materialized_bytes: usize,
    /// What the host keeps for the task.
    pub host_retained_bytes: usize,
    /// Whether the replay has ended.
    pub evaluation_done: bool,
}

/// What was measured of the storage behind a state.
pub struct StateSize {
    /// The slots behind the taken commits.
    pub files: usize,
    /// The slots behind the listing page.
    pub listing: usize,
    /// The bytes behind the continuation.
    pub continuation: usize,
}

impl StateSize {
    /// This can be the storage behind a discovery: there is a slot for each taken commit, and the
    /// rest lies within the storage behind it.
    pub open spec fn covers(self, discovery: LogDiscovery) -> bool {
        self.files >= discovery.files@.len() && self.covers_listing(discovery)
    }

    /// This can be the storage behind a discovery whose commits were moved out of it: there is a
    /// slot for each entry of the listing page, and the continuation lies within the bytes behind
    /// it.
    pub open spec fn covers_listing(self, discovery: LogDiscovery) -> bool {
        self.listing >= discovery.listing@.len() && text_covered(
            discovery.continuation,
            self.continuation,
        )
    }
}

/// An amount, or the largest one that the machine can hold.
pub open spec fn saturated(amount: nat) -> nat {
    if amount > usize::MAX {
        usize::MAX as nat
    } else {
        amount
    }
}

impl<K: TableKernel> SnapshotState<K> {
    /// What a manifest retains.
    pub open spec fn manifest_bytes(self) -> nat {
        match self.manifest {
            Some(manifest) => manifest@.retained_bytes as nat,
            None => 0,
        }
    }

    /// What the plan retains.
    pub open spec fn plan_bytes(self) -> nat {
        match self.plan {
            Some(plan) => plan.backing() as nat,
            None => 0,
        }
    }

    /// What the page retains.
    pub open spec fn page_bytes(self) -> nat {
        match self.page {
            Some(page) => page.byte_total() as nat,
            None => 0,
        }
    }

    /// The sum of what the state retains, with `paths` bytes behind the taken commits' paths.
    pub open spec fn owners(self, paths: usize, size: StateSize) -> nat {
        self.roots as nat + saturated(size.files as nat * size_of::<FileDescriptor>()) + saturated(
            size.listing as nat * size_of::<FileDescriptor>(),
        ) + paths as nat + self.discovery.listing_path_capacity as nat + size.continuation as nat
            + self.manifest_bytes() + self.segment_bytes as nat + self.plan_bytes()
            + self.page_bytes() + self.materialized_bytes as nat + self.host_retained_bytes as nat
    }

    /// What the state retains, with its storage as measured.
    pub open spec fn retained(self, size: StateSize) -> Result<usize, ResourceExhausted> {
        match fitted(self.owners(self.discovery.file_path_capacity, size) as int) {
            Some(bytes) => Ok(bytes),
            None => Err(
                ResourceExhausted {
                    resource: Resource::TaskStateBytes,
                    limit: self.limits.allowance(Resource::TaskStateBytes),
                    observed: usize::MAX,
                },
            ),
        }
    }

    /// What the task holds while it considers more: its machine with what the state retains, at
    /// least what the ledger last saw.
    pub open spec fn room(self, paths: usize, size: StateSize, book: LedgerView) -> Headroom {
        Headroom {
            held: match fitted(
                (self.owners(paths, size) + size_of::<TaskMachine<SnapshotState<K>>>()) as int,
            ) {
                Some(current) => Some(
                    if current >= book.held(Resource::TaskStateBytes) {
                        current
                    } else {
                        book.held(Resource::TaskStateBytes)
                    },
                ),
                None => None,
            },
            host_live: self.host_retained_bytes != 0,
        }
    }

    fn owners_total(&self, size: &StateSize) -> (total: CheckedUsize)
        ensures
            total@ == self.owners(self.discovery.file_path_capacity, *size),
    {
        let manifest: usize = match &self.manifest {
            Some(manifest) => manifest.retained_bytes(),
            None => 0,
        };
        let plan: usize = match &self.plan {
            Some(plan) => plan.retained_bytes(),
            None => 0,
        };
        let page: usize = match &self.page {
            Some(page) => page.accounted_bytes(),
            None => 0,
        };
        let base = CheckedUsize::new(self.roots).add_value(slot_bytes(size.files)).add_value(
            slot_bytes(size.listing),
        ).add_value(self.discovery.file_path_capacity).add_value(
            self.discovery.listing_path_capacity,
        ).add_value(size.continuation);
        base.add_value(manifest).add_value(self.segment_bytes).add_value(plan).add_value(
            page,
        ).add_value(self.materialized_bytes).add_value(self.host_retained_bytes)
    }

    /// Measures the storage behind the state: the slots behind the taken commits and behind the
    /// listing page, and the bytes behind the continuation. How much the allocator gave beyond what
    /// they hold is not stated.
    pub(crate) fn measure(&self) -> (size: StateSize)
        ensures
            size.covers(self.discovery),
    {
        StateSize {
            files: vec_capacity(&self.discovery.files),
            listing: vec_capacity(&self.discovery.listing),
            continuation: optional_text_capacity(&self.discovery.continuation),
        }
    }

    /// Reports what the state retains, with its storage as measured.
    pub fn retained_bytes_sized(&self, size: &StateSize) -> (r: Result<usize, ResourceExhausted>)
        ensures
            r == self.retained(*size),
    {
        match self.owners_total(size).to_option() {
            Some(bytes) => Ok(bytes),
            None => Err(
                ResourceExhausted {
                    resource: Resource::TaskStateBytes,
                    limit: self.limits.limit(Resource::TaskStateBytes),
                    observed: usize::MAX,
                },
            ),
        }
    }

    /// Reports what the task holds, with its storage as measured.
    pub fn headroom_sized(&self, size: &StateSize, accounting: &TaskAccounting) -> (headroom: Headroom)
        ensures
            headroom == self.room(self.discovery.file_path_capacity, *size, accounting.book()),
    {
        let total = self.owners_total(size).add_value(
            core::mem::size_of::<TaskMachine<SnapshotState<K>>>(),
        );
        let live: usize = accounting.usage(Resource::TaskStateBytes).live();
        Headroom {
            held: match total.to_option() {
                Some(current) => Some(
                    if current >= live {
                        current
                    } else {
                        live
                    },
                ),
                None => None,
            },
            host_live: self.host_retained_bytes != 0,
        }
    }

    /// Reports what the task holds.
    pub fn headroom(&self, accounting: &TaskAccounting) -> (headroom: Headroom)
        ensures
            exists|size: StateSize|
                {
                    &&& size.covers(self.discovery)
                    &&& headroom == #[trigger] self.room(
                        self.discovery.file_path_capacity,
                        size,
                        accounting.book(),
                    )
                },
    {
        let size = self.measure();
        self.headroom_sized(&size, accounting)
    }

    /// Considers owning `extra` bytes beside everything that the task holds.
    pub fn admit_extra(&self, accounting: &TaskAccounting, extra: usize) -> (r: Result<
        (),
        OperationFailure,
    >)
        ensures
            exists|size: StateSize|
                {
                    &&& size.covers(self.discovery)
                    &&& outcome(
                        (#[trigger] self.room(
                            self.discovery.file_path_capacity,
                            size,
                            accounting.book(),
                        )).considered(accounting.allowances(), self.limits, extra),
                        r,
                    )
                },
    {
        let size = self.measure();
        let headroom = self.headroom_sized(&size, accounting);
        headroom.consider(accounting, &self.limits, extra)
    }
}

/// The bytes of descriptor slots, or the largest amount that the machine can hold.
fn slot_bytes(slots: usize) -> (bytes: usize)
    ensures
        bytes == saturated(slots as nat * size_of::<FileDescriptor>()),
{
    match CheckedUsize::new(slots).mul_value(core::mem::size_of::<FileDescriptor>()).to_option() {
        Some(bytes) => bytes,
        None => usize::MAX,
    }
}

/// What a discovered history becomes.
pub struct DiscoveredPlan {
    /// The history.
    pub manifest: Arc<LogIdentityManifest>,
    /// Its segment.
    pub segment: LogSegment,
    /// The owners of the segment.
    pub segment_bytes: usize,
    /// The plan that replays it.
    pub plan: AdmittedPlan,
}

/// The failure delivers why the plan of a builder was refused.
pub open spec fn plan_refused(
    built: Result<Option<Plan>, Error>,
    manifest: Arc<LogIdentityManifest>,
    budget: JsonPlanBudget,
    limits: TaskLimits,
    failure: OperationFailure,
) -> bool {
    exists|error: PlanAdmissionError|
        {
            &&& #[trigger] error.failed(failure)
            &&& AdmittedPlan::followed(
                built,
                manifest,
                budget,
                limits,
                Err::<AdmittedPlan, PlanAdmissionError>(error),
            )
        }
}

impl<K: TableKernel> SnapshotState<K> {
    /// Whether a discovery that has listed everything is complete, and may be planned in a turn.
    pub open spec fn discovery_complete(self, cpu: CpuSlice) -> Result<(), Refusal> {
        let found = self.discovery.files@.len();
        if found == 0 || (self.discovery.version matches Some(version) && found != version + 1) {
            Err(Refusal::Carried(Error::MissingVersion))
        } else if cpu.node_cap() < 8 {
            Err(Refusal::Kind(uncountable(self.limits, Resource::TurnPlanNodes)))
        } else {
            Ok(())
        }
    }

    /// The work of the plan's producer, and of validating and converting the history.
    pub open spec fn planning_work(self) -> Result<usize, Refusal> {
        let files = self.discovery.files@.len();
        let root = utf8(self.discovery.log_root@).len();
        let overflow = Refusal::Kind(uncountable(self.limits, Resource::WorkUnits));
        match work_admitted(files, root, self.limits) {
            Err(error) => Err(Refusal::Plan(error)),
            Ok(producer) => match fitted(manifest_steps(files, root) as int) {
                None => Err(overflow),
                Some(manifest) => match fitted(producer + manifest) {
                    None => Err(overflow),
                    Some(work) => Ok(work),
                },
            },
        }
    }

    /// What a complete discovery gives before anything is taken from it: all work is charged.
    pub open spec fn planning_prepaid(self, cpu: CpuSlice, book: LedgerView) -> (
        Result<(), Refusal>,
        LedgerView,
    ) {
        match self.discovery_complete(cpu) {
            Err(refusal) => (Err(refusal), book),
            Ok(()) => match self.planning_work() {
                Err(refusal) => (Err(refusal), book),
                Ok(work) => match book.charge_result(Resource::WorkUnits, work) {
                    Err(kind) => (Err(Refusal::Kind(kind)), book),
                    Ok(()) => (Ok(()), book.charged(Resource::WorkUnits, work)),
                },
            },
        }
    }

    /// What owning the manifest beside everything else gives.
    pub open spec fn manifest_owned(self, size: StateSize, book: LedgerView) -> Result<(), FailureKind> {
        match fitted(
            (utf8(self.discovery.log_root@).len() + size_of::<LogIdentityManifest>() + 2 * size_of::<
                usize,
            >()) as int,
        ) {
            None => Err(uncountable(self.limits, Resource::TaskStateBytes)),
            Some(extra) => self.room(self.discovery.file_path_capacity, size, book).considered(
                book.limits,
                self.limits,
                extra,
            ),
        }
    }

    /// What owning the segment and the plan of a manifest gives, beside the manifest and everything
    /// else: the owners of the segment, and the budget of the plan.
    pub open spec fn plan_owned(
        self,
        manifest: LogIdentityManifest,
        size: StateSize,
        book: LedgerView,
    ) -> Result<(usize, JsonPlanBudget), Refusal> {
        match budgeted(manifest@, self.layout, self.limits) {
            Err(error) => Err(Refusal::Plan(error)),
            Ok(budget) => match manifest@.segment_admitted(self.limits) {
                Err(kind) => Err(Refusal::Kind(kind)),
                Ok(segment) => match fitted(
                    manifest@.retained_bytes + segment + budget.backing,
                ) {
                    None => Err(
                        Refusal::Kind(uncountable(self.limits, Resource::TaskStateBytes)),
                    ),
                    Some(extra) => match self.room(0, size, book).considered(
                        book.limits,
                        self.limits,
                        extra,
                    ) {
                        Err(kind) => Err(Refusal::Kind(kind)),
                        Ok(()) => Ok((segment, budget)),
                    },
                },
            },
        }
    }

    /// The manifest is the discovered history, and retains `bytes` bytes.
    pub open spec fn holds_discovery(self, manifest: LogIdentityManifest, bytes: usize) -> bool {
        &&& manifest@.log_root == self.discovery.log_root@
        &&& manifest@.files == self.discovery.files@
        &&& manifest@.retained_bytes == bytes
        &&& manifest@.wf()
    }

    /// `r` is what planning the replay of a manifest gives.
    pub open spec fn replay_planned(
        self,
        manifest: Arc<LogIdentityManifest>,
        size: StateSize,
        book: LedgerView,
        built: Result<Option<Plan>, Error>,
        r: Result<DiscoveredPlan, OperationFailure>,
    ) -> bool {
        match self.plan_owned(*manifest, size, book) {
            Err(refusal) => r matches Err(failure) && refusal.delivered(failure),
            Ok((segment_bytes, budget)) => match manifest@.segment_result(
                self.table_root@,
                self.limits,
            ) {
                Err(kind) => r matches Err(failure) && failure.is_terminal(kind),
                Ok(()) => match r {
                    Ok(found) => {
                        &&& found.manifest == manifest
                        &&& manifest@.segment(found.segment)
                        &&& found.segment_bytes == segment_bytes
                        &&& AdmittedPlan::replay_built(&self.kernel, &found.segment, built)
                        &&& AdmittedPlan::followed(
                            built,
                            manifest,
                            budget,
                            self.limits,
                            Ok::<AdmittedPlan, PlanAdmissionError>(found.plan),
                        )
                    },
                    Err(failure) => {
                        &&& plan_refused(built, manifest, budget, self.limits, failure)
                        &&& exists|segment: LogSegment|
                            #[trigger] manifest@.segment(segment) && AdmittedPlan::replay_built(
                                &self.kernel,
                                &segment,
                                built,
                            )
                    },
                },
            },
        }
    }

    /// `r` is what turning a discovery into a manifest and a plan gives, with the storage before and
    /// after the commits are moved, and behind the manifest, as measured.
    pub open spec fn discovery_planned(
        self,
        size: StateSize,
        history: HistoryCapacities,
        moved: StateSize,
        built: Result<Option<Plan>, Error>,
        book: LedgerView,
        r: Result<DiscoveredPlan, OperationFailure>,
    ) -> bool {
        &&& size.covers(self.discovery)
        &&& match self.manifest_owned(size, book) {
            Err(kind) => r matches Err(failure) && failure.is_terminal(kind),
            Ok(()) => {
                &&& history.covers(self.discovery.log_root@, self.discovery.files@)
                &&& match LogIdentityManifest::constructed(
                    self.discovery.log_root@,
                    self.discovery.files@,
                    self.limits,
                    history,
                ) {
                    Err(kind) => r matches Err(failure) && failure.is_terminal(kind),
                    Ok(bytes) => exists|manifest: Arc<LogIdentityManifest>|
                        {
                            &&& #[trigger] self.holds_discovery(*manifest, bytes)
                            &&& moved.covers_listing(self.discovery)
                            &&& self.replay_planned(manifest, moved, book, built, r)
                        },
                }
            },
        }
    }

    /// The state while its commits are in a manifest.
    pub open spec fn commits_moved(self, later: SnapshotState<K>) -> bool {
        &&& later.kernel == self.kernel
        &&& later.layout == self.layout
        &&& later.table_root == self.table_root
        &&& later.roots == self.roots
        &&& later.evaluation == self.evaluation
        &&& later.limits == self.limits
        &&& later.discovery.log_root == self.discovery.log_root
        &&& later.discovery.version == self.discovery.version
        &&& later.discovery.limits == self.discovery.limits
        &&& later.discovery.files@.len() == 0
        &&& later.discovery.file_path_capacity == 0
        &&& later.discovery.listing == self.discovery.listing
        &&& later.discovery.listing_path_capacity == self.discovery.listing_path_capacity
        &&& later.discovery.listing_index == self.discovery.listing_index
        &&& later.discovery.continuation == self.discovery.continuation
        &&& later.discovery.discovery_done == self.discovery.discovery_done
        &&& later.manifest == self.manifest
        &&& later.segment == self.segment
        &&& later.segment_bytes == self.segment_bytes
        &&& later.plan == self.plan
        &&& later.evaluating == self.evaluating
        &&& later.page == self.page
        &&& later.page_index == self.page_index
        &&& later.candidate == self.candidate
        &&& later.materialized_bytes == self.materialized_bytes
        &&& later.host_retained_bytes == self.host_retained_bytes
        &&& later.evaluation_done == self.evaluation_done
    }

    /// The state after its discovery became `found`.
    pub open spec fn planned(self, later: SnapshotState<K>, found: DiscoveredPlan) -> bool {
        &&& later.manifest == Some(found.manifest)
        &&& later.segment == Some(found.segment)
        &&& later.segment_bytes == found.segment_bytes
        &&& later.plan == Some(found.plan)
        &&& later.evaluating
        &&& self.commits_moved(
            SnapshotState {
                manifest: self.manifest,
                segment: self.segment,
                segment_bytes: self.segment_bytes,
                plan: self.plan,
                evaluating: self.evaluating,
                ..later
            },
        )
    }

    fn prepay_planning(&self, accounting: &mut TaskAccounting, cpu: CpuSlice) -> (r: Result<
        (),
        OperationFailure,
    >)
        ensures
            ({
                let (expected, book) = self.planning_prepaid(cpu, old(accounting).book());
                told(expected, r) && final(accounting).book() == book
            }),
            semantic_work(*old(accounting), *final(accounting)),
    {
        let found: usize = self.discovery.files.len();
        let incomplete = match self.discovery.version {
            Some(version) => version == u64::MAX || found as u64 != version + 1,
            None => false,
        };
        if incomplete || found == 0 {
            return Err(OperationFailure::engine(Error::MissingVersion));
        }
        if cpu.plan_nodes() < 8 {
            return Err(exhausted(Resource::TurnPlanNodes, &self.limits));
        }
        let root: usize = byte_len(self.discovery.log_root.as_str());
        let producer: usize = match JsonPlanBudget::producer_work(found, root, &self.limits) {
            Ok(work) => work,
            Err(error) => return Err(error.into_failure()),
        };
        let manifest: usize = counted(
            manifest_work(found, root),
            Resource::WorkUnits,
            &self.limits,
        )?;
        let work: usize = counted(
            producer.checked_add(manifest),
            Resource::WorkUnits,
            &self.limits,
        )?;
        spend(accounting, Resource::WorkUnits, work)
    }

    fn own_manifest(&self, accounting: &TaskAccounting) -> (r: Result<(), OperationFailure>)
        ensures
            exists|size: StateSize|
                {
                    &&& size.covers(self.discovery)
                    &&& outcome(#[trigger] self.manifest_owned(size, accounting.book()), r)
                },
    {
        let state_size = self.measure();
        let extra = plus(
            &size::<LogIdentityManifest>().add_value(byte_len(self.discovery.log_root.as_str())),
            &size::<usize>().mul_value(2),
        );
        let r = match extra.to_option() {
            Some(extra) => {
                let headroom = self.headroom_sized(&state_size, accounting);
                headroom.consider(accounting, &self.limits, extra)
            },
            None => Err(exhausted(Resource::TaskStateBytes, &self.limits)),
        };
        assert(outcome(self.manifest_owned(state_size, accounting.book()), r));
        r
    }

    fn own_plan(&self, manifest: &LogIdentityManifest, accounting: &TaskAccounting) -> (r: Result<
        (usize, JsonPlanBudget),
        OperationFailure,
    >)
        requires
            self.discovery.file_path_capacity == 0,
        ensures
            exists|size: StateSize|
                {
                    &&& size.covers(self.discovery)
                    &&& told(#[trigger] self.plan_owned(*manifest, size, accounting.book()), r)
                },
    {
        let state_size = self.measure();
        let r = self.own_plan_sized(manifest, &state_size, accounting);
        assert(told(self.plan_owned(*manifest, state_size, accounting.book()), r));
        r
    }

    fn own_plan_sized(
        &self,
        manifest: &LogIdentityManifest,
        state_size: &StateSize,
        accounting: &TaskAccounting,
    ) -> (r: Result<(usize, JsonPlanBudget), OperationFailure>)
        requires
            self.discovery.file_path_capacity == 0,
        ensures
            told(self.plan_owned(*manifest, *state_size, accounting.book()), r),
    {
        let budget = match JsonPlanBudget::preflight(manifest, &self.limits, &self.layout) {
            Ok(budget) => budget,
            Err(error) => return Err(error.into_failure()),
        };
        let segment: usize = match manifest.segment_owner_peak(&self.limits) {
            Ok(segment) => segment,
            Err(failure) => return Err(failure),
        };
        let extra: usize = counted(
            CheckedUsize::new(manifest.retained_bytes()).add_value(segment).add_value(
                budget.backing,
            ).to_option(),
            Resource::TaskStateBytes,
            &self.limits,
        )?;
        let headroom = self.headroom_sized(state_size, accounting);
        match headroom.consider(accounting, &self.limits, extra) {
            Ok(()) => Ok((segment, budget)),
            Err(failure) => Err(failure),
        }
    }
}

impl<K: TableKernel> SnapshotState<K> {
    /// Plans the replay of a manifest.
    #[verifier::spinoff_prover]
    #[verifier::rlimit(60)]
    fn plan_replay(&self, manifest: Arc<LogIdentityManifest>, accounting: &TaskAccounting) -> (r: Result<
        DiscoveredPlan,
        OperationFailure,
    >)
        requires
            self.discovery.file_path_capacity == 0,
        ensures
            exists|size: StateSize, built: Result<Option<Plan>, Error>|
                {
                    &&& size.covers(self.discovery)
                    &&& #[trigger] self.replay_planned(manifest, size, accounting.book(), built, r)
                },
    {
        let owned = self.own_plan(&manifest, accounting);
        let ghost size = choose|size: StateSize|
            {
                &&& size.covers(self.discovery)
                &&& told(#[trigger] self.plan_owned(*manifest, size, accounting.book()), owned)
            };
        let ghost nothing: Result<Option<Plan>, Error> = Ok(None);
        let (segment_bytes, budget) = match owned {
            Ok(owned) => owned,
            Err(failure) => {
                let r = Err(failure);
                assert(self.replay_planned(manifest, size, accounting.book(), nothing, r));
                return r;
            },
        };
        let segment = match manifest.to_log_segment(self.table_root.as_str(), &self.limits) {
            Ok(segment) => segment,
            Err(failure) => {
                let r = Err(failure);
                assert(self.replay_planned(manifest, size, accounting.book(), nothing, r));
                return r;
            },
        };
        let ghost history = manifest;
        let planned = AdmittedPlan::try_snapshot_json(
            &self.kernel,
            &segment,
            Arc::clone(&manifest),
            &self.limits,
            &self.layout,
        );
        let ghost built = choose|built: Result<Option<Plan>, Error>|
            {
                &&& AdmittedPlan::replay_built(&self.kernel, &segment, built)
                &&& #[trigger] AdmittedPlan::followed(
                    built,
                    history,
                    budget,
                    self.limits,
                    planned,
                )
            };
        assert(manifest@.segment(segment));
        match planned {
            Ok(plan) => {
                let r = Ok(DiscoveredPlan { manifest, segment, segment_bytes, plan });
                assert(self.replay_planned(history, size, accounting.book(), built, r));
                r
            },
            Err(error) => {
                let failure = error.into_failure();
                assert(error.failed(failure));
                assert(AdmittedPlan::followed(
                    built,
                    history,
                    budget,
                    self.limits,
                    Err::<AdmittedPlan, PlanAdmissionError>(error),
                ));
                assert(plan_refused(built, history, budget, self.limits, failure));
                let r: Result<DiscoveredPlan, OperationFailure> = Err(failure);
                assert(self.replay_planned(history, size, accounting.book(), built, r));
                r
            },
        }
    }

    /// Turns a complete discovery into a manifest, its segment and the plan that replays it.
    ///
    /// All work is charged and the manifest is admitted before the commits are moved. The segment
    /// and the plan are admitted together, beside the manifest, before either is made.
    #[verifier::spinoff_prover]
    #[verifier::rlimit(60)]
    pub fn finish_discovery(&mut self, accounting: &mut TaskAccounting, cpu: CpuSlice) -> (r: Result<
        (),
        OperationFailure,
    >)
        ensures
            ({
                let (expected, book) = old(self).planning_prepaid(cpu, old(accounting).book());
                &&& final(accounting).book() == book
                &&& match expected {
                    Err(refusal) => (r matches Err(failure) && refusal.delivered(failure))
                        && *final(self) == *old(self),
                    Ok(()) => old(self).discovery_finished(*final(self), book, r),
                }
            }),
            semantic_work(*old(accounting), *final(accounting)),
    {
        match self.prepay_planning(accounting, cpu) {
            Ok(()) => {},
            Err(failure) => return Err(failure),
        }
        let ghost before = *self;
        let ghost book = accounting.book();
        let ghost nothing: Result<Option<Plan>, Error> = Ok(None);
        let ghost unmeasured = StateSize { files: 0, listing: 0, continuation: 0 };
        let owned = self.own_manifest(accounting);
        let ghost size = choose|size: StateSize|
            {
                &&& size.covers(self.discovery)
                &&& outcome(#[trigger] self.manifest_owned(size, accounting.book()), owned)
            };
        assert(size.covers(before.discovery));
        match owned {
            Ok(()) => {},
            Err(failure) => {
                proof {
                    let h: HistoryCapacities = arbitrary();
                    assert(before.discovery_planned(
                        size,
                        h,
                        unmeasured,
                        nothing,
                        book,
                        Err::<DiscoveredPlan, OperationFailure>(failure),
                    ));
                }
                return Err(failure);
            },
        }
        let mut files: Vec<FileDescriptor> = Vec::new();
        core::mem::swap(&mut files, &mut self.discovery.files);
        let log_root = self.discovery.log_root.clone();
        let constructed = LogIdentityManifest::try_new(log_root, files, &self.limits);
        self.discovery.file_path_capacity = 0;
        let ghost history = choose|history: HistoryCapacities|
            {
                &&& history.covers(before.discovery.log_root@, before.discovery.files@)
                &&& match #[trigger] LogIdentityManifest::constructed(
                    before.discovery.log_root@,
                    before.discovery.files@,
                    before.limits,
                    history,
                ) {
                    Ok(bytes) => constructed matches Ok(manifest) && before.holds_discovery(
                        manifest,
                        bytes,
                    ),
                    Err(kind) => constructed matches Err(failure) && failure.is_terminal(kind),
                }
            };
        assert(history.covers(before.discovery.log_root@, before.discovery.files@));
        let manifest = match constructed {
            Ok(manifest) => Arc::new(manifest),
            Err(failure) => {
                assert(before.discovery_planned(
                    size,
                    history,
                    unmeasured,
                    nothing,
                    book,
                    Err::<DiscoveredPlan, OperationFailure>(failure),
                ));
                return Err(failure);
            },
        };
        let ghost held = manifest;
        let planned = self.plan_replay(manifest, accounting);
        proof {
            let (moved, built) = choose|moved: StateSize, built: Result<Option<Plan>, Error>|
                {
                    &&& moved.covers(self.discovery)
                    &&& #[trigger] self.replay_planned(held, moved, book, built, planned)
                };
            assert(moved.covers_listing(before.discovery));
            assert(before.replay_planned(held, moved, book, built, planned));
            assert(before.discovery_planned(size, history, moved, built, book, planned));
        }
        match planned {
            Ok(found) => {
                let ghost outcome = found;
                self.segment_bytes = found.segment_bytes;
                self.manifest = Some(found.manifest);
                self.segment = Some(found.segment);
                self.plan = Some(found.plan);
                self.evaluating = true;
                assert(before.planned(*self, outcome));
                Ok(())
            },
            Err(failure) => Err(failure),
        }
    }

    /// `r` is what planning a prepaid discovery gives, with `later` behind it.
    pub open spec fn discovery_finished(
        self,
        later: SnapshotState<K>,
        book: LedgerView,
        r: Result<(), OperationFailure>,
    ) -> bool {
        exists|
            size: StateSize,
            history: HistoryCapacities,
            moved: StateSize,
            built: Result<Option<Plan>, Error>,
            found: Result<DiscoveredPlan, OperationFailure>,
        |
            {
                &&& #[trigger] self.discovery_planned(size, history, moved, built, book, found)
                &&& match found {
                    Ok(found) => r is Ok && self.planned(later, found),
                    Err(failure) => r == Err::<(), OperationFailure>(failure),
                }
            }
    }
}

impl<K: TableKernel> SnapshotState<K> {
    /// The state with its discovery at `view`, and everything else as it was.
    pub open spec fn discovery_at(self, later: SnapshotState<K>, view: DiscoveryView) -> bool {
        &&& later == (SnapshotState { discovery: later.discovery, ..self })
        &&& self.discovery.same_source(later.discovery)
        &&& later.discovery@ == view
    }

    /// The state with its discovery at `view`, and its page released.
    pub open spec fn page_released(self, later: SnapshotState<K>, view: DiscoveryView) -> bool {
        &&& self.discovery_at(
            later,
            DiscoveryView { pending: Seq::empty(), listing_path_capacity: 0, ..view },
        )
        &&& later.discovery.listing@.len() == 0
        &&& later.discovery.listing_index == 0
    }

    /// `r` is what planning a complete discovery gives.
    pub open spec fn planning_turned(
        self,
        later: SnapshotState<K>,
        cpu: CpuSlice,
        book: LedgerView,
        after: LedgerView,
        r: Result<(), OperationFailure>,
    ) -> bool {
        let (expected, charged) = self.planning_prepaid(cpu, book);
        &&& after == charged
        &&& match expected {
            Err(refusal) => (r matches Err(failure) && refusal.delivered(failure)) && later == self,
            Ok(()) => self.discovery_finished(later, charged, r),
        }
    }

    /// `r` follows from a turn that left the discovery at `view`. Says whether entries are left.
    pub open spec fn discovery_turned(
        self,
        later: SnapshotState<K>,
        cpu: CpuSlice,
        view: DiscoveryView,
        book: LedgerView,
        turn: Result<(), OperationFailure>,
        after: LedgerView,
        r: Result<bool, OperationFailure>,
    ) -> bool {
        if let Err(failure) = turn {
            after == book && r == Err::<bool, OperationFailure>(failure)
        } else if view.pending.len() > 0 {
            &&& r == Ok::<bool, OperationFailure>(true)
            &&& after == book
            &&& self.discovery_at(later, view)
        } else if !view.done {
            &&& r == Ok::<bool, OperationFailure>(false)
            &&& after == book
            &&& self.page_released(later, view)
        } else {
            exists|mid: SnapshotState<K>, planned: Result<(), OperationFailure>|
                {
                    &&& self.page_released(mid, view)
                    &&& #[trigger] mid.planning_turned(later, cpu, book, after, planned)
                    &&& match planned {
                        Ok(()) => r == Ok::<bool, OperationFailure>(false),
                        Err(failure) => r == Err::<bool, OperationFailure>(failure),
                    }
                }
        }
    }

    /// `r` is what a turn of the discovery gives. Says whether entries are left.
    pub open spec fn discovered(
        self,
        later: SnapshotState<K>,
        cpu: CpuSlice,
        book: LedgerView,
        after: LedgerView,
        r: Result<bool, OperationFailure>,
    ) -> bool {
        exists|
            sizes: Seq<EntrySize>,
            view: DiscoveryView,
            charged: LedgerView,
            turn: Result<(), OperationFailure>,
        |
            {
                &&& #[trigger] turned(
                    self.discovery.source(),
                    cpu,
                    self.discovery@,
                    book,
                    sizes,
                    view,
                    charged,
                    turn,
                )
                &&& self.discovery_turned(later, cpu, view, charged, turn, after, r)
            }
    }

    /// Looks at listed entries, as many as one turn allows. A page that was looked at is released,
    /// and behind the last page the replay is planned. Says whether entries are left.
    pub fn discover(&mut self, cpu: CpuSlice, accounting: &mut TaskAccounting) -> (r: Result<
        bool,
        OperationFailure,
    >)
        ensures
            old(self).discovered(
                *final(self),
                cpu,
                old(accounting).book(),
                final(accounting).book(),
                r,
            ),
            semantic_work(*old(accounting), *final(accounting)),
    {
        let ghost before = *self;
        let ghost book = accounting.book();
        let turn = self.discovery.turn(cpu, accounting);
        let ghost view = self.discovery@;
        let ghost charged = accounting.book();
        let ghost said = turn;
        let ghost sizes = choose|sizes: Seq<EntrySize>| #[trigger]
            turned(before.discovery.source(), cpu, before.discovery@, book, sizes, view, charged, said);
        match turn {
            Ok(()) => {},
            Err(failure) => {
                let r: Result<bool, OperationFailure> = Err(failure);
                assert(before.discovery_turned(
                    *self,
                    cpu,
                    view,
                    charged,
                    said,
                    accounting.book(),
                    r,
                ));
                return r;
            },
        }
        if self.discovery.listing_index < self.discovery.listing.len() {
            let r: Result<bool, OperationFailure> = Ok(true);
            assert(before.discovery_turned(*self, cpu, view, charged, said, accounting.book(), r));
            return r;
        }
        self.discovery.listing = Vec::new();
        self.discovery.listing_path_capacity = 0;
        self.discovery.listing_index = 0;
        assert(self.discovery@ =~= (DiscoveryView {
            pending: Seq::empty(),
            listing_path_capacity: 0,
            ..view
        }));
        let ghost mid = *self;
        if !self.discovery.discovery_done {
            let r: Result<bool, OperationFailure> = Ok(false);
            assert(before.discovery_turned(*self, cpu, view, charged, said, accounting.book(), r));
            return r;
        }
        let planned = self.finish_discovery(accounting, cpu);
        let ghost finished = planned;
        assert(mid.planning_turned(*self, cpu, charged, accounting.book(), finished));
        let r: Result<bool, OperationFailure> = match planned {
            Ok(()) => Ok(false),
            Err(failure) => Err(failure),
        };
        assert(before.discovery_turned(*self, cpu, view, charged, said, accounting.book(), r));
        r
    }
}

/// What a load owns is the sum of its parts, and it is retained as long as it can be counted.
pub proof fn loads_own_their_parts<K: TableKernel>(state: SnapshotState<K>, size: StateSize)
    requires
        size.files * size_of::<FileDescriptor>() <= usize::MAX,
        size.listing * size_of::<FileDescriptor>() <= usize::MAX,
    ensures
        ({
            let manifest = if let Some(manifest) = state.manifest {
                manifest@.retained_bytes
            } else {
                0
            };
            let plan = if let Some(plan) = state.plan {
                plan.backing()
            } else {
                0
            };
            let page = if let Some(page) = state.page {
                page.byte_total()
            } else {
                0
            };
            let sum = state.roots + (size.files * size_of::<FileDescriptor>()) + (size.listing
                * size_of::<FileDescriptor>()) + state.discovery.file_path_capacity
                + state.discovery.listing_path_capacity + size.continuation + manifest
                + state.segment_bytes + plan + page + state.materialized_bytes
                + state.host_retained_bytes;
            &&& state.retained(size) is Ok <==> sum <= usize::MAX
            &&& state.retained(size) matches Ok(bytes) ==> bytes == sum
        }),
{
}

/// More is owned by a load exactly where it fits beside the greater of what the state holds and what
/// the ledger says is held.
pub proof fn loads_take_more_where_there_is_room<K: TableKernel>(
    state: SnapshotState<K>,
    paths: usize,
    size: StateSize,
    book: LedgerView,
    extra: usize,
)
    ensures
        ({
            let own = state.owners(paths, size) + size_of::<TaskMachine<SnapshotState<K>>>();
            let held = book.held(Resource::TaskStateBytes);
            state.room(paths, size, book).considered(book.limits, state.limits, extra) is Ok <==> {
                &&& own <= usize::MAX
                &&& own + extra <= book.limits.allowance(Resource::TaskStateBytes)
                &&& held + extra <= book.limits.allowance(Resource::TaskStateBytes)
                &&& state.host_retained_bytes > 0 ==> own + extra <= book.limits.allowance(
                    Resource::MetadataAllocatedBytes,
                ) && held + extra <= book.limits.allowance(Resource::MetadataAllocatedBytes)
            }
        }),
{
}

/// A discovery is complete exactly where it found a commit, and where a version was asked for all the
/// commits up to it; a turn that is to plan takes eight nodes.
pub proof fn discoveries_complete_at_their_version<K: TableKernel>(
    state: SnapshotState<K>,
    cpu: CpuSlice,
)
    ensures
        state.discovery_complete(cpu) is Ok <==> {
            &&& state.discovery.files@.len() > 0
            &&& state.discovery.version matches Some(version) ==> state.discovery.files@.len()
                == version + 1
            &&& cpu.node_cap() >= 8
        },
        state.discovery.files@.len() == 0 ==> state.discovery_complete(cpu) == Err::<(), Refusal>(
            Refusal::Carried(Error::MissingVersion),
        ),
        state.discovery.version matches Some(version) ==> (state.discovery.files@.len() != version + 1
            ==> state.discovery_complete(cpu) == Err::<(), Refusal>(
            Refusal::Carried(Error::MissingVersion),
        )),
{
}

/// Planning is prepaid exactly where the discovery is complete and the producer's work with that of the
/// history is within the allowance. Only that work is charged.
pub proof fn plans_are_prepaid_by_their_work<K: TableKernel>(
    state: SnapshotState<K>,
    cpu: CpuSlice,
    book: LedgerView,
    other: Resource,
)
    ensures
        ({
            let files = state.discovery.files@.len();
            let root = utf8(state.discovery.log_root@).len();
            let (prepaid, after) = state.planning_prepaid(cpu, book);
            &&& prepaid is Ok <==> {
                &&& state.discovery_complete(cpu) is Ok
                &&& work_admitted(files, root, state.limits) matches Ok(producer)
                &&& book.spent(Resource::WorkUnits) + producer + manifest_steps(files, root)
                    <= book.limits.allowance(Resource::WorkUnits)
            }
            &&& prepaid is Ok ==> {
                &&& after.spent(Resource::WorkUnits) == book.spent(Resource::WorkUnits)
                    + work_admitted(files, root, state.limits)->Ok_0 + manifest_steps(files, root)
                &&& other != Resource::WorkUnits ==> (after.counters)(other) == (book.counters)(
                    other,
                )
            }
            &&& prepaid is Err ==> after == book
        }),
{
    if let Ok(work) = state.planning_work() {
        crate::ledger::books_take_charges_up_to_their_allowance(
            book,
            Resource::WorkUnits,
            work,
            other,
        );
    }
}

/// A replay is planned exactly where its plan is within its budget, its segment within its allowances,
/// and both fit beside the history in the task's storage.
pub proof fn replays_are_planned_where_there_is_room<K: TableKernel>(
    state: SnapshotState<K>,
    manifest: LogIdentityManifest,
    size: StateSize,
    book: LedgerView,
)
    ensures
        state.plan_owned(manifest, size, book) is Ok <==> {
            &&& budgeted(manifest@, state.layout, state.limits) matches Ok(budget)
            &&& manifest@.segment_admitted(state.limits) matches Ok(segment)
            &&& manifest@.retained_bytes + segment + budget.backing <= usize::MAX
            &&& state.room(0, size, book).considered(
                book.limits,
                state.limits,
                (manifest@.retained_bytes + segment + budget.backing) as usize,
            ) is Ok
        },
        state.plan_owned(manifest, size, book) matches Ok((segment, budget)) ==> {
            &&& budgeted(manifest@, state.layout, state.limits) == Ok::<
                JsonPlanBudget,
                PlanAdmissionError,
            >(budget)
            &&& manifest@.segment_admitted(state.limits) == Ok::<usize, FailureKind>(segment)
        },
{
}

/// A load that is planned keeps the very history that was discovered, with a segment of all of it, and
/// evaluates from there on. Nothing of the discovery is kept twice.
pub proof fn planned_loads_keep_their_history<K: TableKernel>(
    state: SnapshotState<K>,
    later: SnapshotState<K>,
    book: LedgerView,
    r: Result<(), OperationFailure>,
)
    requires
        state.discovery_finished(later, book, r),
        r is Ok,
    ensures
        later.manifest matches Some(manifest) && {
            &&& manifest@.files == state.discovery.files@
            &&& manifest@.log_root == state.discovery.log_root@
            &&& manifest@.wf()
            &&& later.segment matches Some(segment)
            &&& manifest@.segment(segment)
            &&& later.segment_bytes == manifest@.segment_owners()
        },
        later.plan is Some,
        later.evaluating,
        later.discovery.files@.len() == 0,
        later.discovery.file_path_capacity == 0,
        later.page == state.page,
        later.candidate == state.candidate,
        later.materialized_bytes == state.materialized_bytes,
{
    let (size, history, moved, built, found) = choose|
        size: StateSize,
        history: HistoryCapacities,
        moved: StateSize,
        built: Result<Option<Plan>, Error>,
        found: Result<DiscoveredPlan, OperationFailure>,
    |
        {
            &&& #[trigger] state.discovery_planned(size, history, moved, built, book, found)
            &&& match found {
                Ok(found) => r is Ok && state.planned(later, found),
                Err(failure) => r == Err::<(), OperationFailure>(failure),
            }
        };
    let bytes = LogIdentityManifest::constructed(
        state.discovery.log_root@,
        state.discovery.files@,
        state.limits,
        history,
    )->Ok_0;
    let manifest = choose|manifest: Arc<LogIdentityManifest>|
        {
            &&& #[trigger] state.holds_discovery(*manifest, bytes)
            &&& moved.covers_listing(state.discovery)
            &&& state.replay_planned(manifest, moved, book, built, found)
        };
    assert(found->Ok_0.manifest == manifest);
}

/// A discovery that has entries left goes on in another turn, one that needs another page asks for it,
/// and one that is done is planned: it goes on to evaluate, or fails.
pub proof fn discoveries_go_on_until_they_are_done<K: TableKernel>(
    state: SnapshotState<K>,
    later: SnapshotState<K>,
    cpu: CpuSlice,
    view: DiscoveryView,
    book: LedgerView,
    turn: Result<(), OperationFailure>,
    after: LedgerView,
    r: Result<bool, OperationFailure>,
)
    requires
        state.discovery_turned(later, cpu, view, book, turn, after, r),
        !state.evaluating,
    ensures
        turn matches Err(failure) ==> r == Err::<bool, OperationFailure>(failure),
        turn is Ok && view.pending.len() > 0 ==> {
            &&& r == Ok::<bool, OperationFailure>(true)
            &&& later.discovery@ == view
            &&& !later.evaluating
            &&& after == book
        },
        turn is Ok && view.pending.len() == 0 && !view.done ==> {
            &&& r == Ok::<bool, OperationFailure>(false)
            &&& later.discovery@.files == view.files
            &&& later.discovery.listing@.len() == 0
            &&& !later.evaluating
            &&& after == book
        },
        turn is Ok && view.pending.len() == 0 && view.done ==> r is Err || (r == Ok::<
            bool,
            OperationFailure,
        >(false) && later.evaluating),
{
    if turn is Ok && view.pending.len() == 0 && view.done && r is Ok {
        let (mid, planned) = choose|mid: SnapshotState<K>, planned: Result<(), OperationFailure>|
            {
                &&& state.page_released(mid, view)
                &&& #[trigger] mid.planning_turned(later, cpu, book, after, planned)
                &&& match planned {
                    Ok(()) => r == Ok::<bool, OperationFailure>(false),
                    Err(failure) => r == Err::<bool, OperationFailure>(failure),
                }
            };
        let (_, charged) = mid.planning_prepaid(cpu, book);
        planned_loads_keep_their_history(mid, later, charged, planned);
    }
}

} // verus!
