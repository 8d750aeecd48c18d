//! Bounded replay of the live files of a snapshot.
//!
//! Every batch of the evaluation is preflighted through borrowed cells, validated and handed over.
//! Nothing that a batch names is copied before it is admitted.

use crate::accounting::{Resource, TaskAccounting, TaskLimits};
use crate::bytes::{byte_len, utf8};
use crate::checks::{counted, exhausted, outcome, uncountable};
use crate::evaluation::Batch;
use crate::failure::{Error, FailureKind, OperationFailure, ResourceExhausted};
use crate::headroom::Headroom;
use crate::json_snapshot::saturated;
use crate::json_visitor_allocation::{scan_fixed_peak, scan_owners, scan_steps, scan_work};
use crate::ledger::{spend, LedgerView};
use crate::machine::{semantic_work, TaskMachine};
use crate::plan_admission::AdmittedPlan;
use crate::protocol::{CpuSlice, EvaluationKey};
use crate::refusals::Refusal;
use crate::rows::{carries, RowView};
use crate::scan_preflight::{files_judged, scan_page, validate_files, ScanPreflight};
use crate::sizing::fitted;
use crate::table::{FilteredEngineData, ScanMetadata, ScanRow, Snapshot, TableKernel};
use std::sync::Arc;
use vstd::arithmetic::overflow::CheckedUsize;
use vstd::layout::size_of;
use vstd::prelude::*;

verus! {

broadcast use {crate::ledger::semantic_work_chains, crate::ledger::idleness_is_semantic_work};

/// The state of a scan task.
pub struct ScanState<K: TableKernel> {
    /// The table implementation.
    pub kernel: K,
    /// The scanned snapshot.
    pub snapshot: Arc<Snapshot>,
    /// The evaluation that replays its files.
    pub evaluation: EvaluationKey,
    /// The allowances.
    pub limits: TaskLimits,
    /// The plan, until it is handed over.
    pub plan: Option<AdmittedPlan>,
    /// The batches that were not looked at.
    pub pending: Vec<Batch>,
    /// What they retain.
    pub pending_bytes: usize,
    /// What the host keeps for the task.
    pub host_retained_bytes: usize,
    /// The batches that were looked at.
    pub output: Vec<ScanMetadata>,
    /// What they retain.
    pub output_bytes: usize,
    /// Whether the evaluation has ended.
    pub done: bool,
}

/// How much of a turn was used.
#[derive(Debug, Clone, Copy, PartialEq, Eq, Structural)]
pub struct TurnUse {
    /// Rows.
    pub rows: usize,
    /// Bytes.
    pub bytes: usize,
}

impl<K: TableKernel> ScanState<K> {
    /// What the plan retains.
    pub open spec fn plan_bytes(self) -> nat {
        match self.plan {
            Some(plan) => plan.backing() as nat,
            None => 0,
        }
    }

    /// The sum of what the state retains, with `slots` slots behind its output.
    pub open spec fn owners(self, slots: usize) -> nat {
        self.snapshot.json_task_retained_bytes as nat + self.plan_bytes() + self.pending_bytes as nat
            + self.output_bytes as nat + self.host_retained_bytes as nat + saturated(
            slots as nat * size_of::<ScanMetadata>(),
        )
    }

    /// What the state retains, with its storage as measured.
    pub open spec fn retained(self, slots: usize) -> Result<usize, ResourceExhausted> {
        match fitted(self.owners(slots) as int) {
            Some(bytes) => Ok(bytes),
            None => Err(
                ResourceExhausted {
                    resource: Resource::TaskStateBytes,
                    limit: self.limits.allowance(Resource::TaskStateBytes),
                    observed: usize::MAX,
                },
            ),
        }
    }

    /// What the task holds while it considers more: its machine with what the state retains, at
    /// least what the ledger last saw.
    pub open spec fn room(self, slots: usize, book: LedgerView) -> Headroom {
        Headroom {
            held: match fitted(
                (self.owners(slots) + size_of::<TaskMachine<ScanState<K>>>()) as int,
            ) {
                Some(current) => Some(
                    if current >= book.held(Resource::TaskStateBytes) {
                        current
                    } else {
                        book.held(Resource::TaskStateBytes)
                    },
                ),
                None => None,
            },
            host_live: self.host_retained_bytes != 0,
        }
    }

    fn owners_total(&self, slots: usize) -> (total: CheckedUsize)
        ensures
            total@ == self.owners(slots),
    {
        let plan: usize = match &self.plan {
            Some(plan) => plan.retained_bytes(),
            None => 0,
        };
        CheckedUsize::new(self.snapshot.json_task_retained_bytes).add_value(plan).add_value(
            self.pending_bytes,
        ).add_value(self.output_bytes).add_value(self.host_retained_bytes).add_value(
            output_slots(slots),
        )
    }

    /// Reports what the state retains, with its storage as measured.
    pub fn retained_bytes_sized(&self, slots: usize) -> (r: Result<usize, ResourceExhausted>)
        ensures
            r == self.retained(slots),
    {
        match self.owners_total(slots).to_option() {
            Some(bytes) => Ok(bytes),
            None => Err(
                ResourceExhausted {
                    resource: Resource::TaskStateBytes,
                    limit: self.limits.limit(Resource::TaskStateBytes),
                    observed: usize::MAX,
                },
            ),
        }
    }

    /// Reports what the task holds, with its storage as measured.
    pub fn headroom_sized(&self, slots: usize, accounting: &TaskAccounting) -> (headroom: Headroom)
        ensures
            headroom == self.room(slots, accounting.book()),
    {
        let total = self.owners_total(slots).add_value(
            core::mem::size_of::<TaskMachine<ScanState<K>>>(),
        );
        let live: usize = accounting.usage(Resource::TaskStateBytes).live();
        Headroom {
            held: match total.to_option() {
                Some(current) => Some(
                    if current >= live {
                        current
                    } else {
                        live
                    },
                ),
                None => None,
            },
            host_live: self.host_retained_bytes != 0,
        }
    }

    /// The rows of the next batch.
    pub open spec fn next_rows(self) -> usize {
        self.pending@[0].row_count()
    }

    /// The charge of the next batch.
    pub open spec fn next_charge(self) -> Result<usize, ResourceExhausted> {
        self.pending@[0].backing_charge()
    }

    /// What fitting the next batch into a turn gives: how much of the turn is used then, or none
    /// where the batch waits for the next turn. A batch that fits into no turn is refused.
    pub open spec fn batch_fits(self, used: TurnUse, cpu: CpuSlice) -> Result<
        Option<TurnUse>,
        FailureKind,
    > {
        match self.next_charge() {
            Err(error) => Err(FailureKind::ResourceExhausted(error)),
            Ok(bytes) => if used.rows + self.next_rows() > usize::MAX {
                Err(uncountable(self.limits, Resource::TurnRecords))
            } else if used.bytes + bytes > usize::MAX {
                Err(uncountable(self.limits, Resource::TurnInputBytes))
            } else {
                let next = TurnUse {
                    rows: (used.rows + self.next_rows()) as usize,
                    bytes: (used.bytes + bytes) as usize,
                };
                if next.rows <= cpu.record_cap() && next.bytes <= cpu.byte_cap() {
                    Ok(Some(next))
                } else if used.rows > 0 || used.bytes > 0 {
                    Ok(None)
                } else if next.rows > cpu.record_cap() {
                    Err(
                        FailureKind::ResourceExhausted(
                            ResourceExhausted {
                                resource: Resource::TurnRecords,
                                limit: cpu.record_cap(),
                                observed: next.rows,
                            },
                        ),
                    )
                } else {
                    Err(
                        FailureKind::ResourceExhausted(
                            ResourceExhausted {
                                resource: Resource::TurnInputBytes,
                                limit: cpu.byte_cap(),
                                observed: next.bytes,
                            },
                        ),
                    )
                }
            },
        }
    }

    /// What opening the next batch gives: there is a slot for it, and the fixed owners and steps of
    /// visiting it are admitted before the first visit.
    pub open spec fn batch_opened(self, slots: usize, book: LedgerView) -> (
        Result<usize, FailureKind>,
        LedgerView,
    ) {
        if self.output@.len() == slots {
            (Err(uncountable(self.limits, Resource::OutputChunks)), book)
        } else {
            match fitted(scan_owners() as int) {
                None => (Err(uncountable(self.limits, Resource::TaskStateBytes)), book),
                Some(fixed) => match self.room(slots, book).considered(
                    book.limits,
                    self.limits,
                    fixed,
                ) {
                    Err(kind) => (Err(kind), book),
                    Ok(()) => match fitted(scan_steps(0, self.next_rows() as nat) as int) {
                        None => (Err(uncountable(self.limits, Resource::WorkUnits)), book),
                        Some(work) => match book.charge_result(Resource::WorkUnits, work) {
                            Err(kind) => (Err(kind), book),
                            Ok(()) => (Ok(fixed), book.charged(Resource::WorkUnits, work)),
                        },
                    },
                },
            }
        }
    }

    /// What owning a visit of the next batch gives, where its paths own `peak` bytes at most: one
    /// path at a time, and one selection mark for each row.
    pub open spec fn visit_owned(self, slots: usize, fixed: usize, peak: usize, book: LedgerView) -> Result<
        (),
        FailureKind,
    > {
        match fitted(fixed + peak + self.next_rows()) {
            None => Err(uncountable(self.limits, Resource::TaskStateBytes)),
            Some(temporary) => self.room(slots, book).considered(
                book.limits,
                self.limits,
                temporary,
            ),
        }
    }

    /// `r` is what the borrowed columns of the next batch are judged to own.
    pub open spec fn rows_preflighted(
        self,
        view: Result<RowView, Error>,
        book: LedgerView,
        after: LedgerView,
        r: Result<usize, OperationFailure>,
    ) -> bool {
        match view {
            Err(error) => after == book && (r matches Err(failure) && carries(failure, error)),
            Ok(page) => {
                let (expected, charged) = scan_page(
                    page.rows,
                    page.getters@,
                    self.root_bytes(),
                    self.limits,
                    0,
                    book,
                );
                &&& after == charged
                &&& match expected {
                    Err(fault) => r matches Err(failure) && fault.carried(failure),
                    Ok(Err(verdict)) => r matches Err(failure) && verdict.delivered(Some(failure)),
                    Ok(Ok(peak)) => r == Ok::<usize, OperationFailure>(peak),
                }
            },
        }
    }

    /// The bytes of the table's root.
    pub open spec fn root_bytes(self) -> usize {
        utf8(self.snapshot.configuration.table_root@).len() as usize
    }

    /// What handing over the next batch gives: what it retains. Its files are validated, and it is
    /// charged.
    pub open spec fn batch_validated(self, files: Result<Vec<ScanRow>, Error>, bytes: usize) -> Result<
        usize,
        Refusal,
    > {
        if bytes > self.pending_bytes {
            Err(Refusal::Kind(FailureKind::MalformedResponse))
        } else {
            match files {
                Err(error) => Err(Refusal::Carried(error)),
                Ok(files) => match files_judged(
                    self.snapshot.configuration.table_root@,
                    files@,
                ) {
                    Err(refusal) => Err(refusal),
                    Ok(()) => match fitted(
                        bytes + self.next_rows() + size_of::<ScanMetadata>(),
                    ) {
                        None => Err(Refusal::Kind(uncountable(self.limits, Resource::OutputBytes))),
                        Some(retained) => Ok(retained),
                    },
                },
            }
        }
    }

    /// The state with its next batch handed over; every row of it is selected.
    pub open spec fn batch_moved(self, later: ScanState<K>, bytes: usize, retained: usize) -> bool {
        &&& later == (ScanState {
            pending: later.pending,
            pending_bytes: (self.pending_bytes - bytes) as usize,
            output: later.output,
            output_bytes: (self.output_bytes + retained) as usize,
            ..self
        })
        &&& later.pending@ == self.pending@.drop_first()
        &&& later.output@.len() == self.output@.len() + 1
        &&& later.output@.drop_last() == self.output@
        &&& later.output@.last().scan_files.data == self.pending@[0]
        &&& later.output@.last().scan_files.selection@ == Seq::new(self.next_rows() as nat, |i: int| true)
        &&& later.output@.last().scan_file_transforms@.len() == 0
    }

    /// `r` is what keeping the next batch gives.
    pub open spec fn batch_kept(
        self,
        later: ScanState<K>,
        files: Result<Vec<ScanRow>, Error>,
        bytes: usize,
        book: LedgerView,
        after: LedgerView,
        r: Result<(), OperationFailure>,
    ) -> bool {
        match self.batch_validated(files, bytes) {
            Err(refusal) => after == book && (r matches Err(failure) && refusal.delivered(failure)),
            Ok(retained) => {
                let chunk = book.charged(Resource::OutputChunks, 1);
                if let Err(kind) = book.charge_result(Resource::OutputChunks, 1) {
                    after == book && (r matches Err(failure) && failure.is_terminal(kind))
                } else if let Err(kind) = chunk.charge_result(Resource::OutputBytes, retained) {
                    after == chunk && (r matches Err(failure) && failure.is_terminal(kind))
                } else {
                    &&& after == chunk.charged(Resource::OutputBytes, retained)
                    &&& if self.output_bytes + retained > usize::MAX {
                        r matches Err(failure) && failure.is_terminal(
                            uncountable(self.limits, Resource::OutputBytes),
                        )
                    } else {
                        r is Ok && self.batch_moved(later, bytes, retained)
                    }
                }
            },
        }
    }

    pub(crate) fn fit_batch(&self, used: TurnUse, cpu: CpuSlice) -> (r: Result<
        Option<TurnUse>,
        OperationFailure,
    >)
        requires
            self.pending@.len() > 0,
        ensures
            outcome(self.batch_fits(used, cpu), r),
    {
        let bytes: usize = match self.pending[0].accounted_bytes() {
            Ok(bytes) => bytes,
            Err(error) => return Err(OperationFailure::exhausted(error)),
        };
        let rows: usize = match used.rows.checked_add(self.pending[0].len()) {
            Some(rows) => rows,
            None => return Err(exhausted(Resource::TurnRecords, &self.limits)),
        };
        let bytes: usize = match used.bytes.checked_add(bytes) {
            Some(bytes) => bytes,
            None => return Err(exhausted(Resource::TurnInputBytes, &self.limits)),
        };
        if rows <= cpu.records() && bytes <= cpu.bytes() {
            return Ok(Some(TurnUse { rows, bytes }));
        }
        if used.rows > 0 || used.bytes > 0 {
            return Ok(None);
        }
        let error = if rows > cpu.records() {
            ResourceExhausted {
                resource: Resource::TurnRecords,
                limit: cpu.records(),
                observed: rows,
            }
        } else {
            ResourceExhausted {
                resource: Resource::TurnInputBytes,
                limit: cpu.bytes(),
                observed: bytes,
            }
        };
        Err(OperationFailure::exhausted(error))
    }

    pub(crate) fn open_batch(&self, slots: usize, accounting: &mut TaskAccounting) -> (r: Result<
        usize,
        OperationFailure,
    >)
        requires
            self.pending@.len() > 0,
        ensures
            ({
                let (expected, book) = self.batch_opened(slots, old(accounting).book());
                outcome(expected, r) && final(accounting).book() == book
            }),
            semantic_work(*old(accounting), *final(accounting)),
    {
        if self.output.len() == slots {
            return Err(exhausted(Resource::OutputChunks, &self.limits));
        }
        let fixed: usize = counted(scan_fixed_peak(), Resource::TaskStateBytes, &self.limits)?;
        let headroom = self.headroom_sized(slots, accounting);
        match headroom.consider(accounting, &self.limits, fixed) {
            Ok(()) => {},
            Err(failure) => return Err(failure),
        }
        let work: usize = counted(
            scan_work(0, self.pending[0].len()),
            Resource::WorkUnits,
            &self.limits,
        )?;
        match spend(accounting, Resource::WorkUnits, work) {
            Ok(()) => Ok(fixed),
            Err(failure) => Err(failure),
        }
    }

    pub(crate) fn own_visit(&self, slots: usize, fixed: usize, peak: usize, accounting: &TaskAccounting) -> (r: Result<
        (),
        OperationFailure,
    >)
        requires
            self.pending@.len() > 0,
        ensures
            outcome(self.visit_owned(slots, fixed, peak, accounting.book()), r),
    {
        let temporary: usize = counted(
            CheckedUsize::new(fixed).add_value(peak).add_value(self.pending[0].len()).to_option(),
            Resource::TaskStateBytes,
            &self.limits,
        )?;
        let headroom = self.headroom_sized(slots, accounting);
        headroom.consider(accounting, &self.limits, temporary)
    }

    /// Judges the borrowed columns of the next batch.
    pub fn preflight_rows(&self, view: Result<RowView, Error>, accounting: &mut TaskAccounting) -> (r:
        Result<usize, OperationFailure>)
        ensures
            self.rows_preflighted(view, old(accounting).book(), final(accounting).book(), r),
            semantic_work(*old(accounting), *final(accounting)),
    {
        let page = match view {
            Ok(page) => page,
            Err(error) => return Err(OperationFailure::engine(error)),
        };
        let mut preflight = ScanPreflight {
            root_bytes: byte_len(self.snapshot.configuration.table_root.as_str()),
            row_peak: 0,
            limits: self.limits,
            failure: None,
        };
        match preflight.visit(page.rows, &page.getters, accounting) {
            Ok(()) => {},
            Err(error) => return Err(OperationFailure::engine(error)),
        }
        match preflight.failure {
            Some(failure) => Err(failure),
            None => Ok(preflight.row_peak),
        }
    }

    /// Keeps the next batch, with the files that it names.
    pub fn keep_batch(
        &mut self,
        files: Result<Vec<ScanRow>, Error>,
        bytes: usize,
        accounting: &mut TaskAccounting,
    ) -> (r: Result<(), OperationFailure>)
        requires
            old(self).pending@.len() > 0,
        ensures
            old(self).batch_kept(
                *final(self),
                files,
                bytes,
                old(accounting).book(),
                final(accounting).book(),
                r,
            ),
            semantic_work(*old(accounting), *final(accounting)),
    {
        let ghost before = *self;
        if bytes > self.pending_bytes {
            return Err(OperationFailure::malformed_response());
        }
        let rows: usize = self.pending[0].len();
        let files = match files {
            Ok(files) => files,
            Err(error) => return Err(OperationFailure::engine(error)),
        };
        match validate_files(self.snapshot.configuration.table_root.as_str(), &files) {
            Ok(()) => {},
            Err(failure) => return Err(failure),
        }
        let retained: usize = counted(
            CheckedUsize::new(bytes).add_value(rows).add_value(
                core::mem::size_of::<ScanMetadata>(),
            ).to_option(),
            Resource::OutputBytes,
            &self.limits,
        )?;
        match spend(accounting, Resource::OutputChunks, 1) {
            Ok(()) => {},
            Err(failure) => return Err(failure),
        }
        match spend(accounting, Resource::OutputBytes, retained) {
            Ok(()) => {},
            Err(failure) => return Err(failure),
        }
        let total: usize = match self.output_bytes.checked_add(retained) {
            Some(total) => total,
            None => return Err(exhausted(Resource::OutputBytes, &self.limits)),
        };
        let data = self.pending.remove(0);
        let scan_files = FilteredEngineData::with_all_rows_selected(data, rows);
        self.pending_bytes = self.pending_bytes - bytes;
        self.output_bytes = total;
        append(
            &mut self.output,
            ScanMetadata { scan_files, scan_file_transforms: Vec::new() },
        );
        assert(self.pending@ =~= before.pending@.drop_first());
        assert(self.output@.drop_last() =~= before.output@);
        Ok(())
    }
}

/// The bytes of output slots, or the largest amount that the machine can hold.
pub(crate) fn output_slots(slots: usize) -> (bytes: usize)
    ensures
        bytes == saturated(slots as nat * size_of::<ScanMetadata>()),
{
    match CheckedUsize::new(slots).mul_value(core::mem::size_of::<ScanMetadata>()).to_option() {
        Some(bytes) => bytes,
        None => usize::MAX,
    }
}

/// Appends an item.
fn append<T>(items: &mut Vec<T>, item: T)
    ensures
        final(items)@.len() == old(items)@.len() + 1,
        final(items)@.drop_last() == old(items)@,
        final(items)@.last() == item,
{
    items.push(item);
    assert(items@.drop_last() =~= old(items)@);
}

/// The next batch fits into a turn exactly where its rows and its bytes, with those that the turn has
/// used, are within the slice, and uses just that much. It waits only behind another batch of its turn.
pub proof fn batches_fit_up_to_their_slice<K: TableKernel>(
    state: ScanState<K>,
    used: TurnUse,
    cpu: CpuSlice,
)
    requires
        state.pending@.len() > 0,
    ensures
        ({
            let batch = state.pending@[0];
            let fits = state.batch_fits(used, cpu);
            &&& (fits matches Ok(Some(_))) <==> {
                &&& batch.backing_charge() matches Ok(bytes)
                &&& used.rows + batch.row_count() <= cpu.record_cap()
                &&& used.bytes + bytes <= cpu.byte_cap()
            }
            &&& fits matches Ok(Some(next)) ==> {
                &&& next.rows == used.rows + batch.row_count()
                &&& next.bytes == used.bytes + batch.backing_charge()->Ok_0
            }
            &&& fits matches Ok(None) ==> used.rows > 0 || used.bytes > 0
            &&& fits matches Err(kind) ==> kind is ResourceExhausted
            &&& batch.backing_charge() matches Ok(bytes) ==> ((used.rows + batch.row_count()
                <= usize::MAX && used.bytes + bytes <= usize::MAX && (used.rows > 0 || used.bytes > 0))
                ==> fits is Ok)
        }),
{
}

/// What a scan owns is the sum of its parts, and it is retained as long as it can be counted.
pub proof fn scans_own_their_parts<K: TableKernel>(state: ScanState<K>, slots: usize)
    requires
        slots * size_of::<ScanMetadata>() <= usize::MAX,
    ensures
        ({
            let plan = if let Some(plan) = state.plan {
                plan.backing()
            } else {
                0
            };
            let sum = state.snapshot.json_task_retained_bytes + plan + state.pending_bytes
                + state.output_bytes + state.host_retained_bytes + slots * size_of::<ScanMetadata>();
            &&& state.retained(slots) is Ok <==> sum <= usize::MAX
            &&& state.retained(slots) matches Ok(bytes) ==> bytes == sum
        }),
{
}

/// More is owned by a scan exactly where it fits beside the greater of what the state holds and what
/// the ledger says is held.
pub proof fn scans_take_more_where_there_is_room<K: TableKernel>(
    state: ScanState<K>,
    slots: usize,
    book: LedgerView,
    extra: usize,
)
    ensures
        ({
            let own = state.owners(slots) + size_of::<TaskMachine<ScanState<K>>>();
            let held = book.held(Resource::TaskStateBytes);
            state.room(slots, book).considered(book.limits, state.limits, extra) is Ok <==> {
                &&& own <= usize::MAX
                &&& own + extra <= book.limits.allowance(Resource::TaskStateBytes)
                &&& held + extra <= book.limits.allowance(Resource::TaskStateBytes)
                &&& state.host_retained_bytes > 0 ==> own + extra <= book.limits.allowance(
                    Resource::MetadataAllocatedBytes,
                ) && held + extra <= book.limits.allowance(Resource::MetadataAllocatedBytes)
            }
        }),
{
}

/// The next batch is opened exactly where a slot is free, the visitor's owners have room and the work
/// of its rows is within the allowance. Only that work is charged.
pub proof fn batches_are_opened_where_there_is_room<K: TableKernel>(
    state: ScanState<K>,
    slots: usize,
    book: LedgerView,
    other: Resource,
)
    requires
        state.pending@.len() > 0,
    ensures
        ({
            let (opened, after) = state.batch_opened(slots, book);
            let work = scan_steps(0, state.pending@[0].row_count() as nat);
            &&& opened is Ok <==> {
                &&& state.output@.len() != slots
                &&& scan_owners() <= usize::MAX
                &&& state.room(slots, book).considered(
                    book.limits,
                    state.limits,
                    scan_owners() as usize,
                ) is Ok
                &&& book.spent(Resource::WorkUnits) + work <= book.limits.allowance(
                    Resource::WorkUnits,
                )
            }
            &&& opened matches Ok(fixed) ==> {
                &&& fixed == scan_owners()
                &&& after.spent(Resource::WorkUnits) == book.spent(Resource::WorkUnits) + work
                &&& other != Resource::WorkUnits ==> (after.counters)(other) == (book.counters)(
                    other,
                )
            }
            &&& opened is Err ==> after == book
        }),
{
    let work = scan_steps(0, state.pending@[0].row_count() as nat);
    if work <= usize::MAX {
        crate::ledger::books_take_charges_up_to_their_allowance(
            book,
            Resource::WorkUnits,
            work as usize,
            other,
        );
    }
}

/// A visited batch is handed over exactly where its bytes are pending, the table could read its files,
/// every file is valid, and one more chunk and the bytes it keeps are within the allowances of the
/// output. Its bytes, one for each row and its own slot are then the output's.
pub proof fn valid_batches_are_handed_over<K: TableKernel>(
    state: ScanState<K>,
    later: ScanState<K>,
    files: Result<Vec<ScanRow>, Error>,
    bytes: usize,
    book: LedgerView,
    after: LedgerView,
    r: Result<(), OperationFailure>,
)
    requires
        state.pending@.len() > 0,
        state.batch_kept(later, files, bytes, book, after, r),
    ensures
        ({
            let kept = bytes + state.pending@[0].row_count() + size_of::<ScanMetadata>();
            &&& r is Ok <==> {
                &&& bytes <= state.pending_bytes
                &&& files matches Ok(files)
                &&& files_judged(state.snapshot.configuration.table_root@, files@) is Ok
                &&& kept <= usize::MAX
                &&& book.spent(Resource::OutputChunks) + 1 <= book.limits.allowance(
                    Resource::OutputChunks,
                )
                &&& book.spent(Resource::OutputBytes) + kept <= book.limits.allowance(
                    Resource::OutputBytes,
                )
                &&& state.output_bytes + kept <= usize::MAX
            }
            &&& r is Ok ==> {
                &&& later.output_bytes == state.output_bytes + kept
                &&& after.spent(Resource::OutputBytes) == book.spent(Resource::OutputBytes) + kept
                &&& after.spent(Resource::OutputChunks) == book.spent(Resource::OutputChunks) + 1
            }
        }),
{
    crate::ledger::books_take_charges_up_to_their_allowance(
        book,
        Resource::OutputChunks,
        1,
        Resource::OutputBytes,
    );
    let kept = bytes + state.pending@[0].row_count() + size_of::<ScanMetadata>();
    if kept <= usize::MAX {
        crate::ledger::books_take_charges_up_to_their_allowance(
            book.charged(Resource::OutputChunks, 1),
            Resource::OutputBytes,
            kept as usize,
            Resource::OutputChunks,
        );
    }
}

} // verus!
