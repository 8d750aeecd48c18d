//! The scan task: its turns, its requests and its responses.

use crate::accounting::{
    PendingWork, Resource, ResourceUsage, TaskAccounting, TaskLimits, TaskUsage,
};
use crate::backing::{reserve_exact, vec_capacity};
use crate::bytes::utf8;
use crate::checks::{allowed, check, counted, outcome, uncountable};
use crate::evaluation::{Batch, EvaluationPage};
use crate::failure::{
    Error, ErrorSource, FailureKind, OperationFailure, ResourceExhausted, TaskProtocolError,
};
use crate::json_plans::{scan_budgeted, JsonPlanBudget};
use crate::json_replay::{charge_page, host_bytes, most_of, page_charged};
use crate::json_scan::{output_slots, ScanState, TurnUse};
use crate::json_snapshot::saturated;
use crate::json_url_allocation::{join_bytes, join_peak, join_steps, join_work};
use crate::json_visitor_allocation::{
    scan_columns, scan_fixed_peak, scan_owners, scan_paths, scan_steps, scan_work,
};
use crate::ledger::LedgerView;
use crate::machine::{observation, semantic_work, TaskAction, TaskMachine, TaskState};
use crate::plan::Plan;
use crate::plan_admission::{AdmittedPlan, PlanAdmissionError};
use crate::protocol::{
    CancelDisposition, CancelReason, CpuSlice, EvaluationKey, OperationTask, RequestKey, TaskId,
    TaskRequestV1, TaskResponseV1, TaskStep,
};
use crate::refusals::Refusal;
use crate::rows::{carries, outside, RowView};
use crate::sizing::{fitted, plus, size};
use crate::scan_preflight::files_judged;
use crate::snapshot_task::{action_of, completion_of};
use crate::table::{KernelLayout, ScanMetadata, ScanRow, Snapshot, TableKernel};
use crate::table_support::{evaluation_bounds, task_evaluation_limits};
use std::sync::Arc;
use vstd::arithmetic::overflow::CheckedUsize;
use vstd::layout::size_of;
use vstd::prelude::*;

verus! {

broadcast use {
    crate::accounting::usage_parts,
    crate::ledger::semantic_work_chains,
    crate::ledger::idleness_is_semantic_work,
};

impl<K: TableKernel> ScanState<K> {
    /// `r` follows from what the table implementation read out of an admitted batch.
    pub open spec fn files_followed(
        self,
        later: ScanState<K>,
        files: Result<Vec<ScanRow>, Error>,
        next: TurnUse,
        book: LedgerView,
        after: LedgerView,
        r: Result<Option<TurnUse>, OperationFailure>,
    ) -> bool {
        &&& call_ensures(K::scan_rows, (&self.kernel, &self.pending@[0]), files)
        &&& exists|kept: Result<(), OperationFailure>|
            {
                &&& #[trigger] self.batch_kept(
                    later,
                    files,
                    self.next_charge()->Ok_0,
                    book,
                    after,
                    kept,
                )
                &&& match kept {
                    Ok(()) => r == Ok::<Option<TurnUse>, OperationFailure>(Some(next)),
                    Err(failure) => r == Err::<Option<TurnUse>, OperationFailure>(failure),
                }
            }
    }

    /// `r` follows from a preflight that says what the rows own.
    pub open spec fn preflight_followed(
        self,
        later: ScanState<K>,
        slots: usize,
        fixed: usize,
        owned: Result<usize, OperationFailure>,
        files: Result<Vec<ScanRow>, Error>,
        next: TurnUse,
        book: LedgerView,
        after: LedgerView,
        r: Result<Option<TurnUse>, OperationFailure>,
    ) -> bool {
        match owned {
            Err(failure) => after == book && r == Err::<Option<TurnUse>, OperationFailure>(failure),
            Ok(peak) => match self.visit_owned(slots, fixed, peak, book) {
                Err(kind) => after == book && (r matches Err(failure) && failure.is_terminal(kind)),
                Ok(()) => self.files_followed(later, files, next, book, after, r),
            },
        }
    }

    /// `r` follows from opening the next batch, with the storage behind the output as measured.
    pub open spec fn opening_followed(
        self,
        later: ScanState<K>,
        slots: usize,
        next: TurnUse,
        book: LedgerView,
        after: LedgerView,
        r: Result<Option<TurnUse>, OperationFailure>,
    ) -> bool {
        let (opened, charged) = self.batch_opened(slots, book);
        &&& slots >= self.output@.len()
        &&& match opened {
            Err(kind) => after == charged && (r matches Err(failure) && failure.is_terminal(kind)),
            Ok(fixed) => exists|
                view: Result<RowView, Error>,
                between: LedgerView,
                owned: Result<usize, OperationFailure>,
                files: Result<Vec<ScanRow>, Error>,
            |
                {
                    &&& self.pending@[0].shows(scan_columns(), view)
                    &&& #[trigger] self.rows_preflighted(view, charged, between, owned)
                    &&& #[trigger] self.preflight_followed(
                        later,
                        slots,
                        fixed,
                        owned,
                        files,
                        next,
                        between,
                        after,
                        r,
                    )
                },
        }
    }

    /// `r` is what looking at the next batch gives: how much of the turn is used then, or none
    /// where the batch waits.
    #[verifier::opaque]
    pub open spec fn batch_scanned(
        self,
        later: ScanState<K>,
        used: TurnUse,
        cpu: CpuSlice,
        ledger: TaskAccounting,
        after: TaskAccounting,
        r: Result<Option<TurnUse>, OperationFailure>,
    ) -> bool {
        match self.batch_fits(used, cpu) {
            Err(kind) => after == ledger && (r matches Err(failure) && failure.is_terminal(kind)),
            Ok(None) => {
                &&& r == Ok::<Option<TurnUse>, OperationFailure>(None)
                &&& later == self
                &&& after == ledger
            },
            Ok(Some(next)) => exists|slots: usize| #[trigger]
                self.opening_followed(later, slots, next, ledger.book(), after.book(), r),
        }
    }

    /// Looks at the next batch.
    pub fn scan_batch(&mut self, used: TurnUse, cpu: CpuSlice, accounting: &mut TaskAccounting) -> (r:
        Result<Option<TurnUse>, OperationFailure>)
        requires
            old(self).pending@.len() > 0,
        ensures
            old(self).batch_scanned(
                *final(self),
                used,
                cpu,
                *old(accounting),
                *final(accounting),
                r,
            ),
            semantic_work(*old(accounting), *final(accounting)),
    {
        proof {
            reveal(ScanState::batch_scanned);
        }
        let next = match self.fit_batch(used, cpu) {
            Ok(Some(next)) => next,
            Ok(None) => return Ok(None),
            Err(failure) => return Err(failure),
        };
        let ghost before = *self;
        let ghost book = accounting.book();
        let ghost nothing: Result<Vec<ScanRow>, Error> = Err(Error::Cancelled);
        let bytes: usize = match self.pending[0].accounted_bytes() {
            Ok(bytes) => bytes,
            Err(error) => return Err(OperationFailure::exhausted(error)),
        };
        let slots: usize = vec_capacity(&self.output);
        let opened = self.open_batch(slots, accounting);
        let ghost charged = accounting.book();
        let fixed: usize = match opened {
            Ok(fixed) => fixed,
            Err(failure) => {
                let r = Err(failure);
                assert(before.opening_followed(*self, slots, next, book, accounting.book(), r));
                return r;
            },
        };
        let view = self.pending[0].visit_rows(&scan_paths());
        let ghost seen = view;
        let judged = self.preflight_rows(view, accounting);
        let ghost owned = judged;
        let ghost between = accounting.book();
        assert(before.rows_preflighted(seen, charged, between, owned));
        let peak: usize = match judged {
            Ok(peak) => peak,
            Err(failure) => {
                let r = Err(failure);
                assert(before.preflight_followed(
                    *self,
                    slots,
                    fixed,
                    owned,
                    nothing,
                    next,
                    between,
                    accounting.book(),
                    r,
                ));
                assert(before.opening_followed(*self, slots, next, book, accounting.book(), r));
                return r;
            },
        };
        match self.own_visit(slots, fixed, peak, accounting) {
            Ok(()) => {},
            Err(failure) => {
                let r = Err(failure);
                assert(before.preflight_followed(
                    *self,
                    slots,
                    fixed,
                    owned,
                    nothing,
                    next,
                    between,
                    accounting.book(),
                    r,
                ));
                assert(before.opening_followed(*self, slots, next, book, accounting.book(), r));
                return r;
            },
        }
        let files = self.kernel.scan_rows(&self.pending[0]);
        let ghost named = files;
        let kept = self.keep_batch(files, bytes, accounting);
        let ghost said = kept;
        assert(before.batch_kept(*self, named, bytes, between, accounting.book(), said));
        let r: Result<Option<TurnUse>, OperationFailure> = match kept {
            Ok(()) => Ok(Some(next)),
            Err(failure) => Err(failure),
        };
        assert(before.files_followed(*self, named, next, between, accounting.book(), r));
        assert(before.preflight_followed(
            *self,
            slots,
            fixed,
            owned,
            named,
            next,
            between,
            accounting.book(),
            r,
        ));
        assert(before.opening_followed(*self, slots, next, book, accounting.book(), r));
        r
    }

    /// The states, ledgers and uses are those of a run of batches, one after the other.
    pub open spec fn batches_scanned(
        states: Seq<ScanState<K>>,
        ledgers: Seq<TaskAccounting>,
        uses: Seq<TurnUse>,
        cpu: CpuSlice,
    ) -> bool {
        &&& states.len() > 0
        &&& states.len() == ledgers.len()
        &&& states.len() == uses.len()
        &&& forall|i: int|
            0 <= i < states.len() - 1 ==> (#[trigger] states[i]).pending@.len() > 0
                && states[i].batch_scanned(
                states[i + 1],
                uses[i],
                cpu,
                ledgers[i],
                ledgers[i + 1],
                Ok::<Option<TurnUse>, OperationFailure>(Some(uses[i + 1])),
            )
    }

    /// The state with its pending batches released.
    pub open spec fn pending_released(self, later: ScanState<K>) -> bool {
        &&& later == (ScanState { pending: later.pending, pending_bytes: 0, ..self })
        &&& later.pending@.len() == 0
    }

    /// `r` is what a turn over the pending batches gives. Says whether batches are left.
    pub open spec fn scan_turned(
        self,
        later: ScanState<K>,
        cpu: CpuSlice,
        states: Seq<ScanState<K>>,
        ledgers: Seq<TaskAccounting>,
        uses: Seq<TurnUse>,
        ledger: TaskAccounting,
        after: TaskAccounting,
        r: Result<bool, OperationFailure>,
    ) -> bool {
        let last = states.last();
        &&& ScanState::batches_scanned(states, ledgers, uses, cpu)
        &&& states[0] == self
        &&& ledgers[0] == ledger
        &&& uses[0] == (TurnUse { rows: 0, bytes: 0 })
        &&& match r {
            Ok(true) => {
                &&& last.pending@.len() > 0
                &&& last.batch_fits(uses.last(), cpu) == Ok::<Option<TurnUse>, FailureKind>(None)
                &&& later == last
                &&& after == ledgers.last()
            },
            Ok(false) => {
                &&& last.pending@.len() == 0
                &&& last.pending_released(later)
                &&& after == ledgers.last()
            },
            Err(failure) => {
                &&& last.pending@.len() > 0
                &&& last.batch_scanned(
                    later,
                    uses.last(),
                    cpu,
                    ledgers.last(),
                    after,
                    Err::<Option<TurnUse>, OperationFailure>(failure),
                )
            },
        }
    }

    /// Looks at pending batches, as many as one turn allows. Says whether batches are left.
    pub fn scan_turn(&mut self, cpu: CpuSlice, accounting: &mut TaskAccounting) -> (r: Result<
        bool,
        OperationFailure,
    >)
        ensures
            exists|states: Seq<ScanState<K>>, ledgers: Seq<TaskAccounting>, uses: Seq<TurnUse>|
                #[trigger] old(self).scan_turned(
                    *final(self),
                    cpu,
                    states,
                    ledgers,
                    uses,
                    *old(accounting),
                    *final(accounting),
                    r,
                ),
            semantic_work(*old(accounting), *final(accounting)),
    {
        let ghost before = *self;
        let ghost ledger = *accounting;
        let mut used = TurnUse { rows: 0, bytes: 0 };
        let ghost mut states: Seq<ScanState<K>> = Seq::empty().push(before);
        let ghost mut ledgers: Seq<TaskAccounting> = Seq::empty().push(ledger);
        let ghost mut uses: Seq<TurnUse> = Seq::empty().push(used);
        while self.pending.len() > 0
            invariant
                before == *old(self),
                ledger == *old(accounting),
                ScanState::batches_scanned(states, ledgers, uses, cpu),
                states[0] == before,
                ledgers[0] == ledger,
                uses[0] == (TurnUse { rows: 0, bytes: 0 }),
                states.last() == *self,
                ledgers.last() == *accounting,
                uses.last() == used,
                semantic_work(*old(accounting), *accounting),
            decreases self.pending@.len(),
        {
            let ghost previous = *self;
            let ghost held = *accounting;
            let scanned = self.scan_batch(used, cpu, accounting);
            let ghost said = scanned;
            match scanned {
                Ok(Some(next)) => {
                    proof {
                        let longer = states.push(*self);
                        let more = ledgers.push(*accounting);
                        let further = uses.push(next);
                        assert forall|i: int| 0 <= i < longer.len() - 1 implies (
                        #[trigger] longer[i]).pending@.len() > 0 && longer[i].batch_scanned(
                            longer[i + 1],
                            further[i],
                            cpu,
                            more[i],
                            more[i + 1],
                            Ok::<Option<TurnUse>, OperationFailure>(Some(further[i + 1])),
                        ) by {
                            if i < states.len() - 1 {
                                assert(states[i].pending@.len() > 0);
                            } else {
                                assert(longer[i] == previous);
                                assert(longer[i + 1] == *self);
                                assert(more[i] == held);
                                assert(further[i] == used);
                                assert(said == Ok::<Option<TurnUse>, OperationFailure>(Some(next)));
                            }
                        }
                        states = longer;
                        ledgers = more;
                        uses = further;
                        scanned_batches_leave(previous, *self, used, cpu, held, *accounting, next);
                    }
                    used = next;
                },
                Ok(None) => {
                    let r: Result<bool, OperationFailure> = Ok(true);
                    proof {
                        waiting_batches_stay(previous, *self, used, cpu, held, *accounting);
                    }
                    assert(before.scan_turned(
                        *self,
                        cpu,
                        states,
                        ledgers,
                        uses,
                        ledger,
                        *accounting,
                        r,
                    ));
                    return r;
                },
                Err(failure) => {
                    let r: Result<bool, OperationFailure> = Err(failure);
                    assert(before.scan_turned(
                        *self,
                        cpu,
                        states,
                        ledgers,
                        uses,
                        ledger,
                        *accounting,
                        r,
                    ));
                    return r;
                },
            }
        }
        self.pending = Vec::new();
        self.pending_bytes = 0;
        let r: Result<bool, OperationFailure> = Ok(false);
        assert(before.scan_turned(*self, cpu, states, ledgers, uses, ledger, *accounting, r));
        r
    }
}

/// A batch that was looked at is no longer pending, and fitted into its turn.
proof fn scanned_batches_leave<K: TableKernel>(
    state: ScanState<K>,
    later: ScanState<K>,
    used: TurnUse,
    cpu: CpuSlice,
    ledger: TaskAccounting,
    after: TaskAccounting,
    next: TurnUse,
)
    requires
        state.pending@.len() > 0,
        state.batch_scanned(
            later,
            used,
            cpu,
            ledger,
            after,
            Ok::<Option<TurnUse>, OperationFailure>(Some(next)),
        ),
    ensures
        later.pending@.len() == state.pending@.len() - 1,
        state.batch_fits(used, cpu) == Ok::<Option<TurnUse>, FailureKind>(Some(next)),
{
    reveal(ScanState::batch_scanned);
    let fit = state.batch_fits(used, cpu)->Ok_0->Some_0;
    let r = Ok::<Option<TurnUse>, OperationFailure>(Some(next));
    let slots = choose|slots: usize| #[trigger]
        state.opening_followed(later, slots, fit, ledger.book(), after.book(), r);
    let (opened, charged) = state.batch_opened(slots, ledger.book());
    let fixed = opened->Ok_0;
    let (view, between, owned, files) = choose|
        view: Result<RowView, Error>,
        between: LedgerView,
        owned: Result<usize, OperationFailure>,
        files: Result<Vec<ScanRow>, Error>,
    |
        {
            &&& #[trigger] state.rows_preflighted(view, charged, between, owned)
            &&& #[trigger] state.preflight_followed(
                later,
                slots,
                fixed,
                owned,
                files,
                fit,
                between,
                after.book(),
                r,
            )
        };
    assert(state.files_followed(later, files, fit, between, after.book(), r));
    let kept = choose|kept: Result<(), OperationFailure>|
        {
            &&& #[trigger] state.batch_kept(
                later,
                files,
                state.next_charge()->Ok_0,
                between,
                after.book(),
                kept,
            )
            &&& match kept {
                Ok(()) => r == Ok::<Option<TurnUse>, OperationFailure>(Some(fit)),
                Err(failure) => r == Err::<Option<TurnUse>, OperationFailure>(failure),
            }
        };
    assert(kept is Ok);
}

/// A batch that was looked at left the pending ones from the front and joined the output at the end.
proof fn scanned_batches_join<K: TableKernel>(
    state: ScanState<K>,
    later: ScanState<K>,
    used: TurnUse,
    cpu: CpuSlice,
    ledger: TaskAccounting,
    after: TaskAccounting,
    next: TurnUse,
)
    requires
        state.pending@.len() > 0,
        state.batch_scanned(
            later,
            used,
            cpu,
            ledger,
            after,
            Ok::<Option<TurnUse>, OperationFailure>(Some(next)),
        ),
    ensures
        later.pending@ == state.pending@.drop_first(),
        later.output@.len() == state.output@.len() + 1,
        later.output@.drop_last() == state.output@,
        later.output@.last().scan_files.data == state.pending@[0],
        later.done == state.done,
        later.evaluation == state.evaluation,
        later.plan == state.plan,
        later.snapshot == state.snapshot,
{
    reveal(ScanState::batch_scanned);
    let fit = state.batch_fits(used, cpu)->Ok_0->Some_0;
    let r = Ok::<Option<TurnUse>, OperationFailure>(Some(next));
    let slots = choose|slots: usize| #[trigger]
        state.opening_followed(later, slots, fit, ledger.book(), after.book(), r);
    let (opened, charged) = state.batch_opened(slots, ledger.book());
    let fixed = opened->Ok_0;
    let (view, between, owned, files) = choose|
        view: Result<RowView, Error>,
        between: LedgerView,
        owned: Result<usize, OperationFailure>,
        files: Result<Vec<ScanRow>, Error>,
    |
        {
            &&& #[trigger] state.rows_preflighted(view, charged, between, owned)
            &&& #[trigger] state.preflight_followed(
                later,
                slots,
                fixed,
                owned,
                files,
                fit,
                between,
                after.book(),
                r,
            )
        };
    assert(state.files_followed(later, files, fit, between, after.book(), r));
    let kept = choose|kept: Result<(), OperationFailure>|
        {
            &&& #[trigger] state.batch_kept(
                later,
                files,
                state.next_charge()->Ok_0,
                between,
                after.book(),
                kept,
            )
            &&& match kept {
                Ok(()) => r == Ok::<Option<TurnUse>, OperationFailure>(Some(fit)),
                Err(failure) => r == Err::<Option<TurnUse>, OperationFailure>(failure),
            }
        };
    assert(kept is Ok);
    kept_batches_move_in_order(
        state,
        later,
        files,
        state.next_charge()->Ok_0,
        between,
        after.book(),
    );
}

/// A turn over scanned batches stays within its slice: all that was looked at has no more rows and
/// bytes than the turn allows.
pub proof fn scan_turns_stay_within_their_slice<K: TableKernel>(
    states: Seq<ScanState<K>>,
    ledgers: Seq<TaskAccounting>,
    uses: Seq<TurnUse>,
    cpu: CpuSlice,
    i: int,
)
    requires
        ScanState::batches_scanned(states, ledgers, uses, cpu),
        uses[0] == (TurnUse { rows: 0, bytes: 0 }),
        0 <= i < uses.len(),
    ensures
        uses[i].rows <= cpu.record_cap(),
        uses[i].bytes <= cpu.byte_cap(),
{
    if i > 0 {
        assert(states[i - 1].pending@.len() > 0);
        scanned_batches_leave(
            states[i - 1],
            states[i - 1 + 1],
            uses[i - 1],
            cpu,
            ledgers[i - 1],
            ledgers[i - 1 + 1],
            uses[i - 1 + 1],
        );
    }
}

/// A batch that waits leaves everything as it was.
proof fn waiting_batches_stay<K: TableKernel>(
    state: ScanState<K>,
    later: ScanState<K>,
    used: TurnUse,
    cpu: CpuSlice,
    ledger: TaskAccounting,
    after: TaskAccounting,
)
    requires
        state.batch_scanned(
            later,
            used,
            cpu,
            ledger,
            after,
            Ok::<Option<TurnUse>, OperationFailure>(None),
        ),
    ensures
        later == state,
        after == ledger,
        state.batch_fits(used, cpu) == Ok::<Option<TurnUse>, FailureKind>(None),
{
    reveal(ScanState::batch_scanned);
    let r = Ok::<Option<TurnUse>, OperationFailure>(None);
    if let Ok(Some(fit)) = state.batch_fits(used, cpu) {
        let slots = choose|slots: usize| #[trigger]
            state.opening_followed(later, slots, fit, ledger.book(), after.book(), r);
        let (opened, charged) = state.batch_opened(slots, ledger.book());
        let fixed = opened->Ok_0;
        let (view, between, owned, files) = choose|
            view: Result<RowView, Error>,
            between: LedgerView,
            owned: Result<usize, OperationFailure>,
            files: Result<Vec<ScanRow>, Error>,
        |
            {
                &&& #[trigger] state.rows_preflighted(view, charged, between, owned)
                &&& #[trigger] state.preflight_followed(
                    later,
                    slots,
                    fixed,
                    owned,
                    files,
                    fit,
                    between,
                    after.book(),
                    r,
                )
            };
        assert(state.files_followed(later, files, fit, between, after.book(), r));
    }
}

impl<K: TableKernel> ScanState<K> {
    /// `r` is what keeping a charged page gives, with `later` behind it: what the host keeps for the
    /// task is taken over before the page is admitted.
    pub open spec fn page_kept(
        self,
        later: ScanState<K>,
        page: EvaluationPage,
        host: usize,
        slots: usize,
        book: LedgerView,
        r: Result<(), OperationFailure>,
    ) -> bool {
        let held = ScanState { host_retained_bytes: host, ..self };
        &&& outcome(
            held.room(slots, book).considered(book.limits, self.limits, page.byte_total()),
            r,
        )
        &&& r is Err ==> later == held
        &&& r is Ok ==> {
            &&& later == (ScanState {
                pending: later.pending,
                pending_bytes: page.byte_total(),
                ..held
            })
            &&& later.pending@ == page.contents()
        }
    }

    /// `r` is what accepting a page gives, with `later` behind it. `reported` is what each batch of
    /// the page reports as kept by its host, and `slots` are those behind the output.
    pub open spec fn page_accepted(
        self,
        later: ScanState<K>,
        page: Option<EvaluationPage>,
        reported: Seq<usize>,
        slots: usize,
        book: LedgerView,
        after: LedgerView,
        r: Result<(), OperationFailure>,
    ) -> bool {
        let (charged, spent) = page_charged(self.limits, page, book);
        &&& after == spent
        &&& match charged {
            Err(kind) => (r matches Err(failure) && failure.is_terminal(kind)) && later == self,
            Ok(()) => match page {
                None => r is Ok && later == (ScanState { done: true, ..self }),
                Some(page) => {
                    &&& reported.len() == page.contents().len()
                    &&& slots >= self.output@.len()
                    &&& self.page_kept(
                        later,
                        page,
                        most_of(self.host_retained_bytes, reported),
                        slots,
                        after,
                        r,
                    )
                },
            },
        }
    }

    /// Keeps a charged page, with what the host keeps for the task and the slots behind the output
    /// as they were found.
    pub fn keep_page_sized(
        &mut self,
        page: EvaluationPage,
        host: usize,
        slots: usize,
        accounting: &TaskAccounting,
    ) -> (r: Result<(), OperationFailure>)
        ensures
            old(self).page_kept(*final(self), page, host, slots, accounting.book(), r),
    {
        self.host_retained_bytes = host;
        let headroom = self.headroom_sized(slots, accounting);
        match headroom.consider(accounting, &self.limits, page.accounted_bytes()) {
            Ok(()) => {
                self.pending_bytes = page.accounted_bytes();
                self.pending = page.into_batches();
                Ok(())
            },
            Err(failure) => Err(failure),
        }
    }

    /// Accepts a page of the evaluation, or its end. What the host keeps for the task is taken over
    /// before the page is admitted.
    pub fn accept_page(&mut self, page: Option<EvaluationPage>, accounting: &mut TaskAccounting) -> (r:
        Result<(), OperationFailure>)
        ensures
            exists|reported: Seq<usize>, slots: usize| #[trigger]
                old(self).page_accepted(
                    *final(self),
                    page,
                    reported,
                    slots,
                    old(accounting).book(),
                    final(accounting).book(),
                    r,
                ),
            semantic_work(*old(accounting), *final(accounting)),
    {
        let ghost before = *self;
        let ghost book = accounting.book();
        let ghost given = page;
        let ghost unreported = Seq::<usize>::empty();
        match charge_page(&self.limits, &page, accounting) {
            Ok(()) => {},
            Err(failure) => {
                let r = Err(failure);
                assert(before.page_accepted(
                    *self,
                    given,
                    unreported,
                    0,
                    book,
                    accounting.book(),
                    r,
                ));
                return r;
            },
        }
        let page = match page {
            Some(page) => page,
            None => {
                self.done = true;
                assert(before.page_accepted(
                    *self,
                    given,
                    unreported,
                    0,
                    book,
                    accounting.book(),
                    Ok::<(), OperationFailure>(()),
                ));
                return Ok(());
            },
        };
        let host: usize = host_bytes(&page, self.host_retained_bytes);
        let ghost reported = choose|reported: Seq<usize>|
            reported.len() == page.contents().len() && host == #[trigger] most_of(
                self.host_retained_bytes,
                reported,
            );
        let slots: usize = vec_capacity(&self.output);
        let r = self.keep_page_sized(page, host, slots, accounting);
        assert(before.page_accepted(*self, given, reported, slots, book, accounting.book(), r));
        r
    }

    /// What handing over the output gives: its container may be copied once more.
    pub open spec fn output_owned(self, slots: usize, book: LedgerView) -> Result<(), FailureKind> {
        self.room(slots, book).considered(
            book.limits,
            self.limits,
            saturated(self.output@.len() * size_of::<ScanMetadata>()) as usize,
        )
    }

    /// `r` is the output, of which `later` keeps nothing.
    pub open spec fn output_taken(
        self,
        later: ScanState<K>,
        slots: usize,
        book: LedgerView,
        r: Result<Vec<ScanMetadata>, OperationFailure>,
    ) -> bool {
        &&& slots >= self.output@.len()
        &&& match self.output_owned(slots, book) {
            Err(kind) => later == self && (r matches Err(failure) && failure.is_terminal(kind)),
            Ok(()) => {
                &&& r == Ok::<Vec<ScanMetadata>, OperationFailure>(self.output)
                &&& later == (ScanState { output: later.output, ..self })
                &&& later.output@.len() == 0
            },
        }
    }

    /// Takes the output.
    pub fn take_output(&mut self, accounting: &TaskAccounting) -> (r: Result<
        Vec<ScanMetadata>,
        OperationFailure,
    >)
        ensures
            exists|slots: usize| #[trigger]
                old(self).output_taken(*final(self), slots, accounting.book(), r),
    {
        let ghost before = *self;
        let slots: usize = vec_capacity(&self.output);
        let headroom = self.headroom_sized(slots, accounting);
        let extra: usize = output_slots(self.output.len());
        let r = match headroom.consider(accounting, &self.limits, extra) {
            Ok(()) => {
                let mut output: Vec<ScanMetadata> = Vec::new();
                core::mem::swap(&mut output, &mut self.output);
                Ok(output)
            },
            Err(failure) => Err(failure),
        };
        assert(before.output_taken(*self, slots, accounting.book(), r));
        r
    }

    /// `r` follows from a turn over the pending batches.
    pub open spec fn turn_followed(
        self,
        later: ScanState<K>,
        left: Result<bool, OperationFailure>,
        ledger: TaskAccounting,
        r: Result<TaskAction<Vec<ScanMetadata>>, OperationFailure>,
    ) -> bool {
        if left == Ok::<bool, OperationFailure>(false) && self.done {
            exists|slots: usize, output: Result<Vec<ScanMetadata>, OperationFailure>|
                {
                    &&& #[trigger] self.output_taken(later, slots, ledger.book(), output)
                    &&& completion_of(output, r)
                }
        } else {
            later == self && action_of(left, r)
        }
    }

    /// `r` is what a turn gives: behind the last batch of an ended evaluation the output is handed
    /// over, and behind any other last batch a page is requested.
    pub open spec fn advanced(
        self,
        later: ScanState<K>,
        cpu: CpuSlice,
        ledger: TaskAccounting,
        after: TaskAccounting,
        r: Result<TaskAction<Vec<ScanMetadata>>, OperationFailure>,
    ) -> bool {
        exists|
            turned: ScanState<K>,
            states: Seq<ScanState<K>>,
            ledgers: Seq<TaskAccounting>,
            uses: Seq<TurnUse>,
            left: Result<bool, OperationFailure>,
        |
            {
                &&& #[trigger] self.scan_turned(
                    turned,
                    cpu,
                    states,
                    ledgers,
                    uses,
                    ledger,
                    after,
                    left,
                )
                &&& turned.turn_followed(later, left, after, r)
            }
    }

    /// `r` is the next request: the plan, once, and the pages of its evaluation.
    pub open spec fn requested(
        self,
        later: ScanState<K>,
        r: Result<TaskRequestV1, OperationFailure>,
    ) -> bool {
        &&& later == (ScanState { plan: None, ..self })
        &&& match evaluation_bounds(self.limits) {
            Err(refusal) => r matches Err(failure) && refusal.delivered(failure),
            Ok(limits) => match self.plan {
                Some(plan) => r == Ok::<TaskRequestV1, OperationFailure>(
                    TaskRequestV1::EvaluationStart { evaluation: self.evaluation, plan, limits },
                ),
                None => r == Ok::<TaskRequestV1, OperationFailure>(
                    TaskRequestV1::Evaluation {
                        evaluation: self.evaluation,
                        limits: limits.each(),
                    },
                ),
            },
        }
    }

    /// `r` is what taking a response gives, before the turn behind it.
    pub open spec fn response_taken(
        self,
        later: ScanState<K>,
        response: TaskResponseV1,
        ledger: TaskAccounting,
        after: TaskAccounting,
        r: Result<(), OperationFailure>,
    ) -> bool {
        match response {
            TaskResponseV1::Evaluation { evaluation, page } if evaluation == self.evaluation => exists|
                reported: Seq<usize>,
                slots: usize,
            | #[trigger]
                self.page_accepted(later, page, reported, slots, ledger.book(), after.book(), r),
            _ => later == self && after == ledger && (r matches Err(failure) && failure.is_terminal(
                FailureKind::MalformedResponse,
            )),
        }
    }

    /// `r` is what resuming with a response gives: the response is taken, and a turn follows.
    pub open spec fn resumed(
        self,
        later: ScanState<K>,
        response: TaskResponseV1,
        cpu: CpuSlice,
        ledger: TaskAccounting,
        after: TaskAccounting,
        r: Result<TaskAction<Vec<ScanMetadata>>, OperationFailure>,
    ) -> bool {
        exists|mid: ScanState<K>, charged: TaskAccounting, taken: Result<(), OperationFailure>|
            {
                &&& #[trigger] self.response_taken(mid, response, ledger, charged, taken)
                &&& match taken {
                    Ok(()) => mid.advanced(later, cpu, charged, after, r),
                    Err(failure) => after == charged && r == Err::<
                        TaskAction<Vec<ScanMetadata>>,
                        OperationFailure,
                    >(failure),
                }
            }
    }

    fn take_response(&mut self, response: TaskResponseV1, accounting: &mut TaskAccounting) -> (r: Result<
        (),
        OperationFailure,
    >)
        ensures
            old(self).response_taken(
                *final(self),
                response,
                *old(accounting),
                *final(accounting),
                r,
            ),
            semantic_work(*old(accounting), *final(accounting)),
    {
        match response {
            TaskResponseV1::Evaluation { evaluation, page } => {
                if evaluation != self.evaluation {
                    return Err(OperationFailure::malformed_response());
                }
                self.accept_page(page, accounting)
            },
            _ => Err(OperationFailure::malformed_response()),
        }
    }
}

impl<K: TableKernel> TaskState for ScanState<K> {
    type Output = Vec<ScanMetadata>;

    open spec fn advances(
        &self,
        later: &ScanState<K>,
        cpu: CpuSlice,
        ledger: TaskAccounting,
        after: TaskAccounting,
        r: Result<TaskAction<Vec<ScanMetadata>>, OperationFailure>,
    ) -> bool {
        self.advanced(*later, cpu, ledger, after, r)
    }

    open spec fn requests(
        &self,
        later: &ScanState<K>,
        ledger: TaskAccounting,
        after: TaskAccounting,
        r: Result<TaskRequestV1, OperationFailure>,
    ) -> bool {
        self.requested(*later, r) && after == ledger
    }

    open spec fn resumes(
        &self,
        later: &ScanState<K>,
        response: TaskResponseV1,
        cpu: CpuSlice,
        ledger: TaskAccounting,
        after: TaskAccounting,
        r: Result<TaskAction<Vec<ScanMetadata>>, OperationFailure>,
    ) -> bool {
        self.resumed(*later, response, cpu, ledger, after, r)
    }

    fn retained_bytes(&self) -> (r: Result<usize, ResourceExhausted>)
        ensures
            exists|slots: usize|
                slots >= self.output@.len() && r == #[trigger] self.retained(slots),
    {
        let slots: usize = vec_capacity(&self.output);
        self.retained_bytes_sized(slots)
    }

    fn advance(&mut self, cpu: CpuSlice, accounting: &mut TaskAccounting) -> (r: Result<
        TaskAction<Vec<ScanMetadata>>,
        OperationFailure,
    >)
        ensures
            old(self).advanced(*final(self), cpu, *old(accounting), *final(accounting), r),
    {
        let ghost before = *self;
        let ghost ledger = *accounting;
        let scanned = self.scan_turn(cpu, accounting);
        let ghost left = scanned;
        let ghost turned = *self;
        let ghost (states, ledgers, uses) = choose|
            states: Seq<ScanState<K>>,
            ledgers: Seq<TaskAccounting>,
            uses: Seq<TurnUse>,
        |
            #[trigger] before.scan_turned(
                turned,
                cpu,
                states,
                ledgers,
                uses,
                ledger,
                *accounting,
                left,
            );
        let more = match scanned {
            Ok(more) => more,
            Err(failure) => {
                let r = Err(failure);
                assert(turned.turn_followed(*self, left, *accounting, r));
                return r;
            },
        };
        if more {
            let r = Ok(TaskAction::Yield);
            assert(turned.turn_followed(*self, left, *accounting, r));
            return r;
        }
        if !self.done {
            let r = Ok(TaskAction::Request);
            assert(turned.turn_followed(*self, left, *accounting, r));
            return r;
        }
        let taken = self.take_output(accounting);
        let ghost output = taken;
        let r = match taken {
            Ok(output) => Ok(TaskAction::Complete(output)),
            Err(failure) => Err(failure),
        };
        proof {
            let slots = choose|slots: usize| #[trigger]
                turned.output_taken(*self, slots, accounting.book(), output);
            assert(turned.output_taken(*self, slots, accounting.book(), output));
            assert(completion_of(output, r));
        }
        assert(turned.turn_followed(*self, left, *accounting, r));
        r
    }

    fn take_request(&mut self, accounting: &mut TaskAccounting) -> (r: Result<
        TaskRequestV1,
        OperationFailure,
    >)
        ensures
            old(self).requested(*final(self), r),
            *final(accounting) == *old(accounting),
    {
        let plan = self.plan.take();
        let limits = match task_evaluation_limits(&self.limits) {
            Ok(limits) => limits,
            Err(failure) => return Err(failure),
        };
        match plan {
            Some(plan) => Ok(
                TaskRequestV1::EvaluationStart { evaluation: self.evaluation, plan, limits },
            ),
            None => Ok(
                TaskRequestV1::Evaluation { evaluation: self.evaluation, limits: limits.page() },
            ),
        }
    }

    fn resume(&mut self, response: TaskResponseV1, cpu: CpuSlice, accounting: &mut TaskAccounting) -> (r:
        Result<TaskAction<Vec<ScanMetadata>>, OperationFailure>)
        ensures
            old(self).resumed(*final(self), response, cpu, *old(accounting), *final(accounting), r),
    {
        let ghost before = *self;
        let ghost ledger = *accounting;
        let ghost given = response;
        let taken = self.take_response(response, accounting);
        let ghost said = taken;
        let ghost mid = *self;
        let ghost charged = *accounting;
        assert(before.response_taken(mid, given, ledger, charged, said));
        match taken {
            Ok(()) => self.advance(cpu, accounting),
            Err(failure) => Err(failure),
        }
    }
}

/// What a bound gives under its allowance.
pub open spec fn bound_admitted(bytes: nat, resource: Resource, limits: TaskLimits) -> Result<
    usize,
    FailureKind,
> {
    match fitted(bytes as int) {
        None => Err(uncountable(limits, resource)),
        Some(bytes) => match allowed(limits, resource, bytes as int) {
            Err(kind) => Err(kind),
            Ok(()) => Ok(bytes),
        },
    }
}

fn admit_bound(bytes: Option<usize>, resource: Resource, limits: &TaskLimits) -> (r: Result<
    usize,
    OperationFailure,
>)
    ensures
        match bytes {
            Some(bytes) => match allowed(*limits, resource, bytes as int) {
                Err(kind) => r matches Err(failure) && failure.is_terminal(kind),
                Ok(()) => r == Ok::<usize, OperationFailure>(bytes),
            },
            None => r matches Err(failure) && failure.is_terminal(uncountable(*limits, resource)),
        },
{
    let bytes: usize = counted(bytes, resource, limits)?;
    match check(resource, bytes, limits) {
        Ok(()) => Ok(bytes),
        Err(failure) => Err(failure),
    }
}

/// One independently identified evaluation of the JSON-only live-file plan.
///
/// The output is a finite, admitted collection in the existing scan-row representation. No
/// execution stream, future, storage handler or callback is retained by the semantic state.
pub struct ScanMetadataTask<K: TableKernel> {
    machine: TaskMachine<ScanState<K>>,
}

impl<K: TableKernel> ScanMetadataTask<K> {
    /// The protocol machine.
    pub closed spec fn protocol(self) -> TaskMachine<ScanState<K>> {
        self.machine
    }

    /// The slots of the output.
    pub open spec fn output_slots(limits: TaskLimits) -> usize {
        if limits.allowance(Resource::OutputChunks) <= limits.allowance(
            Resource::EvaluationBatches,
        ) {
            limits.allowance(Resource::OutputChunks)
        } else {
            limits.allowance(Resource::EvaluationBatches)
        }
    }

    /// What opening a task gives: the budget of its plan. The snapshot, the plan with its
    /// construction, both containers of the output and the task are owned together.
    pub open spec fn opened(
        id: TaskId,
        evaluation: EvaluationKey,
        snapshot: Snapshot,
        limits: TaskLimits,
        layout: KernelLayout,
    ) -> Result<JsonPlanBudget, Refusal> {
        let overflow = Refusal::Kind(uncountable(limits, Resource::TaskStateBytes));
        if evaluation.owner() != id.number() {
            Err(Refusal::Kind(FailureKind::MalformedResponse))
        } else {
            match snapshot.log_identity_manifest {
                None => Err(Refusal::Unsupported("scan tasks require a task-built snapshot"@)),
                Some(manifest) => match scan_budgeted(
                    manifest@,
                    snapshot.configuration.schema,
                    snapshot.configuration.stats_columns,
                    snapshot.json_task_retained_bytes,
                    layout,
                    limits,
                ) {
                    Err(error) => Err(Refusal::Plan(error)),
                    Ok(budget) => match fitted(
                        snapshot.json_task_retained_bytes + budget.backing
                            + ScanMetadataTask::<K>::output_slots(limits)
                            * size_of::<ScanMetadata>() * 2 + size_of::<ScanMetadataTask<K>>()
                            + size_of::<ScanState<K>>(),
                    ) {
                        None => Err(overflow),
                        Some(live) => match allowed(
                            limits,
                            Resource::TaskStateBytes,
                            live as int,
                        ) {
                            Err(kind) => Err(Refusal::Kind(kind)),
                            Ok(()) => Ok(budget),
                        },
                    },
                },
            }
        }
    }

    /// A state that has not handed over its plan.
    pub open spec fn fresh(
        state: ScanState<K>,
        kernel: K,
        evaluation: EvaluationKey,
        snapshot: Arc<Snapshot>,
        limits: TaskLimits,
    ) -> bool {
        &&& state.kernel == kernel
        &&& state.snapshot == snapshot
        &&& state.evaluation == evaluation
        &&& state.limits == limits
        &&& state.plan is Some
        &&& state.pending@.len() == 0
        &&& state.pending_bytes == 0
        &&& state.host_retained_bytes == 0
        &&& state.output@.len() == 0
        &&& state.output_bytes == 0
        &&& !state.done
    }

    /// `r` is the task of a plan, with the output's slots as they were denied or measured.
    pub open spec fn made(
        id: TaskId,
        limits: TaskLimits,
        budget: JsonPlanBudget,
        planned: Result<AdmittedPlan, PlanAdmissionError>,
        denied: Option<String>,
        state: ScanState<K>,
        slots: usize,
        r: Result<ScanMetadataTask<K>, OperationFailure>,
    ) -> bool {
        match planned {
            Err(error) => r matches Err(failure) && error.failed(failure),
            Ok(plan) => if let Some(reason) = denied {
                r matches Err(failure) && carries(
                    failure,
                    Error::GenericError { source: ErrorSource::Allocation(reason) },
                )
            } else {
                &&& state.plan == Some(plan)
                &&& slots >= state.output@.len()
                &&& match observation(
                    limits.allowance(Resource::TaskStateBytes),
                    TaskMachine::<ScanState<K>>::fixed(),
                    state.retained(slots),
                    None,
                ) {
                    Err(error) => r matches Err(failure) && failure.is_terminal(
                        FailureKind::ResourceExhausted(error),
                    ),
                    Ok((retained, _)) => {
                        &&& r matches Ok(task)
                        &&& task.protocol().wf()
                        &&& task.protocol().task() == id.number()
                        &&& task.protocol().next() == 1
                        &&& task.protocol().state() is New
                        &&& task.protocol().awaiting() is None
                        &&& task.protocol().continuation() == Some(state)
                        &&& task.protocol().ledger().allowances() == limits
                        &&& task.protocol().ledger().counters(Resource::WorkUnits)
                            == ResourceUsage::of(budget.work, 0, 0)
                        &&& task.protocol().ledger().counters(Resource::TaskStateBytes)
                            == ResourceUsage::of(0, retained, retained)
                    },
                }
            },
        }
    }

    /// Uses only a snapshot produced by a snapshot task, retaining the same immutable log identity
    /// manifest. Statistics pruning and caller predicates are excluded from metadata replay.
    ///
    /// The work of building the plan is recorded at once, so that cancelling before the start does
    /// not lose it.
    pub fn try_new(
        kernel: K,
        layout: KernelLayout,
        id: TaskId,
        evaluation: EvaluationKey,
        snapshot: Arc<Snapshot>,
        limits: TaskLimits,
    ) -> (r: Result<ScanMetadataTask<K>, OperationFailure>)
        ensures
            match ScanMetadataTask::<K>::opened(id, evaluation, *snapshot, limits, layout) {
                Err(refusal) => r matches Err(failure) && refusal.delivered(failure),
                Ok(budget) => exists|
                    built: Result<Option<Plan>, Error>,
                    planned: Result<AdmittedPlan, PlanAdmissionError>,
                    denied: Option<String>,
                    state: ScanState<K>,
                    slots: usize,
                |
                    {
                        &&& #[trigger] AdmittedPlan::scan_followed(
                            &kernel,
                            &*snapshot,
                            budget,
                            limits,
                            built,
                            planned,
                        )
                        &&& denied is None && planned is Ok ==> ScanMetadataTask::fresh(
                            state,
                            kernel,
                            evaluation,
                            snapshot,
                            limits,
                        )
                        &&& #[trigger] ScanMetadataTask::made(
                            id,
                            limits,
                            budget,
                            planned,
                            denied,
                            state,
                            slots,
                            r,
                        )
                    },
            },
    {
        let opened = ScanMetadataTask::<K>::open(&id, evaluation, &snapshot, &limits, &layout);
        let (budget, slots) = match opened {
            Ok(opened) => opened,
            Err(failure) => return Err(failure),
        };
        let planned = AdmittedPlan::try_scan_json(&kernel, &snapshot, &limits, &layout);
        let ghost built = choose|built: Result<Option<Plan>, Error>| #[trigger]
            AdmittedPlan::scan_followed(&kernel, &*snapshot, budget, limits, built, planned);
        assert(AdmittedPlan::scan_followed(&kernel, &*snapshot, budget, limits, built, planned));
        ScanMetadataTask::of_plan(
            kernel,
            id,
            evaluation,
            snapshot,
            limits,
            budget,
            slots,
            planned,
        )
    }

    fn open(
        id: &TaskId,
        evaluation: EvaluationKey,
        snapshot: &Snapshot,
        limits: &TaskLimits,
        layout: &KernelLayout,
    ) -> (r: Result<(JsonPlanBudget, usize), OperationFailure>)
        ensures
            match ScanMetadataTask::<K>::opened(*id, evaluation, *snapshot, *limits, *layout) {
                Err(refusal) => r matches Err(failure) && refusal.delivered(failure),
                Ok(budget) => r == Ok::<(JsonPlanBudget, usize), OperationFailure>(
                    (budget, ScanMetadataTask::<K>::output_slots(*limits)),
                ),
            },
    {
        if evaluation.task_id() != id.get() {
            return Err(OperationFailure::malformed_response());
        }
        let manifest = match &snapshot.log_identity_manifest {
            Some(manifest) => manifest,
            None => return Err(outside("scan tasks require a task-built snapshot")),
        };
        let budget = match JsonPlanBudget::preflight_scan(
            manifest,
            &snapshot.configuration.schema,
            &snapshot.configuration.stats_columns,
            snapshot.json_task_retained_bytes,
            limits,
            layout,
        ) {
            Ok(budget) => budget,
            Err(error) => return Err(error.into_failure()),
        };
        let chunks: usize = limits.limit(Resource::OutputChunks);
        let batches: usize = limits.limit(Resource::EvaluationBatches);
        let slots: usize = if chunks <= batches {
            chunks
        } else {
            batches
        };
        let container = CheckedUsize::new(slots).mul_value(
            core::mem::size_of::<ScanMetadata>(),
        ).mul_value(2);
        let live = plus(
            &plus(
                &plus(
                    &CheckedUsize::new(snapshot.json_task_retained_bytes).add_value(budget.backing),
                    &container,
                ),
                &size::<ScanMetadataTask<K>>(),
            ),
            &size::<ScanState<K>>(),
        );
        match admit_bound(live.to_option(), Resource::TaskStateBytes, limits) {
            Ok(_) => Ok((budget, slots)),
            Err(failure) => Err(failure),
        }
    }

    fn of_plan(
        kernel: K,
        id: TaskId,
        evaluation: EvaluationKey,
        snapshot: Arc<Snapshot>,
        limits: TaskLimits,
        budget: JsonPlanBudget,
        slots: usize,
        planned: Result<AdmittedPlan, PlanAdmissionError>,
    ) -> (r: Result<ScanMetadataTask<K>, OperationFailure>)
        requires
            budget.work <= limits.allowance(Resource::WorkUnits),
        ensures
            exists|denied: Option<String>, state: ScanState<K>, measured: usize|
                {
                    &&& denied is None && planned is Ok ==> ScanMetadataTask::fresh(
                        state,
                        kernel,
                        evaluation,
                        snapshot,
                        limits,
                    )
                    &&& #[trigger] ScanMetadataTask::made(
                        id,
                        limits,
                        budget,
                        planned,
                        denied,
                        state,
                        measured,
                        r,
                    )
                },
    {
        let ghost given = planned;
        let ghost token = id;
        let plan = match planned {
            Ok(plan) => plan,
            Err(error) => {
                let r = Err(error.into_failure());
                assert(ScanMetadataTask::<K>::made(
                    token,
                    limits,
                    budget,
                    given,
                    None,
                    arbitrary(),
                    0,
                    r,
                ));
                return r;
            },
        };
        let mut output: Vec<ScanMetadata> = Vec::new();
        if let Err(reason) = reserve_exact(&mut output, slots) {
            let ghost denied = Some(reason);
            let source = ErrorSource::Allocation(reason);
            let r = Err(OperationFailure::engine(Error::generic_err(source)));
            assert(ScanMetadataTask::<K>::made(
                token,
                limits,
                budget,
                given,
                denied,
                arbitrary(),
                0,
                r,
            ));
            return r;
        }
        let state = ScanState {
            kernel,
            snapshot,
            evaluation,
            limits,
            plan: Some(plan),
            pending: Vec::new(),
            pending_bytes: 0,
            host_retained_bytes: 0,
            output,
            output_bytes: 0,
            done: false,
        };
        let ghost begun = state;
        let made = TaskMachine::new(id, state, limits);
        let ghost dynamic = choose|dynamic: Result<usize, ResourceExhausted>| #[trigger]
            TaskMachine::begun(token, begun, limits, dynamic, made);
        let ghost measured = choose|measured: usize|
            measured >= begun.output@.len() && dynamic == #[trigger] begun.retained(measured);
        let r = match made {
            Ok(machine) => {
                let mut machine = machine;
                match machine.prepay(budget.work_units()) {
                    Ok(()) => Ok(ScanMetadataTask { machine }),
                    Err(error) => Err(OperationFailure::exhausted(error)),
                }
            },
            Err(failure) => Err(failure),
        };
        assert(ScanMetadataTask::made(token, limits, budget, given, None, begun, measured, r));
        r
    }

    /// Fixed owners used by the existing scan-file visitor. Adapters reserve this before visiting
    /// task-produced metadata again for file conversion.
    pub fn file_visitor_owner_bytes(limits: TaskLimits) -> (r: Result<usize, OperationFailure>)
        ensures
            outcome(bound_admitted(scan_owners(), Resource::TaskStateBytes, limits), r),
    {
        admit_bound(scan_fixed_peak(), Resource::TaskStateBytes, &limits)
    }

    /// Prepays the fixed setup and row and getter walks of a borrowed preflight followed by the
    /// existing scan-file visitor, including empty batches.
    pub fn file_visitor_work(rows: usize, limits: TaskLimits) -> (r: Result<usize, OperationFailure>)
        ensures
            outcome(bound_admitted(scan_steps(0, rows as nat), Resource::WorkUnits, limits), r),
    {
        admit_bound(scan_work(0, rows), Resource::WorkUnits, &limits)
    }

    /// URL join owners of a borrowed selected file path.
    pub fn file_path_owner_bytes(root_bytes: usize, path: &str, limits: TaskLimits) -> (r: Result<
        usize,
        OperationFailure,
    >)
        ensures
            outcome(
                bound_admitted(
                    join_bytes(root_bytes as nat, utf8(path@)),
                    Resource::TaskStateBytes,
                    limits,
                ),
                r,
            ),
    {
        admit_bound(join_peak(root_bytes, path), Resource::TaskStateBytes, &limits)
    }

    /// Checked semantic work for selected path cloning, URL join and confinement. Prepay the path's
    /// length before this function's allocation-free classification.
    pub fn file_path_work(root_bytes: usize, path: &str, limits: TaskLimits) -> (r: Result<
        usize,
        OperationFailure,
    >)
        ensures
            outcome(
                bound_admitted(
                    join_steps(root_bytes as nat, utf8(path@)),
                    Resource::WorkUnits,
                    limits,
                ),
                r,
            ),
    {
        admit_bound(join_work(root_bytes, path), Resource::WorkUnits, &limits)
    }

    /// Borrows cumulative and peak accounting after output transfer or cancellation.
    pub fn accounting(&self) -> (usage: TaskUsage<'_>)
        ensures
            usage.ledger() == self.protocol().ledger(),
    {
        self.machine.accounting()
    }
}

impl<K: TableKernel> OperationTask for ScanMetadataTask<K> {
    type Output = Vec<ScanMetadata>;

    fn pending_work(&mut self) -> (r: Result<PendingWork<'_>, TaskProtocolError>)
        ensures
            match (old(self).protocol().running_result(), old(self).protocol().awaiting()) {
                (Err(error), _) => r matches Err(e) && e == error,
                (Ok(()), None) => r matches Err(e) && e == TaskProtocolError::WrongKey,
                (Ok(()), Some((key, _))) => {
                    &&& r matches Ok(work)
                    &&& work.request() == key
                    &&& work.ledger() == old(self).protocol().ledger()
                    &&& final(self).protocol().ledger() == *final(work.loan())
                },
            },
            old(self).protocol().same_protocol(final(self).protocol()),
            r is Err ==> final(self).protocol().ledger() == old(self).protocol().ledger(),
    {
        self.machine.pending_work()
    }

    fn start(&mut self, cpu: CpuSlice) -> (r: Result<TaskStep<Vec<ScanMetadata>>, TaskProtocolError>)
        ensures
            old(self).protocol().start_outcome(final(self).protocol(), cpu, r),
    {
        self.machine.start(cpu)
    }

    fn progress(&mut self, cpu: CpuSlice) -> (r: Result<
        TaskStep<Vec<ScanMetadata>>,
        TaskProtocolError,
    >)
        ensures
            old(self).protocol().progress_outcome(final(self).protocol(), cpu, r),
    {
        self.machine.progress(cpu)
    }

    fn resume(
        &mut self,
        key: RequestKey,
        response: Result<TaskResponseV1, OperationFailure>,
        cpu: CpuSlice,
    ) -> (r: Result<TaskStep<Vec<ScanMetadata>>, TaskProtocolError>)
        ensures
            old(self).protocol().resume_outcome(final(self).protocol(), key, response, cpu, r),
    {
        self.machine.resume(key, response, cpu)
    }

    fn cancel(&mut self, reason: CancelReason) -> (disposition: CancelDisposition)
        ensures
            old(self).protocol().cancel_outcome(final(self).protocol(), disposition),
    {
        self.machine.cancel(reason)
    }
}

/// The plan of a scan is handed over once: whatever is requested behind it, it is not requested
/// again.
pub proof fn scan_plans_are_handed_over_once<K: TableKernel>(
    state: ScanState<K>,
    between: ScanState<K>,
    later: ScanState<K>,
    r: Result<TaskRequestV1, OperationFailure>,
    again: Result<TaskRequestV1, OperationFailure>,
)
    requires
        state.requested(between, r),
        between.requested(later, again),
    ensures
        between.plan is None,
        again matches Ok(request) ==> request is Evaluation,
{
}

/// A batch that is handed over leaves the pending ones from the front and joins the output at the
/// end; no other batch moves, and what it retains is within the allowance of the output.
pub proof fn kept_batches_move_in_order<K: TableKernel>(
    state: ScanState<K>,
    later: ScanState<K>,
    files: Result<Vec<ScanRow>, Error>,
    bytes: usize,
    book: LedgerView,
    after: LedgerView,
)
    requires
        state.pending@.len() > 0,
        state.batch_kept(later, files, bytes, book, after, Ok::<(), OperationFailure>(())),
    ensures
        later.pending@ == state.pending@.drop_first(),
        later.output@.drop_last() == state.output@,
        later.output@.last().scan_files.data == state.pending@[0],
        later.pending_bytes + bytes == state.pending_bytes,
        after.spent(Resource::OutputChunks) == book.spent(Resource::OutputChunks) + 1,
        after.spent(Resource::OutputBytes) <= book.limits.allowance(Resource::OutputBytes),
        files matches Ok(list) && files_judged(state.snapshot.configuration.table_root@, list@) is Ok,
{
}

/// Every row of the kept batches is selected, and no row is transformed.
pub open spec fn selects_every_row(output: Seq<ScanMetadata>) -> bool {
    forall|i: int|
        0 <= i < output.len() ==> {
            let kept = #[trigger] output[i];
            &&& kept.scan_file_transforms@.len() == 0
            &&& forall|j: int|
                0 <= j < kept.scan_files.selection@.len() ==> #[trigger] kept.scan_files.selection@[j]
        }
}

/// Keeping a batch keeps every row of every batch selected.
pub proof fn kept_batches_select_every_row<K: TableKernel>(
    state: ScanState<K>,
    later: ScanState<K>,
    files: Result<Vec<ScanRow>, Error>,
    bytes: usize,
    book: LedgerView,
    after: LedgerView,
)
    requires
        state.pending@.len() > 0,
        state.batch_kept(later, files, bytes, book, after, Ok::<(), OperationFailure>(())),
        selects_every_row(state.output@),
    ensures
        selects_every_row(later.output@),
        later.output@.last().scan_files.selection@.len() == state.pending@[0].row_count(),
{
    assert forall|i: int| 0 <= i < later.output@.len() implies {
        let kept = #[trigger] later.output@[i];
        &&& kept.scan_file_transforms@.len() == 0
        &&& forall|j: int|
            0 <= j < kept.scan_files.selection@.len() ==> #[trigger] kept.scan_files.selection@[j]
    } by {
        if i < later.output@.len() - 1 {
            assert(later.output@.drop_last()[i] == later.output@[i]);
            assert(state.output@[i] == later.output@[i]);
        } else {
            assert(later.output@[i] == later.output@.last());
        }
    }
}

/// The batches of a scan: those that were handed over, and behind them those that wait.
pub open spec fn batches_of<K: TableKernel>(state: ScanState<K>) -> Seq<Batch> {
    Seq::new(state.output@.len(), |i: int| state.output@[i].scan_files.data) + state.pending@
}

proof fn scanned_batches_stay_in_order<K: TableKernel>(
    states: Seq<ScanState<K>>,
    ledgers: Seq<TaskAccounting>,
    uses: Seq<TurnUse>,
    cpu: CpuSlice,
    i: int,
)
    requires
        ScanState::batches_scanned(states, ledgers, uses, cpu),
        0 <= i < states.len(),
    ensures
        batches_of(states[i]) == batches_of(states[0]),
        states[i].output@.len() == states[0].output@.len() + i,
        states[i].pending@.len() == states[0].pending@.len() - i,
        states[i].done == states[0].done,
        states[i].evaluation == states[0].evaluation,
        states[i].plan == states[0].plan,
        states[i].snapshot == states[0].snapshot,
    decreases i,
{
    if i > 0 {
        let a = states[i - 1];
        let b = states[i];
        scanned_batches_stay_in_order(states, ledgers, uses, cpu, i - 1);
        assert(a.pending@.len() > 0);
        scanned_batches_join(
            a,
            states[i - 1 + 1],
            uses[i - 1],
            cpu,
            ledgers[i - 1],
            ledgers[i - 1 + 1],
            uses[i - 1 + 1],
        );
        assert forall|j: int| 0 <= j < a.output@.len() implies b.output@[j] == #[trigger] a.output@[j] by {
            assert(b.output@.drop_last()[j] == a.output@[j]);
        }
        assert(batches_of(b) =~= batches_of(a));
    }
}

/// A turn over scanned batches loses none and changes no order. One that leaves nothing behind has
/// handed over every batch that waited; one that stops in between stops only at a batch that is too
/// much for its slice, behind one that was not.
pub proof fn scan_turns_leave_no_batch_behind<K: TableKernel>(
    state: ScanState<K>,
    later: ScanState<K>,
    cpu: CpuSlice,
    states: Seq<ScanState<K>>,
    ledgers: Seq<TaskAccounting>,
    uses: Seq<TurnUse>,
    ledger: TaskAccounting,
    after: TaskAccounting,
    left: bool,
)
    requires
        state.scan_turned(
            later,
            cpu,
            states,
            ledgers,
            uses,
            ledger,
            after,
            Ok::<bool, OperationFailure>(left),
        ),
    ensures
        batches_of(later) == batches_of(state),
        later.done == state.done,
        later.evaluation == state.evaluation,
        later.snapshot == state.snapshot,
        left <==> later.pending@.len() > 0,
        !left ==> {
            &&& later.output@.len() == state.output@.len() + state.pending@.len()
            &&& later.pending_bytes == 0
        },
        left ==> {
            let batch = later.pending@[0];
            let used = uses.last();
            &&& batch.backing_charge() matches Ok(bytes)
            &&& used.rows + batch.row_count() > cpu.record_cap() || used.bytes + bytes
                > cpu.byte_cap()
            &&& used.rows > 0 || used.bytes > 0
        },
{
    let n = states.len() - 1;
    scanned_batches_stay_in_order(states, ledgers, uses, cpu, n);
    assert(batches_of(later) =~= batches_of(states[n]));
}

/// A scan takes a page exactly where it can be charged and kept: all its batches wait then, in their
/// order, and an end ends the scan.
pub proof fn charged_pages_wait_whole<K: TableKernel>(
    state: ScanState<K>,
    later: ScanState<K>,
    page: Option<EvaluationPage>,
    reported: Seq<usize>,
    slots: usize,
    book: LedgerView,
    after: LedgerView,
    r: Result<(), OperationFailure>,
)
    requires
        state.page_accepted(later, page, reported, slots, book, after, r),
    ensures
        r is Ok && page is Some ==> {
            &&& later.pending@ == page->0.contents()
            &&& later.pending_bytes == page->0.byte_total()
            &&& later.output == state.output
            &&& later.done == state.done
            &&& forall|i: int|
                0 <= i < reported.len() ==> later.host_retained_bytes >= #[trigger] reported[i]
            &&& later.host_retained_bytes >= state.host_retained_bytes
        },
        r is Ok && page is None ==> later.done && later.pending == state.pending && later.output
            == state.output,
        page is None ==> (r is Ok <==> book.spent(Resource::EvaluationPages) + 1
            <= book.limits.allowance(Resource::EvaluationPages)),
        r is Err ==> later.output == state.output && later.pending == state.pending && later.done
            == state.done,
{
    crate::json_replay::most_is_the_greatest(state.host_retained_bytes, reported);
    crate::ledger::books_take_charges_up_to_their_allowance(
        book,
        Resource::EvaluationPages,
        1,
        Resource::EvaluationBatches,
    );
}

/// A scan completes only where its evaluation has ended and nothing waits, and then with all the
/// batches it has looked at; otherwise it goes on.
pub proof fn scans_complete_with_every_batch<K: TableKernel>(
    state: ScanState<K>,
    later: ScanState<K>,
    left: Result<bool, OperationFailure>,
    ledger: TaskAccounting,
    r: Result<TaskAction<Vec<ScanMetadata>>, OperationFailure>,
)
    requires
        state.turn_followed(later, left, ledger, r),
    ensures
        r matches Ok(TaskAction::Complete(output)) ==> {
            &&& state.done
            &&& left == Ok::<bool, OperationFailure>(false)
            &&& output@ == state.output@
            &&& later.output@.len() == 0
        },
        left == Ok::<bool, OperationFailure>(true) ==> r matches Ok(TaskAction::Yield),
        left == Ok::<bool, OperationFailure>(false) && !state.done
            ==> r matches Ok(TaskAction::Request),
        left matches Err(failure) ==> r == Err::<TaskAction<Vec<ScanMetadata>>, OperationFailure>(
            failure,
        ),
        left == Ok::<bool, OperationFailure>(false) && state.done ==> r is Err || (r matches Ok(
            TaskAction::Complete(_),
        )),
{
}

/// A scan asks for its own evaluation, under the allowances of its limits: first with its plan, then
/// for one page after the other.
pub proof fn scans_request_their_evaluation<K: TableKernel>(
    state: ScanState<K>,
    later: ScanState<K>,
    r: Result<TaskRequestV1, OperationFailure>,
)
    requires
        state.requested(later, r),
    ensures
        r is Ok <==> evaluation_bounds(state.limits) is Ok,
        r matches Ok(request) ==> match request {
            TaskRequestV1::EvaluationStart { evaluation, plan, limits } => {
                &&& evaluation == state.evaluation
                &&& state.plan == Some(plan)
                &&& limits.page_cap() == state.limits.allowance(Resource::EvaluationPages)
                &&& limits.row_cap() == state.limits.allowance(Resource::EvaluationRows)
                &&& limits.byte_cap() == state.limits.allowance(Resource::EvaluationBytes)
                &&& limits.batch_cap() == state.limits.allowance(Resource::EvaluationBatches)
            },
            TaskRequestV1::Evaluation { evaluation, limits } => {
                &&& evaluation == state.evaluation
                &&& state.plan is None
                &&& limits.row_cap() == state.limits.allowance(Resource::EvaluationPageRows)
                &&& limits.byte_cap() == state.limits.allowance(Resource::EvaluationPageBytes)
                &&& limits.batch_cap() == state.limits.allowance(Resource::EvaluationPageBatches)
            },
            _ => false,
        },
        later.pending == state.pending && later.output == state.output && later.done == state.done,
{
    crate::table_support::evaluations_are_bounded_by_the_allowances(state.limits);
}

/// A bound is admitted exactly up to its allowance, and then as it is.
pub proof fn bounds_are_admitted_up_to_their_allowance(
    bytes: nat,
    resource: Resource,
    limits: TaskLimits,
)
    ensures
        bound_admitted(bytes, resource, limits) is Ok <==> bytes <= limits.allowance(resource),
        bound_admitted(bytes, resource, limits) matches Ok(admitted) ==> admitted == bytes,
        bound_admitted(bytes, resource, limits) matches Err(kind) ==> {
            &&& kind matches FailureKind::ResourceExhausted(error)
            &&& error.resource == resource
            &&& error.limit == limits.allowance(resource)
        },
{
}

/// A scan is opened exactly for a task-built snapshot, an evaluation of its own task and a plan within
/// its budget, where all that it will own fits into the task's storage.
pub proof fn scans_open_over_their_snapshot<K: TableKernel>(
    id: TaskId,
    evaluation: EvaluationKey,
    snapshot: Snapshot,
    limits: TaskLimits,
    layout: KernelLayout,
)
    ensures
        ({
            let chunks = limits.allowance(Resource::OutputChunks);
            let batches = limits.allowance(Resource::EvaluationBatches);
            let slots = if chunks <= batches {
                chunks
            } else {
                batches
            };
            let opened = ScanMetadataTask::<K>::opened(id, evaluation, snapshot, limits, layout);
            &&& opened is Ok <==> {
                &&& evaluation.owner() == id.number()
                &&& snapshot.log_identity_manifest matches Some(manifest)
                &&& scan_budgeted(
                    manifest@,
                    snapshot.configuration.schema,
                    snapshot.configuration.stats_columns,
                    snapshot.json_task_retained_bytes,
                    layout,
                    limits,
                ) matches Ok(budget)
                &&& snapshot.json_task_retained_bytes + budget.backing + slots * size_of::<
                    ScanMetadata,
                >() * 2 + size_of::<ScanMetadataTask<K>>() + size_of::<ScanState<K>>()
                    <= limits.allowance(Resource::TaskStateBytes)
            }
        }),
{
    let slots = ScanMetadataTask::<K>::output_slots(limits);
    assert(slots * size_of::<ScanMetadata>() * 2 >= 0) by (nonlinear_arith)
        requires
            slots >= 0,
            size_of::<ScanMetadata>() >= 0,
    ;
}

} // verus!
