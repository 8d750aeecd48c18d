//! Replay of a history's protocol and metadata, and the snapshot that it gives.

use crate::accounting::{Resource, TaskAccounting};
use crate::bytes::{byte_len, utf8};
use crate::checks::{allowed, check, counted, exhausted, outcome, uncountable};
use crate::evaluation::EvaluationPage;
use crate::failure::{Error, FailureKind, OperationFailure, ResourceExhausted};
use crate::json_materialization::{
    metadata_columns, preflight_pm, preflighted, protocol_columns, protocol_passes, Admission,
};
use crate::json_schema_shape::PrimitiveSchemaShape;
use crate::json_snapshot::{SnapshotState, StateSize};
use crate::ledger::{spend, LedgerView};
use crate::machine::semantic_work;
use crate::protocol::CpuSlice;
use crate::refusals::Refusal;
use crate::rows::{carries, RowView};
use crate::sizing::fitted;
use crate::table::{
    Metadata, PmCandidate, Protocol, Snapshot, TableConfiguration, TableKernel,
};
use crate::table_support::{
    actions_supported, check_fields, fields_supported, take_actions,
};
use std::sync::Arc;
use vstd::arithmetic::overflow::CheckedUsize;
use vstd::prelude::*;

verus! {

broadcast use {crate::ledger::semantic_work_chains, crate::ledger::idleness_is_semantic_work};

/// What accepting a page charges: one page, and where there is one its batches, rows and bytes.
///
/// A page of replayed actions has one row at most.
pub open spec fn page_charged(
    limits: crate::accounting::TaskLimits,
    page: Option<EvaluationPage>,
    book: LedgerView,
) -> (Result<(), FailureKind>, LedgerView) {
    let counted = book.charged(Resource::EvaluationPages, 1);
    if let Err(kind) = book.charge_result(Resource::EvaluationPages, 1) {
        (Err(kind), book)
    } else if let Some(page) = page {
        let batches = page.contents().len() as usize;
        let rows = page.row_total();
        let bytes = page.byte_total();
        let first = counted.charged(Resource::EvaluationBatches, batches);
        let second = first.charged(Resource::EvaluationRows, rows);
        if let Err(kind) = allowed(limits, Resource::EvaluationPageBatches, batches as int) {
            (Err(kind), counted)
        } else if let Err(kind) = allowed(limits, Resource::EvaluationPageRows, rows as int) {
            (Err(kind), counted)
        } else if let Err(kind) = allowed(limits, Resource::EvaluationPageBytes, bytes as int) {
            (Err(kind), counted)
        } else if let Err(kind) = counted.charge_result(Resource::EvaluationBatches, batches) {
            (Err(kind), counted)
        } else if let Err(kind) = first.charge_result(Resource::EvaluationRows, rows) {
            (Err(kind), first)
        } else {
            (
                second.charge_result(Resource::EvaluationBytes, bytes),
                second.charged(Resource::EvaluationBytes, bytes),
            )
        }
    } else {
        (Ok(()), counted)
    }
}

/// Charges a page.
pub(crate) fn charge_page(
    limits: &crate::accounting::TaskLimits,
    page: &Option<EvaluationPage>,
    accounting: &mut TaskAccounting,
) -> (r: Result<(), OperationFailure>)
    ensures
        ({
            let (expected, book) = page_charged(*limits, *page, old(accounting).book());
            outcome(expected, r) && final(accounting).book() == book
        }),
        semantic_work(*old(accounting), *final(accounting)),
{
    match spend(accounting, Resource::EvaluationPages, 1) {
        Ok(()) => {},
        Err(failure) => return Err(failure),
    }
    let page = match page {
        Some(page) => page,
        None => return Ok(()),
    };
    let batches: usize = page.batches().len();
    match check(Resource::EvaluationPageBatches, batches, limits) {
        Ok(()) => {},
        Err(failure) => return Err(failure),
    }
    match check(Resource::EvaluationPageRows, page.num_rows(), limits) {
        Ok(()) => {},
        Err(failure) => return Err(failure),
    }
    match check(Resource::EvaluationPageBytes, page.accounted_bytes(), limits) {
        Ok(()) => {},
        Err(failure) => return Err(failure),
    }
    match spend(accounting, Resource::EvaluationBatches, batches) {
        Ok(()) => {},
        Err(failure) => return Err(failure),
    }
    match spend(accounting, Resource::EvaluationRows, page.num_rows()) {
        Ok(()) => {},
        Err(failure) => return Err(failure),
    }
    spend(accounting, Resource::EvaluationBytes, page.accounted_bytes())
}

/// The greatest of the amounts, and not less than `least`.
pub open spec fn most_of(least: usize, amounts: Seq<usize>) -> usize
    decreases amounts.len(),
{
    if amounts.len() == 0 {
        least
    } else {
        let before = most_of(least, amounts.drop_last());
        if amounts.last() > before {
            amounts.last()
        } else {
            before
        }
    }
}

/// The most that a batch of the page reports as kept by its host, and not less than `least`. What
/// each batch reports is not stated.
pub(crate) fn host_bytes(page: &EvaluationPage, least: usize) -> (bytes: usize)
    ensures
        exists|reported: Seq<usize>|
            reported.len() == page.contents().len() && bytes == #[trigger] most_of(least, reported),
{
    let mut most: usize = least;
    let batches = page.batches();
    let mut i: usize = 0;
    let ghost mut amounts: Seq<usize> = Seq::empty();
    while i < batches.len()
        invariant
            i <= batches@.len(),
            amounts.len() == i,
            most == most_of(least, amounts),
        decreases batches@.len() - i,
    {
        let reported: usize = batches[i].host_retained_bytes();
        proof {
            assert(amounts.push(reported).drop_last() =~= amounts);
            amounts = amounts.push(reported);
        }
        if reported > most {
            most = reported;
        }
        i += 1;
    }
    most
}

impl<K: TableKernel> SnapshotState<K> {
    /// The rows of the batch that is looked at next.
    pub open spec fn next_rows(self) -> usize {
        self.page->0.contents()[self.page_index as int].row_count()
    }

    /// The charge of the batch that is looked at next.
    pub open spec fn next_charge(self) -> Result<usize, ResourceExhausted> {
        self.page->0.contents()[self.page_index as int].backing_charge()
    }

    /// There is a batch to look at.
    pub open spec fn has_batch(self) -> bool {
        self.page is Some && self.page_index < self.page->0.contents().len()
    }

    /// What opening a batch with rows gives: its bytes. The replay gives one row of actions, and a
    /// batch fits into one turn.
    pub open spec fn batch_opened(self, cpu: CpuSlice) -> Result<usize, Refusal> {
        if self.candidate is Some {
            Err(Refusal::Kind(FailureKind::MalformedResponse))
        } else {
            match self.next_charge() {
                Err(error) => Err(Refusal::Kind(FailureKind::ResourceExhausted(error))),
                Ok(bytes) => if bytes > cpu.byte_cap() {
                    Err(Refusal::Kind(uncountable(self.limits, Resource::TurnInputBytes)))
                } else {
                    Ok(bytes)
                },
            }
        }
    }

    /// What a preflight of this state is given.
    pub open spec fn admission(self, size: StateSize, ledger: TaskAccounting) -> Admission<'static> {
        Admission {
            limits: &self.limits,
            accounting: &ledger,
            headroom: self.room(self.discovery.file_path_capacity, size, ledger.book()),
            layout: &self.layout,
        }
    }

    /// The state with the replayed actions, behind its batch.
    pub open spec fn actions_kept(
        self,
        later: SnapshotState<K>,
        candidate: Option<PmCandidate>,
        materialized_bytes: usize,
    ) -> bool {
        later == (SnapshotState {
            candidate,
            materialized_bytes,
            page_index: (self.page_index + 1) as usize,
            ..self
        })
    }

    /// `r` is what reading admitted actions gives: decoding and reading are charged first.
    pub open spec fn actions_read(
        self,
        later: SnapshotState<K>,
        bytes: usize,
        charge: usize,
        read: Result<PmCandidate, Error>,
        book: LedgerView,
        after: LedgerView,
        r: Result<(), OperationFailure>,
    ) -> bool {
        let decoded = book.charged(Resource::DecodedBytes, charge);
        if let Err(kind) = book.charge_result(Resource::DecodedBytes, charge) {
            after == book && (r matches Err(failure) && failure.is_terminal(kind))
        } else if let Err(kind) = decoded.charge_result(Resource::WorkUnits, bytes) {
            after == decoded && (r matches Err(failure) && failure.is_terminal(kind))
        } else {
            &&& after == decoded.charged(Resource::WorkUnits, bytes)
            &&& call_ensures(
                K::protocol_metadata,
                (&self.kernel, &self.page->0.contents()[self.page_index as int]),
                read,
            )
            &&& match read {
                Err(error) => r matches Err(failure) && carries(failure, error),
                Ok(candidate) => r is Ok && self.actions_kept(later, Some(candidate), charge),
            }
        }
    }

    /// `r` is what taking actions out of a batch gives, where `owned` says what they own.
    pub open spec fn actions_taken(
        self,
        later: SnapshotState<K>,
        bytes: usize,
        owned: Result<usize, OperationFailure>,
        ledger: TaskAccounting,
        after: TaskAccounting,
        r: Result<(), OperationFailure>,
    ) -> bool {
        match owned {
            Err(failure) => after == ledger && r == Err::<(), OperationFailure>(failure),
            Ok(charge) => exists|read: Result<PmCandidate, Error>| #[trigger]
                self.actions_read(later, bytes, charge, read, ledger.book(), after.book(), r),
        }
    }

    /// `r` is what looking at the next batch gives.
    pub open spec fn batch_read(
        self,
        later: SnapshotState<K>,
        cpu: CpuSlice,
        ledger: TaskAccounting,
        after: TaskAccounting,
        r: Result<(), OperationFailure>,
    ) -> bool {
        if self.next_rows() == 0 {
            &&& r is Ok
            &&& after == ledger
            &&& self.actions_kept(later, self.candidate, self.materialized_bytes)
        } else {
            match self.batch_opened(cpu) {
                Err(refusal) => after == ledger && (r matches Err(failure) && refusal.delivered(
                    failure,
                )),
                Ok(bytes) => exists|
                    size: StateSize,
                    protocol: Result<RowView, Error>,
                    metadata: Result<RowView, Error>,
                    owned: Result<usize, OperationFailure>,
                |
                    {
                        let opened = self.admission(size, ledger).opened(self.next_rows()) is Ok;
                        &&& size.covers(self.discovery)
                        &&& opened ==> self.page->0.contents()[self.page_index as int].shows(
                            protocol_columns(),
                            protocol,
                        )
                        &&& opened && protocol_passes(protocol)
                            ==> self.page->0.contents()[self.page_index as int].shows(
                            metadata_columns(),
                            metadata,
                        )
                        &&& #[trigger] preflighted(
                            self.admission(size, ledger),
                            self.next_rows(),
                            protocol,
                            metadata,
                            owned,
                        )
                        &&& self.actions_taken(later, bytes, owned, ledger, after, r)
                    },
            }
        }
    }

    /// The position behind the next batch.
    fn following_batch(&self) -> (next: usize)
        requires
            self.has_batch(),
        ensures
            next == self.page_index + 1,
    {
        let count: usize = match &self.page {
            Some(page) => page.batches().len(),
            None => 0,
        };
        assert(self.page_index < count);
        self.page_index + 1
    }

    /// Keeps what reading admitted actions gave.
    pub fn keep_actions(
        &mut self,
        bytes: usize,
        charge: usize,
        accounting: &mut TaskAccounting,
    ) -> (r: Result<(), OperationFailure>)
        requires
            old(self).has_batch(),
        ensures
            exists|read: Result<PmCandidate, Error>| #[trigger]
                old(self).actions_read(
                    *final(self),
                    bytes,
                    charge,
                    read,
                    old(accounting).book(),
                    final(accounting).book(),
                    r,
                ),
            r is Err ==> *final(self) == *old(self),
            semantic_work(*old(accounting), *final(accounting)),
    {
        let ghost before = *self;
        let ghost book = accounting.book();
        let ghost nothing: Result<PmCandidate, Error> = Err(Error::Cancelled);
        match spend(accounting, Resource::DecodedBytes, charge) {
            Ok(()) => {},
            Err(failure) => {
                let r = Err(failure);
                assert(before.actions_read(*self, bytes, charge, nothing, book, accounting.book(), r));
                return r;
            },
        }
        match spend(accounting, Resource::WorkUnits, bytes) {
            Ok(()) => {},
            Err(failure) => {
                let r = Err(failure);
                assert(before.actions_read(*self, bytes, charge, nothing, book, accounting.book(), r));
                return r;
            },
        }
        let next: usize = self.following_batch();
        let read = match &self.page {
            Some(page) => self.kernel.protocol_metadata(&page.batches()[self.page_index]),
            None => Err(Error::MissingMetadataAndProtocol),
        };
        let ghost given = read;
        let r = match read {
            Ok(candidate) => {
                self.candidate = Some(candidate);
                self.materialized_bytes = charge;
                self.page_index = next;
                Ok(())
            },
            Err(error) => Err(OperationFailure::engine(error)),
        };
        assert(before.actions_read(*self, bytes, charge, given, book, accounting.book(), r));
        r
    }

    /// Looks at the next batch.
    ///
    /// An empty batch is passed over. The actions of any other batch are preflighted, charged and
    /// read.
    pub fn read_batch(&mut self, cpu: CpuSlice, accounting: &mut TaskAccounting) -> (r: Result<
        (),
        OperationFailure,
    >)
        requires
            old(self).has_batch(),
        ensures
            old(self).batch_read(*final(self), cpu, *old(accounting), *final(accounting), r),
            r is Err ==> *final(self) == *old(self),
            semantic_work(*old(accounting), *final(accounting)),
    {
        let ghost before = *self;
        let ghost ledger = *accounting;
        let next: usize = self.following_batch();
        let page = match &self.page {
            Some(page) => page,
            None => return Err(OperationFailure::malformed_response()),
        };
        let index: usize = self.page_index;
        let rows: usize = page.batches()[index].len();
        if rows == 0 {
            self.page_index = next;
            return Ok(());
        }
        if self.candidate.is_some() {
            return Err(OperationFailure::malformed_response());
        }
        let bytes: usize = match page.batches()[index].accounted_bytes() {
            Ok(bytes) => bytes,
            Err(error) => return Err(OperationFailure::exhausted(error)),
        };
        if bytes > cpu.bytes() {
            return Err(exhausted(Resource::TurnInputBytes, &self.limits));
        }
        let size = self.measure();
        let admission = Admission {
            limits: &self.limits,
            accounting,
            headroom: self.headroom_sized(&size, accounting),
            layout: &self.layout,
        };
        let owned = preflight_pm(&page.batches()[index], admission);
        let ghost judged = owned;
        let ghost (protocol, metadata) = choose|
            protocol: Result<RowView, Error>,
            metadata: Result<RowView, Error>,
        |
            {
                let opened = admission.opened(rows) is Ok;
                &&& opened ==> page.contents()[index as int].shows(protocol_columns(), protocol)
                &&& opened && protocol_passes(protocol) ==> page.contents()[index as int].shows(
                    metadata_columns(),
                    metadata,
                )
                &&& #[trigger] preflighted(admission, rows, protocol, metadata, judged)
            };
        assert(preflighted(before.admission(size, ledger), rows, protocol, metadata, judged));
        let charge: usize = match owned {
            Ok(charge) => charge,
            Err(failure) => return Err(failure),
        };
        let r = self.keep_actions(bytes, charge, accounting);
        assert(before.actions_taken(*self, bytes, judged, ledger, *accounting, r));
        assert(before.batch_read(*self, cpu, ledger, *accounting, r));
        r
    }

    /// The states and ledgers are those of a run of batches, one after the other.
    pub open spec fn batches_read(
        states: Seq<SnapshotState<K>>,
        ledgers: Seq<TaskAccounting>,
        cpu: CpuSlice,
    ) -> bool {
        &&& states.len() == ledgers.len()
        &&& states.len() > 0
        &&& forall|i: int|
            0 <= i < states.len() - 1 ==> (#[trigger] states[i]).has_batch() && states[i].batch_read(
                states[i + 1],
                cpu,
                ledgers[i],
                ledgers[i + 1],
                Ok::<(), OperationFailure>(()),
            )
    }

    /// `r` is what a turn over a page gives: as many batches as the turn has records are looked at,
    /// and a page that was looked at is released. Says whether batches are left.
    pub open spec fn page_turned(
        self,
        later: SnapshotState<K>,
        cpu: CpuSlice,
        states: Seq<SnapshotState<K>>,
        ledgers: Seq<TaskAccounting>,
        ledger: TaskAccounting,
        after: TaskAccounting,
        r: Result<bool, OperationFailure>,
    ) -> bool {
        let last = states.last();
        let read = states.len() - 1;
        &&& SnapshotState::batches_read(states, ledgers, cpu)
        &&& states[0] == self
        &&& ledgers[0] == ledger
        &&& match r {
            Ok(left) => {
                &&& read <= cpu.record_cap()
                &&& read == cpu.record_cap() || !last.has_batch()
                &&& after == ledgers.last()
                &&& left == last.has_batch()
                &&& later == if left {
                    last
                } else {
                    SnapshotState { page: None, page_index: 0, ..last }
                }
            },
            Err(failure) => {
                &&& read < cpu.record_cap()
                &&& last.has_batch()
                &&& last.batch_read(
                    later,
                    cpu,
                    ledgers.last(),
                    after,
                    Err::<(), OperationFailure>(failure),
                )
            },
        }
    }

    fn batch_waits(&self) -> (r: bool)
        ensures
            r == self.has_batch(),
    {
        match &self.page {
            Some(page) => self.page_index < page.batches().len(),
            None => false,
        }
    }

    /// Looks at batches of the page, as many as one turn allows. Says whether batches are left.
    pub fn read_page(&mut self, cpu: CpuSlice, accounting: &mut TaskAccounting) -> (r: Result<
        bool,
        OperationFailure,
    >)
        ensures
            exists|states: Seq<SnapshotState<K>>, ledgers: Seq<TaskAccounting>| #[trigger]
                old(self).page_turned(
                    *final(self),
                    cpu,
                    states,
                    ledgers,
                    *old(accounting),
                    *final(accounting),
                    r,
                ),
            semantic_work(*old(accounting), *final(accounting)),
    {
        let ghost before = *self;
        let ghost ledger = *accounting;
        let ghost mut states: Seq<SnapshotState<K>> = Seq::empty().push(before);
        let ghost mut ledgers: Seq<TaskAccounting> = Seq::empty().push(ledger);
        let mut processed: usize = 0;
        while processed < cpu.records() && self.batch_waits()
            invariant
                processed <= cpu.record_cap(),
                states.len() == processed + 1,
                SnapshotState::batches_read(states, ledgers, cpu),
                states[0] == before,
                ledgers[0] == ledger,
                before == *old(self),
                ledger == *old(accounting),
                states.last() == *self,
                ledgers.last() == *accounting,
                semantic_work(*old(accounting), *accounting),
            decreases cpu.record_cap() - processed,
        {
            let ghost previous = *self;
            let ghost held = *accounting;
            let read = self.read_batch(cpu, accounting);
            let ghost said = read;
            match read {
                Ok(()) => {
                    assert(said->Ok_0 == ());
                },
                Err(failure) => {
                    let r: Result<bool, OperationFailure> = Err(failure);
                    assert(before.page_turned(*self, cpu, states, ledgers, ledger, *accounting, r));
                    return r;
                },
            }
            proof {
                let longer = states.push(*self);
                let more = ledgers.push(*accounting);
                assert forall|i: int| 0 <= i < longer.len() - 1 implies (
                #[trigger] longer[i]).has_batch() && longer[i].batch_read(
                    longer[i + 1],
                    cpu,
                    more[i],
                    more[i + 1],
                    Ok::<(), OperationFailure>(()),
                ) by {
                    if i < states.len() - 1 {
                        assert(states[i].has_batch());
                    } else {
                        assert(longer[i] == previous);
                        assert(longer[i + 1] == *self);
                        assert(more[i] == held);
                        assert(more[i + 1] == *accounting);
                    }
                }
                states = longer;
                ledgers = more;
            }
            processed += 1;
        }
        let left = self.batch_waits();
        if !left {
            self.page = None;
            self.page_index = 0;
        }
        assert(before.page_turned(
            *self,
            cpu,
            states,
            ledgers,
            ledger,
            *accounting,
            Ok::<bool, OperationFailure>(left),
        ));
        Ok(left)
    }

    /// `r` is what keeping a charged page gives, with `later` behind it: what the host keeps for the
    /// task is taken over before the page is admitted.
    pub open spec fn page_kept(
        self,
        later: SnapshotState<K>,
        page: EvaluationPage,
        host: usize,
        size: StateSize,
        book: LedgerView,
        r: Result<(), OperationFailure>,
    ) -> bool {
        let held = SnapshotState { host_retained_bytes: host, ..self };
        &&& outcome(
            held.room(self.discovery.file_path_capacity, size, book).considered(
                book.limits,
                self.limits,
                page.byte_total(),
            ),
            r,
        )
        &&& later == (if r is Ok {
            SnapshotState { page: Some(page), ..held }
        } else {
            held
        })
    }

    /// `r` is what accepting a page gives, with `later` behind it. `reported` is what each batch of
    /// the page reports as kept by its host, and `size` is the storage behind the state.
    pub open spec fn page_accepted(
        self,
        later: SnapshotState<K>,
        page: Option<EvaluationPage>,
        reported: Seq<usize>,
        size: StateSize,
        book: LedgerView,
        after: LedgerView,
        r: Result<(), OperationFailure>,
    ) -> bool {
        let (charged, spent) = page_charged(self.limits, page, book);
        &&& after == spent
        &&& match charged {
            Err(kind) => (r matches Err(failure) && failure.is_terminal(kind)) && later == self,
            Ok(()) => match page {
                None => r is Ok && later == (SnapshotState { evaluation_done: true, ..self }),
                Some(page) => if page.row_total() > 1 {
                    (r matches Err(failure) && failure.is_terminal(FailureKind::MalformedResponse))
                        && later == self
                } else {
                    &&& reported.len() == page.contents().len()
                    &&& size.covers(self.discovery)
                    &&& self.page_kept(
                        later,
                        page,
                        most_of(self.host_retained_bytes, reported),
                        size,
                        after,
                        r,
                    )
                },
            },
        }
    }

    /// Keeps a charged page, with what the host keeps for the task and the storage behind the state
    /// as they were found.
    pub fn keep_page_sized(
        &mut self,
        page: EvaluationPage,
        host: usize,
        size: &StateSize,
        accounting: &TaskAccounting,
    ) -> (r: Result<(), OperationFailure>)
        ensures
            old(self).page_kept(*final(self), page, host, *size, accounting.book(), r),
    {
        self.host_retained_bytes = host;
        let headroom = self.headroom_sized(size, accounting);
        match headroom.consider(accounting, &self.limits, page.accounted_bytes()) {
            Ok(()) => {
                self.page = Some(page);
                Ok(())
            },
            Err(failure) => Err(failure),
        }
    }

    /// Accepts a page of the replay, or its end. What the host keeps for the task is taken over
    /// before the page is admitted.
    pub fn accept_page(&mut self, page: Option<EvaluationPage>, accounting: &mut TaskAccounting) -> (r:
        Result<(), OperationFailure>)
        ensures
            exists|reported: Seq<usize>, size: StateSize| #[trigger]
                old(self).page_accepted(
                    *final(self),
                    page,
                    reported,
                    size,
                    old(accounting).book(),
                    final(accounting).book(),
                    r,
                ),
            semantic_work(*old(accounting), *final(accounting)),
    {
        let ghost before = *self;
        let ghost book = accounting.book();
        let ghost given = page;
        let ghost unmeasured = StateSize { files: 0, listing: 0, continuation: 0 };
        let ghost unreported = Seq::<usize>::empty();
        match charge_page(&self.limits, &page, accounting) {
            Ok(()) => {},
            Err(failure) => {
                let r = Err(failure);
                assert(before.page_accepted(
                    *self,
                    given,
                    unreported,
                    unmeasured,
                    book,
                    accounting.book(),
                    r,
                ));
                return r;
            },
        }
        let page = match page {
            Some(page) => page,
            None => {
                self.evaluation_done = true;
                assert(before.page_accepted(
                    *self,
                    given,
                    unreported,
                    unmeasured,
                    book,
                    accounting.book(),
                    Ok::<(), OperationFailure>(()),
                ));
                return Ok(());
            },
        };
        if page.num_rows() > 1 {
            let r = Err(OperationFailure::malformed_response());
            assert(before.page_accepted(
                *self,
                given,
                unreported,
                unmeasured,
                book,
                accounting.book(),
                r,
            ));
            return r;
        }
        let host: usize = host_bytes(&page, self.host_retained_bytes);
        let ghost reported = choose|reported: Seq<usize>|
            reported.len() == page.contents().len() && host == #[trigger] most_of(
                self.host_retained_bytes,
                reported,
            );
        let size = self.measure();
        let r = self.keep_page_sized(page, host, &size, accounting);
        assert(before.page_accepted(*self, given, reported, size, book, accounting.book(), r));
        r
    }

    /// The version of the discovered history.
    pub open spec fn history_version(self) -> Option<u64> {
        match self.manifest {
            Some(manifest) => Some(manifest@.version),
            None => None,
        }
    }

    /// What owning a table's configuration gives: its owners.
    pub open spec fn configuration_owned(
        self,
        shape: PrimitiveSchemaShape,
        metadata: Metadata,
        size: StateSize,
        book: LedgerView,
    ) -> Result<usize, FailureKind> {
        match fitted(
            shape.configuration_owners(
                metadata,
                utf8(self.table_root@).len(),
                self.layout,
            ) as int,
        ) {
            None => Err(uncountable(self.limits, Resource::MetadataAllocatedBytes)),
            Some(bytes) => match allowed(
                self.limits,
                Resource::MetadataAllocatedBytes,
                bytes as int,
            ) {
                Err(kind) => Err(kind),
                Ok(()) => match self.room(
                    self.discovery.file_path_capacity,
                    size,
                    book,
                ).considered(book.limits, self.limits, bytes) {
                    Err(kind) => Err(kind),
                    Ok(()) => Ok(bytes),
                },
            },
        }
    }

    /// What the output of a configured table gives: its bytes. The table is a supported one, and
    /// the actions, the segment and the manifest are handed over with it.
    pub open spec fn output_counted(self, configured: Result<TableConfiguration, Error>, bytes: usize) -> Result<
        usize,
        Refusal,
    > {
        match configured {
            Err(error) => Err(Refusal::Carried(error)),
            Ok(configuration) => if self.materialized_bytes + bytes > usize::MAX {
                Err(Refusal::Kind(uncountable(self.limits, Resource::TaskStateBytes)))
            } else {
                match fields_supported(configuration.schema.fields@, 0) {
                    Err(refusal) => Err(refusal),
                    Ok(()) => match fitted(
                        self.materialized_bytes + bytes + self.segment_bytes
                            + self.manifest_bytes(),
                    ) {
                        None => Err(Refusal::Kind(uncountable(self.limits, Resource::OutputBytes))),
                        Some(output) => Ok(output),
                    },
                }
            },
        }
    }

    /// The snapshot of a configured table over the discovered history.
    pub open spec fn snapshot(
        self,
        configuration: TableConfiguration,
        output: usize,
        snapshot: Snapshot,
    ) -> bool {
        &&& self.segment == Some(snapshot.log_segment)
        &&& snapshot.configuration == configuration
        &&& snapshot.is_latest == (self.discovery.version is None)
        &&& snapshot.json_task_retained_bytes == output
        &&& snapshot.log_identity_manifest == self.manifest
    }

    /// This state with the owners of a configured table counted.
    pub open spec fn with_configuration(
        self,
        configured: Result<TableConfiguration, Error>,
        bytes: usize,
    ) -> SnapshotState<K> {
        if configured is Ok && self.materialized_bytes + bytes <= usize::MAX {
            SnapshotState {
                materialized_bytes: (self.materialized_bytes + bytes) as usize,
                ..self
            }
        } else {
            self
        }
    }

    /// This state without the segment and the manifest, which a snapshot took over.
    pub open spec fn handed_over(self) -> SnapshotState<K> {
        SnapshotState { segment: None, manifest: None, ..self }
    }

    /// `r` is what completing a snapshot gives: its output is charged before it is handed over.
    pub open spec fn completed(
        self,
        later: SnapshotState<K>,
        configured: Result<TableConfiguration, Error>,
        bytes: usize,
        book: LedgerView,
        after: LedgerView,
        r: Result<Arc<Snapshot>, OperationFailure>,
    ) -> bool {
        &&& later == (if r is Ok {
            self.with_configuration(configured, bytes).handed_over()
        } else {
            self.with_configuration(configured, bytes)
        })
        &&& match self.output_counted(configured, bytes) {
            Err(refusal) => after == book && (r matches Err(failure) && refusal.delivered(failure)),
            Ok(output) => {
                &&& after == book.charged(Resource::OutputBytes, output)
                &&& match book.charge_result(Resource::OutputBytes, output) {
                    Err(kind) => r matches Err(failure) && failure.is_terminal(kind),
                    Ok(()) => if self.segment is None {
                        r matches Err(failure) && failure.is_terminal(
                            FailureKind::MalformedResponse,
                        )
                    } else {
                        (r matches Ok(snapshot) && self.snapshot(
                            configured->Ok_0,
                            output,
                            *snapshot,
                        ))
                    },
                }
            },
        }
    }

    /// Completes the snapshot of a configured table.
    pub fn complete(
        &mut self,
        configured: Result<TableConfiguration, Error>,
        bytes: usize,
        accounting: &mut TaskAccounting,
    ) -> (r: Result<Arc<Snapshot>, OperationFailure>)
        ensures
            old(self).completed(
                *final(self),
                configured,
                bytes,
                old(accounting).book(),
                final(accounting).book(),
                r,
            ),
            semantic_work(*old(accounting), *final(accounting)),
    {
        let configuration = match configured {
            Ok(configuration) => configuration,
            Err(error) => return Err(OperationFailure::engine(error)),
        };
        let materialized: usize = match self.materialized_bytes.checked_add(bytes) {
            Some(materialized) => materialized,
            None => return Err(exhausted(Resource::TaskStateBytes, &self.limits)),
        };
        self.materialized_bytes = materialized;
        match check_fields(&configuration.schema.fields) {
            Ok(()) => {},
            Err(failure) => return Err(failure),
        }
        let manifest: usize = match &self.manifest {
            Some(manifest) => manifest.retained_bytes(),
            None => 0,
        };
        let output: usize = counted(
            CheckedUsize::new(materialized).add_value(self.segment_bytes).add_value(
                manifest,
            ).to_option(),
            Resource::OutputBytes,
            &self.limits,
        )?;
        match spend(accounting, Resource::OutputBytes, output) {
            Ok(()) => {},
            Err(failure) => return Err(failure),
        }
        let log_segment = match self.segment.take() {
            Some(segment) => segment,
            None => return Err(OperationFailure::malformed_response()),
        };
        Ok(
            Arc::new(
                Snapshot {
                    log_segment,
                    configuration,
                    is_latest: self.discovery.version.is_none(),
                    json_task_retained_bytes: output,
                    log_identity_manifest: self.manifest.take(),
                },
            ),
        )
    }

    /// The table implementation configured the table so, or failed so.
    pub open spec fn configures(
        self,
        metadata: Metadata,
        protocol: Protocol,
        given: Result<TableConfiguration, Error>,
    ) -> bool {
        exists|root: &str|
            root@ == self.table_root@ && #[trigger] call_ensures(
                K::configure,
                (&self.kernel, metadata, protocol, root, self.history_version()->0),
                given,
            )
    }

    /// `r` follows from configuring a table whose schema was inspected.
    pub open spec fn configured(
        self,
        later: SnapshotState<K>,
        shape: PrimitiveSchemaShape,
        metadata: Metadata,
        protocol: Protocol,
        size: StateSize,
        given: Result<TableConfiguration, Error>,
        book: LedgerView,
        after: LedgerView,
        r: Result<Arc<Snapshot>, OperationFailure>,
    ) -> bool {
        match self.configuration_owned(shape, metadata, size, book) {
            Err(kind) => later == self && after == book && (r matches Err(failure)
                && failure.is_terminal(kind)),
            Ok(bytes) => {
                &&& self.configures(metadata, protocol, given)
                &&& self.completed(later, given, bytes, book, after, r)
            },
        }
    }

    /// `r` follows from inspecting the schema of replayed actions.
    pub open spec fn inspected(
        self,
        later: SnapshotState<K>,
        metadata: Metadata,
        protocol: Protocol,
        shape: Result<PrimitiveSchemaShape, OperationFailure>,
        book: LedgerView,
        after: LedgerView,
        r: Result<Arc<Snapshot>, OperationFailure>,
    ) -> bool {
        match shape {
            Err(failure) => later == self && after == book && r == Err::<
                Arc<Snapshot>,
                OperationFailure,
            >(failure),
            Ok(shape) => exists|size: StateSize, given: Result<TableConfiguration, Error>|
                {
                    &&& size.covers(self.discovery)
                    &&& #[trigger] self.configured(
                        later,
                        shape,
                        metadata,
                        protocol,
                        size,
                        given,
                        book,
                        after,
                        r,
                    )
                },
        }
    }

    /// `r` is what the end of a replay gives. The actions are taken, whatever comes of them.
    pub open spec fn finished(
        self,
        later: SnapshotState<K>,
        ledger: TaskAccounting,
        after: LedgerView,
        r: Result<Arc<Snapshot>, OperationFailure>,
    ) -> bool {
        match actions_supported(self.candidate, self.history_version()) {
            Err(refusal) => later == self.without_actions() && after == ledger.book() && (
            r matches Err(failure) && refusal.delivered(failure)),
            Ok((metadata, protocol)) => exists|
                size: StateSize,
                shape: Result<PrimitiveSchemaShape, OperationFailure>,
            |
                {
                    &&& size.covers(self.discovery)
                    &&& #[trigger] PrimitiveSchemaShape::inspected(
                        self.kernel,
                        metadata.schema_string@,
                        self.limits,
                        ledger.allowances(),
                        self.room(self.discovery.file_path_capacity, size, ledger.book()),
                        self.layout,
                        shape,
                    )
                    &&& self.without_actions().inspected(
                        later,
                        metadata,
                        protocol,
                        shape,
                        ledger.book(),
                        after,
                        r,
                    )
                },
        }
    }

    /// This state without its replayed actions.
    pub open spec fn without_actions(self) -> SnapshotState<K> {
        SnapshotState { candidate: None, ..self }
    }

    fn own_configuration(
        &self,
        shape: &PrimitiveSchemaShape,
        metadata: &Metadata,
        size: &StateSize,
        accounting: &TaskAccounting,
    ) -> (r: Result<usize, OperationFailure>)
        ensures
            outcome(self.configuration_owned(*shape, *metadata, *size, accounting.book()), r),
    {
        let root: usize = byte_len(self.table_root.as_str());
        let bytes: usize = counted(
            shape.configuration_bytes(metadata, root, &self.layout),
            Resource::MetadataAllocatedBytes,
            &self.limits,
        )?;
        match check(Resource::MetadataAllocatedBytes, bytes, &self.limits) {
            Ok(()) => {},
            Err(failure) => return Err(failure),
        }
        let headroom = self.headroom_sized(size, accounting);
        match headroom.consider(accounting, &self.limits, bytes) {
            Ok(()) => Ok(bytes),
            Err(failure) => Err(failure),
        }
    }

    /// Makes the snapshot at the end of a replay.
    ///
    /// The actions are checked, then the schema text is inspected, and the owners of the
    /// configuration are admitted before the table is configured.
    pub fn finish_snapshot(&mut self, accounting: &mut TaskAccounting) -> (r: Result<
        Arc<Snapshot>,
        OperationFailure,
    >)
        ensures
            old(self).finished(*final(self), *old(accounting), final(accounting).book(), r),
            semantic_work(*old(accounting), *final(accounting)),
    {
        let ghost before = *self;
        let ghost ledger = *accounting;
        let version: Option<u64> = match &self.manifest {
            Some(manifest) => Some(manifest.version()),
            None => None,
        };
        let candidate = self.candidate.take();
        let ghost bare = *self;
        assert(bare == before.without_actions());
        let (metadata, protocol) = match take_actions(candidate, version) {
            Ok(actions) => actions,
            Err(failure) => return Err(failure),
        };
        let first = self.measure();
        let headroom = self.headroom_sized(&first, accounting);
        assert(headroom == before.room(before.discovery.file_path_capacity, first, ledger.book()));
        let inspected = PrimitiveSchemaShape::inspect(
            &self.kernel,
            metadata.schema_string.as_str(),
            &self.limits,
            accounting,
            headroom,
            &self.layout,
        );
        let ghost found = inspected;
        assert(PrimitiveSchemaShape::inspected(
            before.kernel,
            metadata.schema_string@,
            before.limits,
            ledger.allowances(),
            before.room(before.discovery.file_path_capacity, first, ledger.book()),
            before.layout,
            found,
        ));
        let ghost action = metadata;
        let ghost terms = protocol;
        let shape = match inspected {
            Ok(shape) => shape,
            Err(failure) => {
                let r = Err(failure);
                assert(bare.inspected(*self, action, terms, found, ledger.book(), accounting.book(), r));
                return r;
            },
        };
        let size = self.measure();
        let ghost nothing: Result<TableConfiguration, Error> = Err(Error::Cancelled);
        let bytes: usize = match self.own_configuration(&shape, &metadata, &size, accounting) {
            Ok(bytes) => bytes,
            Err(failure) => {
                let r = Err(failure);
                assert(bare.configured(
                    *self,
                    shape,
                    action,
                    terms,
                    size,
                    nothing,
                    ledger.book(),
                    accounting.book(),
                    r,
                ));
                assert(bare.inspected(*self, action, terms, found, ledger.book(), accounting.book(), r));
                return r;
            },
        };
        let version: u64 = match version {
            Some(version) => version,
            None => return Err(OperationFailure::malformed_response()),
        };
        let root = self.table_root.as_str();
        let configured = self.kernel.configure(metadata, protocol, root, version);
        let ghost given = configured;
        assert(call_ensures(
            K::configure,
            (&bare.kernel, action, terms, root, bare.history_version()->0),
            given,
        ));
        assert(bare.configures(action, terms, given));
        let r = self.complete(configured, bytes, accounting);
        assert(bare.completed(*self, given, bytes, ledger.book(), accounting.book(), r));
        assert(bare.configured(
            *self,
            shape,
            action,
            terms,
            size,
            given,
            ledger.book(),
            accounting.book(),
            r,
        ));
        assert(bare.inspected(*self, action, terms, found, ledger.book(), accounting.book(), r));
        r
    }
}

/// A finished snapshot is a supported one: its fields are plain, and no metadata of a field was
/// dropped. It keeps the very history that was discovered, of which the task keeps nothing, and it
/// was charged before it was handed over.
pub proof fn finished_snapshots_are_supported<K: TableKernel>(
    state: SnapshotState<K>,
    later: SnapshotState<K>,
    ledger: TaskAccounting,
    after: LedgerView,
    r: Result<Arc<Snapshot>, OperationFailure>,
)
    requires
        state.finished(later, ledger, after, r),
        r is Ok,
    ensures
        actions_supported(state.candidate, state.history_version()) is Ok,
        crate::json_plans::plain_fields(r->Ok_0.configuration.schema.fields@),
        state.segment == Some(r->Ok_0.log_segment),
        r->Ok_0.log_identity_manifest == state.manifest,
        later.segment is None,
        later.manifest is None,
        later.candidate is None,
        r->Ok_0.is_latest == (state.discovery.version is None),
        after == ledger.book().charged(Resource::OutputBytes, r->Ok_0.json_task_retained_bytes),
        ledger.book().charge_result(
            Resource::OutputBytes,
            r->Ok_0.json_task_retained_bytes,
        ) is Ok,
{
    let (metadata, protocol) = actions_supported(state.candidate, state.history_version())->Ok_0;
    let (size, shape) = choose|
        size: StateSize,
        shape: Result<PrimitiveSchemaShape, OperationFailure>,
    |
        {
            &&& size.covers(state.discovery)
            &&& #[trigger] PrimitiveSchemaShape::inspected(
                state.kernel,
                metadata.schema_string@,
                state.limits,
                ledger.allowances(),
                state.room(state.discovery.file_path_capacity, size, ledger.book()),
                state.layout,
                shape,
            )
            &&& state.without_actions().inspected(
                later,
                metadata,
                protocol,
                shape,
                ledger.book(),
                after,
                r,
            )
        };
    let found = shape->Ok_0;
    let bare = state.without_actions();
    let (measured, given) = choose|measured: StateSize, given: Result<TableConfiguration, Error>|
        {
            &&& measured.covers(bare.discovery)
            &&& #[trigger] bare.configured(
                later,
                found,
                metadata,
                protocol,
                measured,
                given,
                ledger.book(),
                after,
                r,
            )
        };
    let bytes = bare.configuration_owned(found, metadata, measured, ledger.book())->Ok_0;
    assert(bare.completed(later, given, bytes, ledger.book(), after, r));
    crate::table_support::supported_fields_are_plain(given->Ok_0.schema.fields@);
}

/// The greatest of some amounts is one of them, or the least that was given, and none is greater.
pub proof fn most_is_the_greatest(least: usize, amounts: Seq<usize>)
    ensures
        most_of(least, amounts) >= least,
        forall|i: int| 0 <= i < amounts.len() ==> most_of(least, amounts) >= #[trigger] amounts[i],
        most_of(least, amounts) == least || exists|i: int|
            0 <= i < amounts.len() && #[trigger] amounts[i] == most_of(least, amounts),
    decreases amounts.len(),
{
    if amounts.len() > 0 {
        let front = amounts.drop_last();
        most_is_the_greatest(least, front);
        assert forall|i: int| 0 <= i < amounts.len() implies most_of(least, amounts)
            >= #[trigger] amounts[i] by {
            if i < front.len() {
                assert(front[i] == amounts[i]);
            }
        }
        if amounts.last() > most_of(least, front) {
            assert(amounts[amounts.len() - 1] == most_of(least, amounts));
        } else if most_of(least, front) != least {
            let i = choose|i: int| 0 <= i < front.len() && #[trigger] front[i] == most_of(least, front);
            assert(amounts[i] == most_of(least, amounts));
        }
    }
}

/// A page is charged exactly where one more page, its batches, its rows and its bytes are within what
/// is allowed in all, and where its batches, rows and bytes are within what a page may have. Then each
/// is charged as it is, and nothing else.
pub proof fn pages_are_charged_as_they_are(
    limits: crate::accounting::TaskLimits,
    page: Option<EvaluationPage>,
    book: LedgerView,
)
    requires
        page matches Some(page) ==> page.contents().len() <= usize::MAX,
    ensures
        ({
            let (charged, after) = page_charged(limits, page, book);
            &&& charged is Ok <==> {
                &&& book.spent(Resource::EvaluationPages) + 1 <= book.limits.allowance(
                    Resource::EvaluationPages,
                )
                &&& page matches Some(page) ==> {
                    &&& page.contents().len() <= limits.allowance(Resource::EvaluationPageBatches)
                    &&& page.row_total() <= limits.allowance(Resource::EvaluationPageRows)
                    &&& page.byte_total() <= limits.allowance(Resource::EvaluationPageBytes)
                    &&& book.spent(Resource::EvaluationBatches) + page.contents().len()
                        <= book.limits.allowance(Resource::EvaluationBatches)
                    &&& book.spent(Resource::EvaluationRows) + page.row_total()
                        <= book.limits.allowance(Resource::EvaluationRows)
                    &&& book.spent(Resource::EvaluationBytes) + page.byte_total()
                        <= book.limits.allowance(Resource::EvaluationBytes)
                }
            }
            &&& charged is Ok ==> {
                &&& after.spent(Resource::EvaluationPages) == book.spent(Resource::EvaluationPages)
                    + 1
                &&& after.limits == book.limits
                &&& page is None ==> (after.counters)(Resource::EvaluationBatches) == (
                book.counters)(Resource::EvaluationBatches)
                &&& page matches Some(page) ==> {
                    &&& after.spent(Resource::EvaluationBatches) == book.spent(
                        Resource::EvaluationBatches,
                    ) + page.contents().len()
                    &&& after.spent(Resource::EvaluationRows) == book.spent(
                        Resource::EvaluationRows,
                    ) + page.row_total()
                    &&& after.spent(Resource::EvaluationBytes) == book.spent(
                        Resource::EvaluationBytes,
                    ) + page.byte_total()
                }
            }
        }),
{
    broadcast use crate::accounting::usage_parts;

    let counted = book.charged(Resource::EvaluationPages, 1);
    crate::ledger::books_take_charges_up_to_their_allowance(
        book,
        Resource::EvaluationPages,
        1,
        Resource::EvaluationBatches,
    );
    if let Some(page) = page {
        let batches = page.contents().len() as usize;
        let first = counted.charged(Resource::EvaluationBatches, batches);
        let second = first.charged(Resource::EvaluationRows, page.row_total());
        crate::ledger::books_take_charges_up_to_their_allowance(
            counted,
            Resource::EvaluationBatches,
            batches,
            Resource::EvaluationRows,
        );
        crate::ledger::books_take_charges_up_to_their_allowance(
            first,
            Resource::EvaluationRows,
            page.row_total(),
            Resource::EvaluationBytes,
        );
        crate::ledger::books_take_charges_up_to_their_allowance(
            second,
            Resource::EvaluationBytes,
            page.byte_total(),
            Resource::EvaluationPages,
        );
    }
}

/// A batch of replayed actions is looked at exactly where none was found before it and its bytes are
/// within the slice.
pub proof fn actions_are_opened_once_and_within_the_slice<K: TableKernel>(
    state: SnapshotState<K>,
    cpu: CpuSlice,
)
    requires
        state.has_batch(),
    ensures
        state.batch_opened(cpu) is Ok <==> {
            &&& state.candidate is None
            &&& state.page->0.contents()[state.page_index as int].backing_charge() matches Ok(bytes)
            &&& bytes <= cpu.byte_cap()
        },
        state.batch_opened(cpu) matches Ok(bytes) ==> state.page->0.contents()[state.page_index as int].backing_charge()
            == Ok::<usize, ResourceExhausted>(bytes),
{
}

/// A turn over replayed batches looks at one after the other, each once. It leaves some for the next
/// turn exactly where the slice has no more records, and releases the page exactly where none is left.
pub proof fn replay_turns_skip_no_batch<K: TableKernel>(
    state: SnapshotState<K>,
    later: SnapshotState<K>,
    cpu: CpuSlice,
    states: Seq<SnapshotState<K>>,
    ledgers: Seq<TaskAccounting>,
    ledger: TaskAccounting,
    after: TaskAccounting,
    left: bool,
)
    requires
        state.page is Some,
        state.page_index <= state.page->0.contents().len(),
        state.page->0.contents().len() < usize::MAX,
        state.page_turned(
            later,
            cpu,
            states,
            ledgers,
            ledger,
            after,
            Ok::<bool, OperationFailure>(left),
        ),
    ensures
        left ==> {
            &&& later.page == state.page
            &&& later.page_index == state.page_index + cpu.record_cap()
            &&& later.page_index < state.page->0.contents().len()
        },
        !left ==> {
            &&& later.page is None
            &&& state.page->0.contents().len() - state.page_index == states.len() - 1
            &&& states.len() - 1 <= cpu.record_cap()
        },
        later.manifest == state.manifest,
        later.segment == state.segment,
        later.evaluation_done == state.evaluation_done,
{
    let n = states.len() - 1;
    assert(states[0] == state);
    read_batches_follow(states, ledgers, cpu, n);
    replay_turns_end(state, states[n], later, cpu, n, left);
}

proof fn replay_turns_end<K: TableKernel>(
    state: SnapshotState<K>,
    last: SnapshotState<K>,
    later: SnapshotState<K>,
    cpu: CpuSlice,
    n: int,
    left: bool,
)
    requires
        state.page is Some,
        state.page_index <= state.page->0.contents().len(),
        last.page == state.page,
        last.page_index == state.page_index + n,
        last.manifest == state.manifest,
        last.segment == state.segment,
        last.evaluation_done == state.evaluation_done,
        n <= cpu.record_cap(),
        n == cpu.record_cap() || !last.has_batch(),
        left == last.has_batch(),
        n > 0 ==> state.page_index + n <= state.page->0.contents().len(),
        later == (if left {
            last
        } else {
            SnapshotState { page: None, page_index: 0, ..last }
        }),
    ensures
        left ==> {
            &&& later.page == state.page
            &&& later.page_index == state.page_index + cpu.record_cap()
            &&& later.page_index < state.page->0.contents().len()
        },
        !left ==> {
            &&& later.page is None
            &&& state.page->0.contents().len() - state.page_index == n
            &&& n <= cpu.record_cap()
        },
        later.manifest == state.manifest,
        later.segment == state.segment,
        later.evaluation_done == state.evaluation_done,
{
}

proof fn read_batches_follow<K: TableKernel>(
    states: Seq<SnapshotState<K>>,
    ledgers: Seq<TaskAccounting>,
    cpu: CpuSlice,
    i: int,
)
    requires
        SnapshotState::batches_read(states, ledgers, cpu),
        states[0].page is Some,
        states[0].page->0.contents().len() < usize::MAX,
        0 <= i < states.len(),
    ensures
        states[i].page == states[0].page,
        states[i].page_index == states[0].page_index + i,
        i > 0 ==> states[i].page_index <= states[0].page->0.contents().len(),
        states[i].manifest == states[0].manifest,
        states[i].segment == states[0].segment,
        states[i].evaluation_done == states[0].evaluation_done,
    decreases i,
{
    if i > 0 {
        read_batches_follow(states, ledgers, cpu, i - 1);
        let a = states[i - 1];
        assert(a.has_batch());
        let b = states[i - 1 + 1];
        assert(a.batch_read(b, cpu, ledgers[i - 1], ledgers[i - 1 + 1], Ok::<(), OperationFailure>(())));
        assert(b.page == a.page && b.page_index == a.page_index + 1 && b.manifest == a.manifest
            && b.segment == a.segment && b.evaluation_done == a.evaluation_done) by {
            reveal(SnapshotState::batch_read);
        }
    }
}

/// A page of replayed actions has one row at most. One that is taken is the next to be looked at, from
/// where the last one was left, and an end ends the replay.
pub proof fn replayed_pages_have_one_row<K: TableKernel>(
    state: SnapshotState<K>,
    later: SnapshotState<K>,
    page: Option<EvaluationPage>,
    reported: Seq<usize>,
    size: StateSize,
    book: LedgerView,
    after: LedgerView,
    r: Result<(), OperationFailure>,
)
    requires
        state.page_accepted(later, page, reported, size, book, after, r),
    ensures
        r is Ok && page is Some ==> {
            &&& page->0.row_total() <= 1
            &&& later.page == page
            &&& later.page_index == state.page_index
            &&& later.evaluation_done == state.evaluation_done
            &&& forall|i: int|
                0 <= i < reported.len() ==> later.host_retained_bytes >= #[trigger] reported[i]
        },
        r is Ok && page is None ==> later.evaluation_done && later.page == state.page,
        page is None ==> (r is Ok <==> book.spent(Resource::EvaluationPages) + 1
            <= book.limits.allowance(Resource::EvaluationPages)),
        later.candidate == state.candidate && later.manifest == state.manifest && later.segment
            == state.segment,
{
    most_is_the_greatest(state.host_retained_bytes, reported);
    crate::ledger::books_take_charges_up_to_their_allowance(
        book,
        Resource::EvaluationPages,
        1,
        Resource::EvaluationBatches,
    );
}

/// A snapshot is made exactly where its table is configured with plain fields, a segment is there, and
/// all that it keeps is counted and within the allowance of the output. It has the configuration, the
/// segment and the history of its task, and is the latest exactly where no version was asked for.
pub proof fn snapshots_are_made_of_their_history<K: TableKernel>(
    state: SnapshotState<K>,
    later: SnapshotState<K>,
    configured: Result<TableConfiguration, Error>,
    bytes: usize,
    book: LedgerView,
    after: LedgerView,
    r: Result<Arc<Snapshot>, OperationFailure>,
)
    requires
        state.completed(later, configured, bytes, book, after, r),
    ensures
        ({
            let history = if let Some(manifest) = state.manifest {
                manifest@.retained_bytes
            } else {
                0
            };
            let output = state.materialized_bytes + bytes + state.segment_bytes + history;
            &&& r is Ok <==> {
                &&& configured matches Ok(configuration)
                &&& fields_supported(configuration.schema.fields@, 0) is Ok
                &&& state.segment is Some
                &&& output <= usize::MAX
                &&& book.spent(Resource::OutputBytes) + output <= book.limits.allowance(
                    Resource::OutputBytes,
                )
            }
            &&& r matches Ok(snapshot) ==> {
                &&& configured == Ok::<TableConfiguration, Error>(snapshot.configuration)
                &&& state.segment == Some(snapshot.log_segment)
                &&& snapshot.log_identity_manifest == state.manifest
                &&& snapshot.json_task_retained_bytes == output
                &&& snapshot.is_latest <==> state.discovery.version is None
                &&& after.spent(Resource::OutputBytes) == book.spent(Resource::OutputBytes) + output
                &&& later.segment is None && later.manifest is None
            }
        }),
{
    let history = if let Some(manifest) = state.manifest {
        manifest@.retained_bytes
    } else {
        0
    };
    let output = state.materialized_bytes + bytes + state.segment_bytes + history;
    if output <= usize::MAX {
        crate::ledger::books_take_charges_up_to_their_allowance(
            book,
            Resource::OutputBytes,
            output as usize,
            Resource::OutputChunks,
        );
    }
}

/// A configuration is made exactly where its owners are within the allowance of metadata and have room
/// in the task's storage.
pub proof fn configurations_are_owned_within_their_allowance<K: TableKernel>(
    state: SnapshotState<K>,
    shape: PrimitiveSchemaShape,
    metadata: Metadata,
    size: StateSize,
    book: LedgerView,
)
    ensures
        ({
            let owners = shape.configuration_owners(
                metadata,
                utf8(state.table_root@).len(),
                state.layout,
            );
            let owned = state.configuration_owned(shape, metadata, size, book);
            &&& owned is Ok <==> {
                &&& owners <= state.limits.allowance(Resource::MetadataAllocatedBytes)
                &&& state.room(state.discovery.file_path_capacity, size, book).considered(
                    book.limits,
                    state.limits,
                    owners as usize,
                ) is Ok
            }
            &&& owned matches Ok(bytes) ==> bytes == owners
        }),
{
}

} // verus!
