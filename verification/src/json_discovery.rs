//! Discovery of a complete JSON history from listing pages.
//!
//! A page is validated as a whole before it is kept. Its entries are taken one by one, within the
//! allowances of a turn: a commit must follow the one before it, and nothing that belongs to a
//! checkpoint or a staged commit is passed over. A path is moved, never copied.

use crate::accounting::{Resource, TaskAccounting, TaskLimits};
use crate::backing::{optional_text_capacity, text_capacity, vec_capacity};
use crate::bytes::{
    begins, begins_bytes, begins_with, byte_len, contains_bytes, occurs, occurs_at, precedes, same_text, strip,
    text_precedes, utf8,
};
use crate::checks::{allowed, check, exhausted, uncountable};
use crate::failure::{Error, FailureKind, OperationFailure};
use crate::headroom::Headroom;
use crate::ledger::{spend, LedgerView};
use crate::log_manifest::{commit_version, version_of};
use crate::machine::semantic_work;
use crate::protocol::{CpuSlice, FileDescriptor};
use crate::refusals::Refusal;
use crate::rows::outside;
use crate::sizing::fitted;
use crate::storage::total;
use vstd::arithmetic::overflow::CheckedUsize;
use vstd::layout::size_of;
use vstd::prelude::*;

verus! {

broadcast use {crate::ledger::semantic_work_chains, crate::ledger::idleness_is_semantic_work};

/// What a discovery looks for.
pub struct HistorySource {
    /// The log directory.
    pub root: Seq<char>,
    /// The version that ends the history, where one is asked for.
    pub wanted: Option<u64>,
    /// The allowances.
    pub limits: TaskLimits,
}

/// How far a discovery is.
#[verifier::ext_equal]
pub struct DiscoveryView {
    /// The commits that were taken, in order.
    pub files: Seq<FileDescriptor>,
    /// The bytes behind their paths.
    pub file_path_capacity: usize,
    /// The entries of the current page that were not looked at.
    pub pending: Seq<FileDescriptor>,
    /// The bytes behind the paths of the page.
    pub listing_path_capacity: usize,
    /// Nothing more is to be listed.
    pub done: bool,
}

/// What was measured of the storage around one entry.
pub struct EntrySize {
    /// The bytes behind the entry's path.
    pub path: usize,
    /// The slots behind the taken commits.
    pub slots: usize,
}

/// The text of a refused entry.
pub open spec fn staged_text() -> Seq<char> {
    "checkpoints and staged commits are outside JSON operation tasks"@
}

/// The name belongs to a checkpoint, a sidecar or a staged commit.
pub open spec fn staged(name: Seq<u8>) -> bool {
    occurs(name, utf8(".checkpoint."@)) || begins(name, utf8("_sidecars/"@)) || begins(
        name,
        utf8("_staged_commits/"@),
    )
}

/// What one entry gives, with the ledger behind it: whether the discovery ends here, and how far it
/// is then.
pub struct EntryOutcome {
    /// Whether the discovery ends, and how far it is, or why the entry is refused.
    pub result: Result<(bool, DiscoveryView), Refusal>,
    /// The ledger.
    pub book: LedgerView,
}

impl DiscoveryView {
    /// The entry is refused.
    pub open spec fn refuses(kind: FailureKind, book: LedgerView) -> EntryOutcome {
        EntryOutcome { result: Err(Refusal::Kind(kind)), book }
    }

    /// This discovery with its first entry passed over.
    pub open spec fn passed(self) -> DiscoveryView {
        DiscoveryView { pending: self.pending.drop_first(), ..self }
    }

    /// This discovery at its end.
    pub open spec fn ended(self) -> DiscoveryView {
        DiscoveryView { pending: Seq::empty(), done: true, ..self }
    }

    /// What taking the commit of a version gives.
    pub open spec fn commit_taken(
        self,
        source: HistorySource,
        book: LedgerView,
        version: u64,
        size: EntrySize,
    ) -> EntryOutcome {
        if source.wanted matches Some(wanted) && version > wanted {
            EntryOutcome { result: Ok((true, self.ended())), book }
        } else if version != self.files.len() {
            EntryOutcome { result: Err(Refusal::Carried(Error::MissingVersion)), book }
        } else if self.files.len() == size.slots {
            DiscoveryView::refuses(uncountable(source.limits, Resource::LogDescriptors), book)
        } else if let Err(kind) = book.charge_result(Resource::LogDescriptors, 1) {
            DiscoveryView::refuses(kind, book)
        } else {
            let book = book.charged(Resource::LogDescriptors, 1);
            match fitted(size.path + size_of::<FileDescriptor>()) {
                None => DiscoveryView::refuses(
                    uncountable(source.limits, Resource::DescriptorBytes),
                    book,
                ),
                Some(bytes) => match book.charge_result(Resource::DescriptorBytes, bytes) {
                    Err(kind) => DiscoveryView::refuses(kind, book),
                    Ok(()) => {
                        let book = book.charged(Resource::DescriptorBytes, bytes);
                        if self.file_path_capacity + size.path > usize::MAX {
                            DiscoveryView::refuses(
                                uncountable(source.limits, Resource::TaskStateBytes),
                                book,
                            )
                        } else if size.path > self.listing_path_capacity {
                            DiscoveryView::refuses(FailureKind::MalformedResponse, book)
                        } else {
                            let taken = DiscoveryView {
                                files: self.files.push(self.pending[0]),
                                file_path_capacity: (self.file_path_capacity + size.path) as usize,
                                pending: self.pending.drop_first(),
                                listing_path_capacity: (self.listing_path_capacity
                                    - size.path) as usize,
                                done: self.done,
                            };
                            if source.wanted == Some(version) {
                                EntryOutcome { result: Ok((true, taken.ended())), book }
                            } else {
                                EntryOutcome { result: Ok((false, taken)), book }
                            }
                        }
                    },
                },
            }
        }
    }

    /// What an entry that is no commit gives.
    pub open spec fn other_passed(
        self,
        source: HistorySource,
        book: LedgerView,
        name: Seq<u8>,
    ) -> EntryOutcome {
        match fitted((2 * name.len() + 26) as int) {
            None => DiscoveryView::refuses(uncountable(source.limits, Resource::WorkUnits), book),
            Some(work) => match book.charge_result(Resource::WorkUnits, work) {
                Err(kind) => DiscoveryView::refuses(kind, book),
                Ok(()) => {
                    let book = book.charged(Resource::WorkUnits, work);
                    if staged(name) {
                        EntryOutcome { result: Err(Refusal::Unsupported(staged_text())), book }
                    } else {
                        EntryOutcome { result: Ok((false, self.passed())), book }
                    }
                },
            },
        }
    }

    /// What looking at the first pending entry gives.
    ///
    /// The record and the comparisons are charged before the name is interpreted: two prefix
    /// comparisons, twenty digits, the suffix and the visit.
    pub open spec fn entry_taken(self, source: HistorySource, book: LedgerView, size: EntrySize) -> EntryOutcome {
        let path = utf8(self.pending[0].path@);
        let root = utf8(source.root);
        if let Err(kind) = book.charge_result(Resource::Records, 1) {
            DiscoveryView::refuses(kind, book)
        } else {
            let book = book.charged(Resource::Records, 1);
            match fitted((2 * path.len() + 26) as int) {
                None => DiscoveryView::refuses(
                    uncountable(source.limits, Resource::WorkUnits),
                    book,
                ),
                Some(work) => match book.charge_result(Resource::WorkUnits, work) {
                    Err(kind) => DiscoveryView::refuses(kind, book),
                    Ok(()) => {
                        let book = book.charged(Resource::WorkUnits, work);
                        if !begins(path, root) {
                            DiscoveryView::refuses(FailureKind::MalformedResponse, book)
                        } else {
                            match version_of(root, path) {
                                Some(version) => self.commit_taken(source, book, version, size),
                                None => self.other_passed(
                                    source,
                                    book,
                                    path.subrange(root.len() as int, path.len() as int),
                                ),
                            }
                        }
                    },
                },
            }
        }
    }

    /// The commits that were taken are those of every version from zero on, in order.
    pub open spec fn gapless(self, source: HistorySource) -> bool {
        forall|i: int|
            0 <= i < self.files.len() ==> version_of(
                utf8(source.root),
                utf8((#[trigger] self.files[i]).path@),
            ) == Some(i as u64)
    }
}

/// How far a turn is.
pub enum TurnState {
    /// The next entry may be looked at.
    Going {
        /// How far the discovery is.
        view: DiscoveryView,
        /// The ledger.
        book: LedgerView,
        /// The bytes of the paths that were looked at in this turn.
        bytes: usize,
    },
    /// The turn is over.
    Ended {
        /// How far the discovery is.
        view: DiscoveryView,
        /// The ledger.
        book: LedgerView,
    },
    /// An entry was refused.
    Refused {
        /// Why.
        refusal: Refusal,
        /// The ledger.
        book: LedgerView,
    },
}

/// What the next entry of a turn gives. An entry that does not fit into what is left of the turn's
/// bytes waits for the next turn; one that fits into no turn is refused.
pub open spec fn turn_step(
    source: HistorySource,
    cap: usize,
    view: DiscoveryView,
    book: LedgerView,
    bytes: usize,
    processed: nat,
    size: EntrySize,
) -> TurnState {
    let next = bytes + utf8(view.pending[0].path@).len();
    let refused = TurnState::Refused {
        refusal: Refusal::Kind(uncountable(source.limits, Resource::TurnInputBytes)),
        book,
    };
    if next > usize::MAX {
        refused
    } else if next > cap {
        if processed == 0 {
            refused
        } else {
            TurnState::Ended { view, book }
        }
    } else {
        let outcome = view.entry_taken(source, book, size);
        match outcome.result {
            Err(refusal) => TurnState::Refused { refusal, book: outcome.book },
            Ok((true, view)) => TurnState::Ended { view, book: outcome.book },
            Ok((false, view)) => TurnState::Going { view, book: outcome.book, bytes: next as usize },
        }
    }
}

/// How far a turn is after `n` entries, with the storage around each as measured.
pub open spec fn walked(
    source: HistorySource,
    cap: usize,
    view: DiscoveryView,
    book: LedgerView,
    sizes: Seq<EntrySize>,
    n: nat,
) -> TurnState
    decreases n,
{
    if n == 0 {
        TurnState::Going { view, book, bytes: 0 }
    } else {
        match walked(source, cap, view, book, sizes, (n - 1) as nat) {
            TurnState::Going { view, book, bytes } => turn_step(
                source,
                cap,
                view,
                book,
                bytes,
                (n - 1) as nat,
                sizes[n - 1],
            ),
            other => other,
        }
    }
}

/// `sizes` can be the storage around the entries of a turn: each path lies within the bytes behind
/// it, and there is a slot for each commit that was taken before.
pub open spec fn sizes_cover(
    source: HistorySource,
    cap: usize,
    view: DiscoveryView,
    book: LedgerView,
    sizes: Seq<EntrySize>,
) -> bool {
    forall|n: nat|
        n < sizes.len() ==> match #[trigger] walked(source, cap, view, book, sizes, n) {
            TurnState::Going { view: at, .. } => {
                &&& sizes[n as int].path >= utf8(at.pending[0].path@).len()
                &&& sizes[n as int].slots >= at.files.len()
            },
            _ => true,
        }
}

/// `r` is what a turn gives, with `later` and `after` behind it. No more entries are looked at than
/// the turn has records, nor than are pending, and `sizes` is the storage around each.
pub open spec fn turned(
    source: HistorySource,
    cpu: CpuSlice,
    view: DiscoveryView,
    book: LedgerView,
    sizes: Seq<EntrySize>,
    later: DiscoveryView,
    after: LedgerView,
    r: Result<(), OperationFailure>,
) -> bool {
    &&& sizes.len() <= cpu.record_cap()
    &&& sizes.len() <= view.pending.len()
    &&& sizes_cover(source, cpu.byte_cap(), view, book, sizes)
    &&& match walked(source, cpu.byte_cap(), view, book, sizes, sizes.len()) {
        TurnState::Going { view, book, bytes } => {
            &&& view.pending.len() == 0 || sizes.len() >= cpu.record_cap()
            &&& r is Ok
            &&& later == view
            &&& after == book
        },
        TurnState::Ended { view, book } => r is Ok && later == view && after == book,
        TurnState::Refused { refusal, book } => after == book && (r matches Err(failure)
            && refusal.delivered(failure)),
    }
}

proof fn later_sizes_change_nothing(
    source: HistorySource,
    cap: usize,
    view: DiscoveryView,
    book: LedgerView,
    sizes: Seq<EntrySize>,
    more: EntrySize,
    n: nat,
)
    requires
        n <= sizes.len(),
    ensures
        walked(source, cap, view, book, sizes, n) == walked(
            source,
            cap,
            view,
            book,
            sizes.push(more),
            n,
        ),
    decreases n,
{
    if n > 0 {
        later_sizes_change_nothing(source, cap, view, book, sizes, more, (n - 1) as nat);
    }
}

proof fn one_more_size_covers(
    source: HistorySource,
    cap: usize,
    view: DiscoveryView,
    book: LedgerView,
    sizes: Seq<EntrySize>,
    more: EntrySize,
)
    requires
        sizes_cover(source, cap, view, book, sizes),
        match walked(source, cap, view, book, sizes, sizes.len()) {
            TurnState::Going { view: at, .. } => more.path >= utf8(at.pending[0].path@).len()
                && more.slots >= at.files.len(),
            _ => true,
        },
    ensures
        sizes_cover(source, cap, view, book, sizes.push(more)),
{
    assert forall|n: nat| n < sizes.push(more).len() implies match #[trigger] walked(
        source,
        cap,
        view,
        book,
        sizes.push(more),
        n,
    ) {
        TurnState::Going { view: at, .. } => {
            &&& sizes.push(more)[n as int].path >= utf8(at.pending[0].path@).len()
            &&& sizes.push(more)[n as int].slots >= at.files.len()
        },
        _ => true,
    } by {
        later_sizes_change_nothing(source, cap, view, book, sizes, more, n);
        assert(n < sizes.len() ==> sizes.push(more)[n as int] == sizes[n as int]);
    }
}

/// What was measured of a listing page.
pub struct ListingSize {
    /// The slots behind the entries.
    pub slots: usize,
    /// The bytes behind all paths, or none where the machine cannot hold their sum.
    pub paths: Option<usize>,
    /// The bytes behind the continuation.
    pub continuation: usize,
}

impl ListingSize {
    /// The bytes behind the entries and their paths.
    pub open spec fn bytes(self) -> Option<usize> {
        match self.paths {
            None => None,
            Some(paths) => fitted(self.slots * size_of::<FileDescriptor>() + paths),
        }
    }

    /// This can be the storage behind a page: there is a slot for each entry, the bytes behind the
    /// paths are those behind each of them together, and each path and the continuation lie within
    /// the bytes behind them.
    pub open spec fn covers(self, files: Seq<FileDescriptor>, continuation: Option<String>) -> bool {
        &&& self.slots >= files.len()
        &&& exists|capacities: Seq<usize>|
            {
                &&& #[trigger] paths_covered(files, capacities)
                &&& self.paths == fitted(total(capacities, files.len()) as int)
            }
        &&& text_covered(continuation, self.continuation)
    }
}

/// `capacities` can be the bytes behind the paths of these entries, one by one: each path lies
/// within its own.
pub open spec fn paths_covered(files: Seq<FileDescriptor>, capacities: Seq<usize>) -> bool {
    &&& capacities.len() == files.len()
    &&& forall|i: int|
        0 <= i < files.len() ==> #[trigger] capacities[i] >= utf8(files[i].path@).len()
}

/// `bytes` can be the storage behind an optional text: the text lies within it, and there is none
/// where there is no text.
pub open spec fn text_covered(text: Option<String>, bytes: usize) -> bool {
    match text {
        Some(text) => bytes >= utf8(text@).len(),
        None => bytes == 0,
    }
}

/// What validating the entries from `i` on gives: each lies in the directory and behind the one
/// before it. Both comparisons are charged first.
pub open spec fn validated(
    source: HistorySource,
    files: Seq<FileDescriptor>,
    i: int,
    previous: Option<Seq<u8>>,
    book: LedgerView,
) -> (Result<(), FailureKind>, LedgerView)
    decreases files.len() - i,
{
    if i >= files.len() {
        (Ok(()), book)
    } else {
        let path = utf8(files[i].path@);
        match fitted((2 * path.len() + 1) as int) {
            None => (Err(uncountable(source.limits, Resource::WorkUnits)), book),
            Some(work) => match book.charge_result(Resource::WorkUnits, work) {
                Err(kind) => (Err(kind), book),
                Ok(()) => {
                    let book = book.charged(Resource::WorkUnits, work);
                    if !begins(path, utf8(source.root)) || (previous matches Some(before)
                        && !precedes(before, path)) {
                        (Err(FailureKind::MalformedResponse), book)
                    } else {
                        validated(source, files, i + 1, Some(path), book)
                    }
                },
            },
        }
    }
}

/// The bytes of an optional text.
pub open spec fn optional_bytes(text: Option<String>) -> Option<Seq<u8>> {
    match text {
        Some(text) => Some(utf8(text@)),
        None => None,
    }
}

/// The continuation that a page of these entries must have: a full page continues behind its last
/// entry, and any other page is the last one.
pub open spec fn continuation_of(source: HistorySource, files: Seq<FileDescriptor>) -> Option<Seq<u8>> {
    if files.len() == source.limits.allowance(Resource::ListingEntries) && files.len() > 0 {
        Some(utf8(files.last().path@))
    } else {
        None
    }
}

/// What opening a page of `count` entries gives: measuring them is charged first.
pub open spec fn page_opened(source: HistorySource, count: nat, book: LedgerView) -> (
    Result<(), FailureKind>,
    LedgerView,
) {
    if let Err(kind) = allowed(source.limits, Resource::ListingEntries, count as int) {
        (Err(kind), book)
    } else {
        (
            book.charge_result(Resource::WorkUnits, count as usize),
            book.charged(Resource::WorkUnits, count as usize),
        )
    }
}

/// What owning a measured page gives.
pub open spec fn page_owned(
    source: HistorySource,
    size: ListingSize,
    headroom: Headroom,
    ledger: TaskLimits,
) -> Result<(), FailureKind> {
    match size.bytes() {
        None => Err(uncountable(source.limits, Resource::ListingDescriptorBytes)),
        Some(bytes) => if let Err(kind) = allowed(
            source.limits,
            Resource::ListingDescriptorBytes,
            bytes as int,
        ) {
            Err(kind)
        } else if let Err(kind) = allowed(
            source.limits,
            Resource::ContinuationBytes,
            size.continuation as int,
        ) {
            Err(kind)
        } else {
            match fitted(bytes + size.continuation) {
                None => Err(uncountable(source.limits, Resource::TaskStateBytes)),
                Some(extra) => headroom.considered(ledger, source.limits, extra),
            }
        },
    }
}

/// What keeping a measured page gives: it is owned, its entries are in order, and its continuation
/// is the expected one.
pub open spec fn page_kept(
    source: HistorySource,
    previous: Option<Seq<u8>>,
    files: Seq<FileDescriptor>,
    continuation: Option<Seq<u8>>,
    size: ListingSize,
    headroom: Headroom,
    book: LedgerView,
) -> (Result<(), FailureKind>, LedgerView) {
    match page_owned(source, size, headroom, book.limits) {
        Err(kind) => (Err(kind), book),
        Ok(()) => match validated(source, files, 0, previous, book) {
            (Err(kind), book) => (Err(kind), book),
            (Ok(()), book) => {
                let length = match continuation {
                    Some(text) => text.len() as usize,
                    None => 0,
                };
                match book.charge_result(Resource::WorkUnits, length) {
                    Err(kind) => (Err(kind), book),
                    Ok(()) => if continuation != continuation_of(source, files) {
                        (
                            Err(FailureKind::MalformedResponse),
                            book.charged(Resource::WorkUnits, length),
                        )
                    } else {
                        (Ok(()), book.charged(Resource::WorkUnits, length))
                    },
                }
            },
        },
    }
}

/// What accepting a page gives, with its storage as measured.
pub open spec fn page_accepted(
    source: HistorySource,
    previous: Option<Seq<u8>>,
    files: Seq<FileDescriptor>,
    continuation: Option<Seq<u8>>,
    size: ListingSize,
    headroom: Headroom,
    book: LedgerView,
) -> (Result<(), FailureKind>, LedgerView) {
    match page_opened(source, files.len(), book) {
        (Err(kind), book) => (Err(kind), book),
        (Ok(()), book) => page_kept(
            source,
            previous,
            files,
            continuation,
            size,
            headroom,
            book,
        ),
    }
}

/// The state of a discovery.
pub struct LogDiscovery {
    /// The log directory, as canonical URL text.
    pub log_root: String,
    /// The version that ends the history, where one is asked for.
    pub version: Option<u64>,
    /// The allowances.
    pub limits: TaskLimits,
    /// The commits that were taken, in order.
    pub files: Vec<FileDescriptor>,
    /// The bytes behind their paths.
    pub file_path_capacity: usize,
    /// The current page.
    pub listing: Vec<FileDescriptor>,
    /// The bytes behind the paths of the page.
    pub listing_path_capacity: usize,
    /// The entries of the page that were looked at.
    pub listing_index: usize,
    /// Where the next page begins.
    pub continuation: Option<String>,
    /// Nothing more is to be listed.
    pub discovery_done: bool,
}

impl LogDiscovery {
    /// What the discovery looks for.
    pub open spec fn source(self) -> HistorySource {
        HistorySource { root: self.log_root@, wanted: self.version, limits: self.limits }
    }

    /// The entries of the page that were not looked at.
    pub open spec fn rest(self) -> Seq<FileDescriptor> {
        if self.listing_index <= self.listing@.len() {
            self.listing@.skip(self.listing_index as int)
        } else {
            Seq::empty()
        }
    }

    /// How far the discovery is.
    pub open spec fn view(&self) -> DiscoveryView {
        DiscoveryView {
            files: self.files@,
            file_path_capacity: self.file_path_capacity,
            pending: self.rest(),
            listing_path_capacity: self.listing_path_capacity,
            done: self.discovery_done,
        }
    }

    /// The discovery looks for the same, and continues at the same place.
    pub open spec fn same_source(self, later: LogDiscovery) -> bool {
        &&& later.log_root == self.log_root
        &&& later.version == self.version
        &&& later.limits == self.limits
        &&& later.continuation == self.continuation
    }

    /// Starts a discovery with room for its commits.
    pub fn new(
        log_root: String,
        version: Option<u64>,
        limits: TaskLimits,
        files: Vec<FileDescriptor>,
    ) -> (discovery: LogDiscovery)
        ensures
            discovery.log_root == log_root,
            discovery.version == version,
            discovery.limits == limits,
            discovery.files == files,
            discovery.file_path_capacity == 0,
            discovery.listing@.len() == 0,
            discovery.listing_path_capacity == 0,
            discovery.listing_index == 0,
            discovery.continuation is None,
            !discovery.discovery_done,
    {
        LogDiscovery {
            log_root,
            version,
            limits,
            files,
            file_path_capacity: 0,
            listing: Vec::new(),
            listing_path_capacity: 0,
            listing_index: 0,
            continuation: None,
            discovery_done: false,
        }
    }

    /// Ends the discovery: what is left of the page is passed over.
    fn end(&mut self)
        requires
            old(self).listing_index <= old(self).listing@.len(),
        ensures
            final(self)@ == old(self)@.ended(),
            old(self).same_source(*final(self)),
            final(self).listing_index <= final(self).listing@.len(),
    {
        self.discovery_done = true;
        self.listing_index = self.listing.len();
        assert(self.listing@.skip(self.listing@.len() as int) =~= Seq::<FileDescriptor>::empty());
    }

    /// Takes the commit of a version out of the page.
    fn take_commit(&mut self, accounting: &mut TaskAccounting, version: u64, size: EntrySize) -> (r:
        Result<bool, OperationFailure>)
        requires
            old(self).listing_index < old(self).listing@.len(),
        ensures
            ({
                let outcome = old(self)@.commit_taken(
                    old(self).source(),
                    old(accounting).book(),
                    version,
                    size,
                );
                &&& final(accounting).book() == outcome.book
                &&& match outcome.result {
                    Ok((ended, view)) => r == Ok::<bool, OperationFailure>(ended) && final(self)@
                        == view && final(self).listing_index <= final(self).listing@.len(),
                    Err(refusal) => r matches Err(failure) && refusal.delivered(failure),
                }
            }),
            old(self).same_source(*final(self)),
            semantic_work(*old(accounting), *final(accounting)),
    {
        if let Some(wanted) = self.version {
            if version > wanted {
                self.end();
                return Ok(true);
            }
        }
        if version != self.files.len() as u64 {
            return Err(OperationFailure::engine(Error::MissingVersion));
        }
        if self.files.len() == size.slots {
            return Err(exhausted(Resource::LogDescriptors, &self.limits));
        }
        match spend(accounting, Resource::LogDescriptors, 1) {
            Ok(()) => {},
            Err(failure) => return Err(failure),
        }
        let bytes: usize = match size.path.checked_add(core::mem::size_of::<FileDescriptor>()) {
            Some(bytes) => bytes,
            None => return Err(exhausted(Resource::DescriptorBytes, &self.limits)),
        };
        match spend(accounting, Resource::DescriptorBytes, bytes) {
            Ok(()) => {},
            Err(failure) => return Err(failure),
        }
        let taken: usize = match self.file_path_capacity.checked_add(size.path) {
            Some(taken) => taken,
            None => return Err(exhausted(Resource::TaskStateBytes, &self.limits)),
        };
        if size.path > self.listing_path_capacity {
            return Err(OperationFailure::malformed_response());
        }
        let ghost before = *self;
        self.file_path_capacity = taken;
        self.listing_path_capacity = self.listing_path_capacity - size.path;
        let index: usize = self.listing_index;
        let mut path = String::new();
        core::mem::swap(&mut path, &mut self.listing[index].path);
        let file = FileDescriptor {
            path,
            size: self.listing[index].size,
            modification_time: self.listing[index].modification_time,
            identity: self.listing[index].identity,
        };
        assert(file == before.listing@[index as int]);
        assert(before@.pending[0] == file);
        self.files.push(file);
        assert(index < self.listing.len());
        self.listing_index = index + 1;
        assert(self.listing@.skip(index + 1) =~= before@.pending.drop_first());
        if self.version == Some(version) {
            self.end();
            return Ok(true);
        }
        Ok(false)
    }

    /// Passes over an entry that is no commit.
    fn pass_other(
        &mut self,
        accounting: &mut TaskAccounting,
        name: Ghost<Seq<u8>>,
        bytes: usize,
        staged_name: bool,
    ) -> (r: Result<bool, OperationFailure>)
        requires
            old(self).listing_index < old(self).listing@.len(),
            bytes == name@.len(),
            staged_name == staged(name@),
        ensures
            ({
                let outcome = old(self)@.other_passed(
                    old(self).source(),
                    old(accounting).book(),
                    name@,
                );
                &&& final(accounting).book() == outcome.book
                &&& match outcome.result {
                    Ok((ended, view)) => r == Ok::<bool, OperationFailure>(ended) && final(self)@
                        == view && final(self).listing_index <= final(self).listing@.len(),
                    Err(refusal) => r matches Err(failure) && refusal.delivered(failure),
                }
            }),
            old(self).same_source(*final(self)),
            semantic_work(*old(accounting), *final(accounting)),
    {
        let work: usize = match CheckedUsize::new(bytes).mul_value(2).add_value(26).to_option() {
            Some(work) => work,
            None => return Err(exhausted(Resource::WorkUnits, &self.limits)),
        };
        match spend(accounting, Resource::WorkUnits, work) {
            Ok(()) => {},
            Err(failure) => return Err(failure),
        }
        if staged_name {
            return Err(outside("checkpoints and staged commits are outside JSON operation tasks"));
        }
        let ghost before = *self;
        assert(self.listing_index < self.listing.len());
        self.listing_index = self.listing_index + 1;
        assert(self.listing@.skip(self.listing_index as int) =~= before@.pending.drop_first());
        Ok(false)
    }

    /// Looks at the first pending entry, with the storage around it as measured. Says whether the
    /// discovery ends here.
    pub fn take_entry_sized(&mut self, accounting: &mut TaskAccounting, size: EntrySize) -> (r: Result<
        bool,
        OperationFailure,
    >)
        requires
            old(self).listing_index < old(self).listing@.len(),
        ensures
            ({
                let outcome = old(self)@.entry_taken(
                    old(self).source(),
                    old(accounting).book(),
                    size,
                );
                &&& final(accounting).book() == outcome.book
                &&& match outcome.result {
                    Ok((ended, view)) => r == Ok::<bool, OperationFailure>(ended) && final(self)@
                        == view && final(self).listing_index <= final(self).listing@.len(),
                    Err(refusal) => r matches Err(failure) && refusal.delivered(failure),
                }
            }),
            old(self).same_source(*final(self)),
            semantic_work(*old(accounting), *final(accounting)),
    {
        assert(self@.pending[0] == self.listing@[self.listing_index as int]);
        match spend(accounting, Resource::Records, 1) {
            Ok(()) => {},
            Err(failure) => return Err(failure),
        }
        let index: usize = self.listing_index;
        let length: usize = byte_len(self.listing[index].path.as_str());
        let work: usize = match CheckedUsize::new(length).mul_value(2).add_value(26).to_option() {
            Some(work) => work,
            None => return Err(exhausted(Resource::WorkUnits, &self.limits)),
        };
        match spend(accounting, Resource::WorkUnits, work) {
            Ok(()) => {},
            Err(failure) => return Err(failure),
        }
        let name = match strip(self.listing[index].path.as_str(), self.log_root.as_str()) {
            Some(name) => name,
            None => return Err(OperationFailure::malformed_response()),
        };
        let ghost relative = name@;
        let bytes: usize = name.len();
        match commit_version(self.log_root.as_str(), self.listing[index].path.as_str()) {
            Some(version) => self.take_commit(accounting, version, size),
            None => {
                let staged_name = contains_bytes(name, ".checkpoint.".as_bytes()) || begins_bytes(
                    name,
                    "_sidecars/".as_bytes(),
                ) || begins_bytes(name, "_staged_commits/".as_bytes());
                self.pass_other(accounting, Ghost(relative), bytes, staged_name)
            },
        }
    }

    /// Looks at pending entries, as many as one turn allows.
    pub fn turn(&mut self, cpu: CpuSlice, accounting: &mut TaskAccounting) -> (r: Result<
        (),
        OperationFailure,
    >)
        ensures
            exists|sizes: Seq<EntrySize>| #[trigger]
                turned(
                    old(self).source(),
                    cpu,
                    old(self)@,
                    old(accounting).book(),
                    sizes,
                    final(self)@,
                    final(accounting).book(),
                    r,
                ),
            r is Ok ==> final(self).listing_index <= final(self).listing@.len(),
            old(self).same_source(*final(self)),
            semantic_work(*old(accounting), *final(accounting)),
    {
        let ghost source = self.source();
        let ghost view = self@;
        let ghost book = accounting.book();
        let ghost cap = cpu.byte_cap();
        if self.listing_index > self.listing.len() {
            self.listing_index = self.listing.len();
            assert(self@ =~= view);
        }
        let ghost mut sizes: Seq<EntrySize> = Seq::empty();
        let mut processed: usize = 0;
        let mut bytes: usize = 0;
        let mut over = false;
        while !over && self.listing_index < self.listing.len() && processed < cpu.records()
            invariant
                self.listing_index <= self.listing@.len(),
                old(self).same_source(*self),
                source == self.source(),
                source == old(self).source(),
                view == old(self)@,
                book == old(accounting).book(),
                cap == cpu.byte_cap(),
                processed <= cpu.record_cap(),
                semantic_work(*old(accounting), *accounting),
                sizes_cover(source, cap, view, book, sizes),
                !over ==> self@.pending.len() + processed == view.pending.len(),
                over ==> turned(
                    source,
                    cpu,
                    view,
                    book,
                    sizes,
                    self@,
                    accounting.book(),
                    Ok::<(), OperationFailure>(()),
                ),
                !over ==> sizes.len() == processed && walked(
                    source,
                    cap,
                    view,
                    book,
                    sizes,
                    processed as nat,
                ) == (TurnState::Going { view: self@, book: accounting.book(), bytes }),
            decreases
                    if over {
                        0
                    } else {
                        1 + cpu.record_cap() - processed
                    },
        {
            let index: usize = self.listing_index;
            assert(self@.pending[0] == self.listing@[index as int]);
            let size = EntrySize {
                path: text_capacity(&self.listing[index].path),
                slots: vec_capacity(&self.files),
            };
            let ghost extended = sizes.push(size);
            proof {
                later_sizes_change_nothing(source, cap, view, book, sizes, size, processed as nat);
                assert(extended[processed as int] == size);
                one_more_size_covers(source, cap, view, book, sizes, size);
            }
            let length: usize = byte_len(self.listing[index].path.as_str());
            let next: usize = match bytes.checked_add(length) {
                Some(next) => next,
                None => {
                    let r = Err(exhausted(Resource::TurnInputBytes, &self.limits));
                    assert(turned(source, cpu, view, book, extended, self@, accounting.book(), r));
                    return r;
                },
            };
            if next > cpu.bytes() {
                if processed == 0 {
                    let r = Err(exhausted(Resource::TurnInputBytes, &self.limits));
                    assert(turned(source, cpu, view, book, extended, self@, accounting.book(), r));
                    return r;
                }
                over = true;
            } else {
                match self.take_entry_sized(accounting, size) {
                    Ok(ended) => {
                        over = ended;
                    },
                    Err(failure) => {
                        let r = Err(failure);
                        assert(turned(
                            source,
                            cpu,
                            view,
                            book,
                            extended,
                            self@,
                            accounting.book(),
                            r,
                        ));
                        return r;
                    },
                }
                bytes = next;
                processed += 1;
            }
            proof {
                sizes = extended;
            }
        }
        assert(turned(
            source,
            cpu,
            view,
            book,
            sizes,
            self@,
            accounting.book(),
            Ok::<(), OperationFailure>(()),
        ));
        Ok(())
    }

    /// The page is the current one, and nothing of it was looked at.
    pub open spec fn keeps(
        self,
        later: LogDiscovery,
        files: Vec<FileDescriptor>,
        continuation: Option<String>,
        size: ListingSize,
    ) -> bool {
        &&& later.log_root == self.log_root
        &&& later.version == self.version
        &&& later.limits == self.limits
        &&& later.files == self.files
        &&& later.file_path_capacity == self.file_path_capacity
        &&& later.listing == files
        &&& size.paths == Some(later.listing_path_capacity)
        &&& later.listing_index == 0
        &&& later.continuation == continuation
        &&& later.discovery_done == (continuation is None)
    }

    fn open_page(&self, count: usize, accounting: &mut TaskAccounting) -> (r: Result<
        (),
        OperationFailure,
    >)
        ensures
            ({
                let (expected, book) = page_opened(
                    self.source(),
                    count as nat,
                    old(accounting).book(),
                );
                crate::checks::outcome(expected, r) && final(accounting).book() == book
            }),
            semantic_work(*old(accounting), *final(accounting)),
    {
        match check(Resource::ListingEntries, count, &self.limits) {
            Ok(()) => spend(accounting, Resource::WorkUnits, count),
            Err(failure) => Err(failure),
        }
    }

    fn own_page(&self, size: &ListingSize, headroom: Headroom, accounting: &TaskAccounting) -> (r: Result<
        (),
        OperationFailure,
    >)
        ensures
            crate::checks::outcome(
                page_owned(self.source(), *size, headroom, accounting.allowances()),
                r,
            ),
    {
        let paths: usize = match size.paths {
            Some(paths) => paths,
            None => return Err(exhausted(Resource::ListingDescriptorBytes, &self.limits)),
        };
        let total = CheckedUsize::new(size.slots).mul_value(
            core::mem::size_of::<FileDescriptor>(),
        ).add_value(paths);
        let bytes: usize = match total.to_option() {
            Some(bytes) => bytes,
            None => return Err(exhausted(Resource::ListingDescriptorBytes, &self.limits)),
        };
        match check(Resource::ListingDescriptorBytes, bytes, &self.limits) {
            Ok(()) => {},
            Err(failure) => return Err(failure),
        }
        match check(Resource::ContinuationBytes, size.continuation, &self.limits) {
            Ok(()) => {},
            Err(failure) => return Err(failure),
        }
        match bytes.checked_add(size.continuation) {
            Some(extra) => headroom.consider(accounting, &self.limits, extra),
            None => Err(exhausted(Resource::TaskStateBytes, &self.limits)),
        }
    }

    fn validate(&self, files: &Vec<FileDescriptor>, accounting: &mut TaskAccounting) -> (r: Result<
        (),
        OperationFailure,
    >)
        ensures
            ({
                let (expected, book) = validated(
                    self.source(),
                    files@,
                    0,
                    optional_bytes(self.continuation),
                    old(accounting).book(),
                );
                crate::checks::outcome(expected, r) && final(accounting).book() == book
            }),
            semantic_work(*old(accounting), *final(accounting)),
    {
        let ghost source = self.source();
        let ghost start = optional_bytes(self.continuation);
        let ghost book = accounting.book();
        let mut i: usize = 0;
        while i < files.len()
            invariant
                i <= files@.len(),
                source == self.source(),
                start == optional_bytes(self.continuation),
                book == old(accounting).book(),
                semantic_work(*old(accounting), *accounting),
                validated(source, files@, 0, start, book) == validated(
                    source,
                    files@,
                    i as int,
                    if i == 0 {
                        start
                    } else {
                        Some(utf8(files@[i - 1].path@))
                    },
                    accounting.book(),
                ),
            decreases files@.len() - i,
        {
            let path = files[i].path.as_str();
            let work: usize = match CheckedUsize::new(byte_len(path)).mul_value(2).add_value(
                1,
            ).to_option() {
                Some(work) => work,
                None => return Err(exhausted(Resource::WorkUnits, &self.limits)),
            };
            match spend(accounting, Resource::WorkUnits, work) {
                Ok(()) => {},
                Err(failure) => return Err(failure),
            }
            let ordered = if i > 0 {
                text_precedes(files[i - 1].path.as_str(), path)
            } else {
                match &self.continuation {
                    Some(before) => text_precedes(before.as_str(), path),
                    None => true,
                }
            };
            if !begins_with(path, self.log_root.as_str()) || !ordered {
                return Err(OperationFailure::malformed_response());
            }
            i += 1;
        }
        Ok(())
    }

    /// Keeps a page that was opened, with its storage as measured.
    pub fn keep_page_sized(
        &mut self,
        files: Vec<FileDescriptor>,
        continuation: Option<String>,
        size: ListingSize,
        headroom: Headroom,
        accounting: &mut TaskAccounting,
    ) -> (r: Result<(), OperationFailure>)
        ensures
            ({
                let (expected, book) = page_kept(
                    old(self).source(),
                    optional_bytes(old(self).continuation),
                    files@,
                    optional_bytes(continuation),
                    size,
                    headroom,
                    old(accounting).book(),
                );
                &&& crate::checks::outcome(expected, r)
                &&& final(accounting).book() == book
                &&& r is Ok ==> old(self).keeps(*final(self), files, continuation, size)
                &&& r is Err ==> *final(self) == *old(self)
            }),
            semantic_work(*old(accounting), *final(accounting)),
    {
        match self.own_page(&size, headroom, accounting) {
            Ok(()) => {},
            Err(failure) => return Err(failure),
        }
        match self.validate(&files, accounting) {
            Ok(()) => {},
            Err(failure) => return Err(failure),
        }
        let length: usize = match &continuation {
            Some(text) => byte_len(text.as_str()),
            None => 0,
        };
        match spend(accounting, Resource::WorkUnits, length) {
            Ok(()) => {},
            Err(failure) => return Err(failure),
        }
        let full = files.len() == self.limits.limit(Resource::ListingEntries) && files.len() > 0;
        let expected = match &continuation {
            Some(text) => full && same_text(text.as_str(), files[files.len() - 1].path.as_str()),
            None => !full,
        };
        if !expected {
            return Err(OperationFailure::malformed_response());
        }
        let paths: usize = match size.paths {
            Some(paths) => paths,
            None => return Err(OperationFailure::malformed_response()),
        };
        self.discovery_done = continuation.is_none();
        self.continuation = continuation;
        self.listing_path_capacity = paths;
        self.listing = files;
        self.listing_index = 0;
        Ok(())
    }

    /// Accepts a listing page: its entries are counted and charged, measured, and kept.
    pub fn accept(
        &mut self,
        files: Vec<FileDescriptor>,
        continuation: Option<String>,
        headroom: Headroom,
        accounting: &mut TaskAccounting,
    ) -> (r: Result<(), OperationFailure>)
        ensures
            exists|size: ListingSize| #[trigger]
                old(self).accepted(
                    *final(self),
                    files,
                    continuation,
                    size,
                    headroom,
                    old(accounting).book(),
                    final(accounting).book(),
                    r,
                ),
            semantic_work(*old(accounting), *final(accounting)),
    {
        let ghost before = *self;
        let ghost book = accounting.book();
        let opened = self.open_page(files.len(), accounting);
        match opened {
            Ok(()) => {},
            Err(failure) => {
                let r = Err(failure);
                assert(before.accepted(
                    *self,
                    files,
                    continuation,
                    ListingSize { slots: 0, paths: None, continuation: 0 },
                    headroom,
                    book,
                    accounting.book(),
                    r,
                ));
                return r;
            },
        }
        let size = measure_listing(&files, &continuation);
        let ghost given = files;
        let ghost cursor = continuation;
        let ghost measured = size;
        let r = self.keep_page_sized(files, continuation, size, headroom, accounting);
        assert(before.accepted(
            *self,
            given,
            cursor,
            measured,
            headroom,
            book,
            accounting.book(),
            r,
        ));
        r
    }

    /// `r` is what accepting a page gives, with its storage as measured. A page that was opened is
    /// measured, and what was measured of it holds the page.
    pub open spec fn accepted(
        self,
        later: LogDiscovery,
        files: Vec<FileDescriptor>,
        continuation: Option<String>,
        size: ListingSize,
        headroom: Headroom,
        book: LedgerView,
        after: LedgerView,
        r: Result<(), OperationFailure>,
    ) -> bool {
        let (expected, charged) = page_accepted(
            self.source(),
            optional_bytes(self.continuation),
            files@,
            optional_bytes(continuation),
            size,
            headroom,
            book,
        );
        &&& crate::checks::outcome(expected, r)
        &&& after == charged
        &&& page_opened(self.source(), files@.len(), book).0 is Ok ==> size.covers(
            files@,
            continuation,
        )
        &&& r is Ok ==> self.keeps(later, files, continuation, size)
        &&& r is Err ==> later == self
    }
}

/// Measures the storage behind a page: the slots behind its entries, the bytes behind all paths
/// together, and those behind the continuation. How much the allocator gave beyond what they hold
/// is not stated.
fn measure_listing(files: &Vec<FileDescriptor>, continuation: &Option<String>) -> (size: ListingSize)
    ensures
        size.covers(files@, *continuation),
{
    let mut sum = CheckedUsize::new(0);
    let mut i: usize = 0;
    let ghost mut capacities: Seq<usize> = Seq::empty();
    while i < files.len()
        invariant
            i <= files@.len(),
            paths_covered(files@.take(i as int), capacities),
            sum@ == total(capacities, i as nat),
        decreases files@.len() - i,
    {
        let bytes: usize = text_capacity(&files[i].path);
        sum = sum.add_value(bytes);
        proof {
            let earlier = capacities;
            capacities = capacities.push(bytes);
            totals_of_prefixes(earlier, capacities, i as nat);
        }
        i += 1;
    }
    assert(files@.take(i as int) =~= files@);
    ListingSize {
        slots: vec_capacity(files),
        paths: sum.to_option(),
        continuation: optional_text_capacity(continuation),
    }
}

/// A sum depends on nothing behind what it adds up.
proof fn totals_of_prefixes(left: Seq<usize>, right: Seq<usize>, n: nat)
    requires
        n <= left.len(),
        left.is_prefix_of(right),
    ensures
        total(left, n) == total(right, n),
    decreases n,
{
    if n > 0 {
        totals_of_prefixes(left, right, (n - 1) as nat);
    }
}

/// Entries from `i` on that pass are in the directory and strictly ascending, behind the one before
/// them.
proof fn validated_entries_ascend(
    source: HistorySource,
    files: Seq<FileDescriptor>,
    i: int,
    previous: Option<Seq<u8>>,
    book: LedgerView,
)
    requires
        0 <= i,
        validated(source, files, i, previous, book).0 is Ok,
    ensures
        forall|j: int|
            i <= j < files.len() ==> {
                &&& begins(utf8((#[trigger] files[j]).path@), utf8(source.root))
                &&& (if j == i {
                    previous matches Some(before) ==> precedes(before, utf8(files[j].path@))
                } else {
                    precedes(utf8(files[j - 1].path@), utf8(files[j].path@))
                })
            },
    decreases files.len() - i,
{
    if i < files.len() {
        let path = utf8(files[i].path@);
        let work = (2 * path.len() + 1) as usize;
        validated_entries_ascend(
            source,
            files,
            i + 1,
            Some(path),
            book.charged(Resource::WorkUnits, work),
        );
    }
}

/// An accepted page lies in the log directory and is strictly ascending, and its first entry stands
/// behind the place where the page was to begin.
pub proof fn accepted_pages_ascend(
    source: HistorySource,
    previous: Option<Seq<u8>>,
    files: Seq<FileDescriptor>,
    continuation: Option<Seq<u8>>,
    size: ListingSize,
    headroom: Headroom,
    book: LedgerView,
)
    requires
        page_accepted(source, previous, files, continuation, size, headroom, book).0 is Ok,
    ensures
        files.len() <= source.limits.allowance(Resource::ListingEntries),
        continuation == continuation_of(source, files),
        forall|j: int|
            0 <= j < files.len() ==> {
                &&& begins(utf8((#[trigger] files[j]).path@), utf8(source.root))
                &&& (if j == 0 {
                    previous matches Some(before) ==> precedes(before, utf8(files[j].path@))
                } else {
                    precedes(utf8(files[j - 1].path@), utf8(files[j].path@))
                })
            },
{
    let opened = page_opened(source, files.len(), book).1;
    validated_entries_ascend(source, files, 0, previous, opened);
}

/// Every turn keeps the taken commits gapless: they are those of every version from zero on, in
/// order, and none that was taken is lost.
pub proof fn discovered_histories_are_gapless(
    source: HistorySource,
    cap: usize,
    view: DiscoveryView,
    book: LedgerView,
    sizes: Seq<EntrySize>,
    n: nat,
)
    requires
        view.gapless(source),
    ensures
        match walked(source, cap, view, book, sizes, n) {
            TurnState::Going { view: later, .. } => later.gapless(source) && view.files.is_prefix_of(
                later.files,
            ),
            TurnState::Ended { view: later, .. } => later.gapless(source) && view.files.is_prefix_of(
                later.files,
            ),
            TurnState::Refused { .. } => true,
        },
    decreases n,
{
    if n > 0 {
        discovered_histories_are_gapless(source, cap, view, book, sizes, (n - 1) as nat);
    }
}

/// A turn over listed entries stays within its slice: their paths together are no longer than the
/// turn's bytes, and every entry that was looked at has left the page.
pub proof fn turns_stay_within_their_slice(
    source: HistorySource,
    cap: usize,
    view: DiscoveryView,
    book: LedgerView,
    sizes: Seq<EntrySize>,
    n: nat,
)
    requires
        n <= view.pending.len(),
    ensures
        walked(source, cap, view, book, sizes, n) matches TurnState::Going { view: later, bytes, .. }
            ==> {
            &&& bytes <= cap
            &&& later.pending == view.pending.skip(n as int)
            &&& bytes == path_bytes(view.pending, n)
        },
    decreases n,
{
    if n == 0 {
        assert(view.pending.skip(0) =~= view.pending);
    } else {
        turns_stay_within_their_slice(source, cap, view, book, sizes, (n - 1) as nat);
        assert(view.pending.skip(n - 1).drop_first() =~= view.pending.skip(n as int));
        assert(view.pending.skip(n - 1).len() > 0);
    }
}

/// The bytes of the first `n` paths.
pub open spec fn path_bytes(files: Seq<FileDescriptor>, n: nat) -> nat
    decreases n,
{
    if n == 0 {
        0
    } else {
        path_bytes(files, (n - 1) as nat) + utf8(files[n - 1].path@).len()
    }
}

/// Moving a path keeps what both lists own together.
pub proof fn moved_paths_stay_owned(
    view: DiscoveryView,
    source: HistorySource,
    book: LedgerView,
    size: EntrySize,
)
    ensures
        view.entry_taken(source, book, size).result matches Ok((_, later)) ==> later.file_path_capacity
            + later.listing_path_capacity == view.file_path_capacity + view.listing_path_capacity,
{
}

/// An entry that is not refused is a commit that joins the history or one that lies beyond it, or no
/// commit at all. Only a version that was asked for ends a history: its own commit does, or the first
/// one behind it. Without such a version no commit is left out.
pub proof fn commits_join_the_history(
    view: DiscoveryView,
    source: HistorySource,
    book: LedgerView,
    size: EntrySize,
)
    requires
        view.pending.len() > 0,
    ensures
        view.entry_taken(source, book, size).result matches Ok((ended, later)) ==> {
            let entry = view.pending[0];
            let path = utf8(entry.path@);
            &&& exists|name: Seq<u8>| path == #[trigger] (utf8(source.root) + name)
            &&& match version_of(utf8(source.root), path) {
                Some(version) => if source.wanted is None || version <= source.wanted->0 {
                    &&& version == view.files.len()
                    &&& later.files == view.files.push(entry)
                    &&& later.file_path_capacity == view.file_path_capacity + size.path
                    &&& later.listing_path_capacity == view.listing_path_capacity - size.path
                    &&& ended == (source.wanted == Some(version))
                } else {
                    &&& ended
                    &&& later.files == view.files
                    &&& later.file_path_capacity == view.file_path_capacity
                },
                None => !ended && later.files == view.files,
            }
            &&& if ended {
                later.done && later.pending.len() == 0
            } else {
                later.done == view.done && later.pending == view.pending.drop_first()
            }
        },
{
    crate::bytes::beginnings_are_prefixes(utf8(view.pending[0].path@), utf8(source.root));
}

/// A listed path is refused where something unsupported stands in its name, wherever it stands: a
/// checkpoint, a sidecar or a staged commit never becomes part of a history, nor is it passed over.
pub proof fn staged_names_are_refused(
    view: DiscoveryView,
    source: HistorySource,
    book: LedgerView,
    size: EntrySize,
    name: Seq<u8>,
    before: Seq<u8>,
    behind: Seq<u8>,
)
    requires
        view.pending.len() > 0,
        utf8(view.pending[0].path@) == utf8(source.root) + name,
        version_of(utf8(source.root), utf8(source.root) + name) is None,
        ({
            ||| name == before + utf8(".checkpoint."@) + behind
            ||| name == utf8("_sidecars/"@) + behind
            ||| name == utf8("_staged_commits/"@) + behind
        }),
    ensures
        view.entry_taken(source, book, size).result is Err,
{
    let path = utf8(source.root) + name;
    assert(path.subrange(utf8(source.root).len() as int, path.len() as int) =~= name);
    if name == before + utf8(".checkpoint."@) + behind {
        assert(occurs_at(name, utf8(".checkpoint."@), before.len() as int)) by {
            assert(name.subrange(
                before.len() as int,
                (before.len() + utf8(".checkpoint."@).len()) as int,
            ) =~= utf8(".checkpoint."@));
        }
    } else if name == utf8("_sidecars/"@) + behind {
        crate::bytes::beginnings_are_prefixes(name, utf8("_sidecars/"@));
    } else {
        crate::bytes::beginnings_are_prefixes(name, utf8("_staged_commits/"@));
    }
}

/// An entry under the root is refused for nothing but what stands against it: the next commit of the
/// history, a commit behind the version that was asked for, and a name without anything unsupported
/// are accepted wherever the ledger has room for their work, and the history for the commit.
pub proof fn supported_entries_are_accepted(
    view: DiscoveryView,
    source: HistorySource,
    book: LedgerView,
    size: EntrySize,
    name: Seq<u8>,
)
    requires
        view.pending.len() > 0,
        utf8(view.pending[0].path@) == utf8(source.root) + name,
        book.spent(Resource::Records) + 1 <= book.limits.allowance(Resource::Records),
        book.spent(Resource::WorkUnits) + 4 * (utf8(source.root) + name).len() + 52
            <= book.limits.allowance(Resource::WorkUnits),
        match version_of(utf8(source.root), utf8(source.root) + name) {
            Some(version) => {
                ||| source.wanted matches Some(wanted) && version > wanted
                ||| {
                    &&& version == view.files.len()
                    &&& view.files.len() < size.slots
                    &&& book.spent(Resource::LogDescriptors) + 1 <= book.limits.allowance(
                        Resource::LogDescriptors,
                    )
                    &&& book.spent(Resource::DescriptorBytes) + size.path
                        + size_of::<FileDescriptor>() <= book.limits.allowance(
                        Resource::DescriptorBytes,
                    )
                    &&& size.path <= view.listing_path_capacity
                    &&& view.file_path_capacity + size.path <= usize::MAX
                }
            },
            None => {
                &&& forall|at: int|
                    0 <= at <= name.len() - utf8(".checkpoint."@).len() ==> (#[trigger] name.subrange(
                        at,
                        at + utf8(".checkpoint."@).len(),
                    )) != utf8(".checkpoint."@)
                &&& !exists|rest: Seq<u8>| name == #[trigger] (utf8("_sidecars/"@) + rest)
                &&& !exists|rest: Seq<u8>| name == #[trigger] (utf8("_staged_commits/"@) + rest)
            },
        },
    ensures
        view.entry_taken(source, book, size).result is Ok,
{
    broadcast use crate::accounting::usage_parts;

    let path = utf8(source.root) + name;
    assert(path.subrange(utf8(source.root).len() as int, path.len() as int) =~= name);
    crate::bytes::beginnings_are_prefixes(path, utf8(source.root));
    crate::bytes::beginnings_are_prefixes(name, utf8("_sidecars/"@));
    crate::bytes::beginnings_are_prefixes(name, utf8("_staged_commits/"@));
    if version_of(utf8(source.root), path) is None {
        assert(!staged(name)) by {
            if occurs(name, utf8(".checkpoint."@)) {
                let at = choose|at: int| occurs_at(name, utf8(".checkpoint."@), at);
                assert(name.subrange(at, at + utf8(".checkpoint."@).len()) == utf8(
                    ".checkpoint."@,
                ));
            }
        }
    }
}

/// The first `k` pending entries were looked at. Each commit among them, up to the version that was
/// asked for, is part of the history, and nothing that was part of it is lost. The rest of the page
/// is still pending, unless the last of them ended the history.
pub open spec fn looked_through(
    source: HistorySource,
    view: DiscoveryView,
    later: DiscoveryView,
    k: int,
) -> bool {
    &&& 0 <= k <= view.pending.len()
    &&& view.files.is_prefix_of(later.files)
    &&& forall|j: int|
        0 <= j < k ==> match version_of(
            utf8(source.root),
            utf8((#[trigger] view.pending[j]).path@),
        ) {
            Some(version) => (source.wanted matches Some(wanted) && version > wanted)
                || later.files.contains(view.pending[j]),
            None => true,
        }
    &&& {
        ||| later.pending == view.pending.skip(k) && later.done == view.done
        ||| {
            &&& later.pending.len() == 0
            &&& later.done
            &&& 0 < k
            &&& source.wanted matches Some(wanted) && (version_of(
                utf8(source.root),
                utf8(view.pending[k - 1].path@),
            ) matches Some(version) && version >= wanted)
        }
    }
}

proof fn walks_look_through(
    source: HistorySource,
    cap: usize,
    view: DiscoveryView,
    book: LedgerView,
    sizes: Seq<EntrySize>,
    n: nat,
)
    requires
        n <= view.pending.len(),
    ensures
        match walked(source, cap, view, book, sizes, n) {
            TurnState::Going { view: later, .. } => looked_through(source, view, later, n as int)
                && later.pending == view.pending.skip(n as int) && later.done == view.done,
            TurnState::Ended { view: later, .. } => exists|k: int| #[trigger]
                looked_through(source, view, later, k),
            TurnState::Refused { .. } => true,
        },
    decreases n,
{
    if n == 0 {
        assert(view.pending.skip(0) =~= view.pending);
        assert(looked_through(source, view, view, 0));
    } else {
        walks_look_through(source, cap, view, book, sizes, (n - 1) as nat);
        if let TurnState::Going { view: at, book: spent, bytes } = walked(
            source,
            cap,
            view,
            book,
            sizes,
            (n - 1) as nat,
        ) {
            let size = sizes[n - 1];
            assert(at.pending == view.pending.skip(n - 1));
            assert(at.pending[0] == view.pending[n - 1]);
            assert(at.pending.drop_first() =~= view.pending.skip(n as int));
            commits_join_the_history(at, source, spent, size);
            let next = bytes + utf8(at.pending[0].path@).len();
            assert(walked(source, cap, view, book, sizes, n) == turn_step(
                source,
                cap,
                at,
                spent,
                bytes,
                (n - 1) as nat,
                size,
            ));
            if next <= cap && next <= usize::MAX {
                if let Ok((ended, later)) = at.entry_taken(source, spent, size).result {
                    assert forall|j: int| 0 <= j < n implies match version_of(
                        utf8(source.root),
                        utf8((#[trigger] view.pending[j]).path@),
                    ) {
                        Some(version) => (source.wanted matches Some(wanted) && version > wanted)
                            || later.files.contains(view.pending[j]),
                        None => true,
                    } by {
                        if j < n - 1 {
                            if at.files.contains(view.pending[j]) {
                                let i = choose|i: int|
                                    0 <= i < at.files.len() && at.files[i] == view.pending[j];
                                assert(later.files[i] == view.pending[j]);
                            }
                        } else if later.files == at.files.push(at.pending[0]) {
                            assert(later.files.last() == view.pending[j]);
                        }
                    }
                    assert(!ended ==> later.pending == view.pending.skip(n as int));
                    assert(!ended ==> later.done == view.done);
                    assert(looked_through(source, view, later, n as int));
                }
            } else {
                assert(looked_through(source, view, at, n - 1));
            }
            if let TurnState::Going { view: later, .. } = walked(source, cap, view, book, sizes, n) {
                assert(looked_through(source, view, later, n as int));
                assert(later.pending == view.pending.skip(n as int));
                assert(later.done == view.done);
            }
            if let TurnState::Ended { view: later, .. } = walked(source, cap, view, book, sizes, n) {
                assert(exists|k: int| #[trigger] looked_through(source, view, later, k));
            }
        } else {
            assert(walked(source, cap, view, book, sizes, n) == walked(
                source,
                cap,
                view,
                book,
                sizes,
                (n - 1) as nat,
            ));
        }
    }
}

/// No listed commit is left behind: every entry that a turn looked at, if it is a commit up to the
/// version that was asked for, is part of the history then. A turn ends the history only at such a
/// version; where none was asked for, whatever was not looked at is still pending.
pub proof fn turns_leave_no_commit_behind(
    source: HistorySource,
    cpu: CpuSlice,
    view: DiscoveryView,
    book: LedgerView,
    sizes: Seq<EntrySize>,
    later: DiscoveryView,
    after: LedgerView,
    r: Result<(), OperationFailure>,
)
    requires
        turned(source, cpu, view, book, sizes, later, after, r),
        r is Ok,
    ensures
        exists|k: int| #[trigger] looked_through(source, view, later, k),
        source.wanted is None ==> exists|k: int|
            {
                &&& #[trigger] looked_through(source, view, later, k)
                &&& later.pending == view.pending.skip(k)
                &&& later.done == view.done
                &&& forall|j: int|
                    0 <= j < k && version_of(
                        utf8(source.root),
                        utf8((#[trigger] view.pending[j]).path@),
                    ) is Some ==> later.files.contains(view.pending[j])
            },
{
    walks_look_through(source, cpu.byte_cap(), view, book, sizes, sizes.len());
    let state = walked(source, cpu.byte_cap(), view, book, sizes, sizes.len());
    let k = if state is Going {
        sizes.len() as int
    } else {
        choose|k: int| #[trigger] looked_through(source, view, later, k)
    };
    assert(looked_through(source, view, later, k));
}

/// The work of validating the entries from `i` on: each path is compared with the directory and with the
/// path before it.
pub open spec fn validation_work(files: Seq<FileDescriptor>, i: int) -> nat
    decreases files.len() - i,
{
    if i >= files.len() {
        0
    } else {
        2 * utf8(files[i].path@).len() + 1 + validation_work(files, i + 1)
    }
}

/// Every path from `i` on begins with the directory and follows the one before it.
pub open spec fn in_order(
    root: Seq<u8>,
    files: Seq<FileDescriptor>,
    i: int,
    previous: Option<Seq<u8>>,
) -> bool {
    &&& forall|j: int| i <= j < files.len() ==> begins(utf8((#[trigger] files[j]).path@), root)
    &&& forall|j: int|
        i < j < files.len() ==> precedes(
            utf8(files[j - 1].path@),
            utf8((#[trigger] files[j]).path@),
        )
    &&& i < files.len() && previous is Some ==> precedes(previous->0, utf8(files[i].path@))
}

proof fn ordered_entries_are_validated(
    source: HistorySource,
    files: Seq<FileDescriptor>,
    i: int,
    previous: Option<Seq<u8>>,
    book: LedgerView,
)
    requires
        0 <= i <= files.len(),
        book.spent(Resource::WorkUnits) <= book.limits.allowance(Resource::WorkUnits),
    ensures
        ({
            let (valid, after) = validated(source, files, i, previous, book);
            let work = validation_work(files, i);
            &&& valid is Ok <==> {
                &&& in_order(utf8(source.root), files, i, previous)
                &&& book.spent(Resource::WorkUnits) + work <= book.limits.allowance(
                    Resource::WorkUnits,
                )
            }
            &&& valid is Ok ==> {
                &&& after.spent(Resource::WorkUnits) == book.spent(Resource::WorkUnits) + work
                &&& after.limits == book.limits
            }
        }),
    decreases files.len() - i,
{
    if i < files.len() {
        let path = utf8(files[i].path@);
        let root = utf8(source.root);
        let work = 2 * path.len() + 1;
        if work <= usize::MAX {
            crate::ledger::books_take_charges_up_to_their_allowance(
                book,
                Resource::WorkUnits,
                work as usize,
                Resource::Records,
            );
            let charged = book.charged(Resource::WorkUnits, work as usize);
            if book.charge_result(Resource::WorkUnits, work as usize) is Ok {
                ordered_entries_are_validated(source, files, i + 1, Some(path), charged);
                let here = begins(path, root) && (previous matches Some(before) ==> precedes(
                    before,
                    path,
                ));
                assert(in_order(root, files, i, previous) <==> here && in_order(
                    root,
                    files,
                    i + 1,
                    Some(path),
                )) by {
                    if in_order(root, files, i, previous) {
                        assert(begins(utf8(files[i].path@), root));
                        if i + 1 < files.len() {
                            assert(precedes(utf8(files[i + 1 - 1].path@), utf8(files[i + 1].path@)));
                        }
                    }
                    if here && in_order(root, files, i + 1, Some(path)) {
                        assert forall|j: int| i <= j < files.len() implies begins(
                            utf8((#[trigger] files[j]).path@),
                            root,
                        ) by {}
                        assert forall|j: int| i < j < files.len() implies precedes(
                            utf8(files[j - 1].path@),
                            utf8((#[trigger] files[j]).path@),
                        ) by {}
                    }
                }
            }
        }
    }
}

/// A page is taken exactly where it has no more entries than are allowed, each of them in the directory
/// and behind the one before it, the first one behind where the last page ended; where it continues
/// behind its last entry if it is full and not at all if it is not; and where its storage has room and
/// the work of looking at it is within the allowance. Just that work is charged.
pub proof fn ordered_pages_are_taken(
    source: HistorySource,
    previous: Option<Seq<u8>>,
    files: Seq<FileDescriptor>,
    continuation: Option<Seq<u8>>,
    size: ListingSize,
    headroom: Headroom,
    book: LedgerView,
)
    requires
        continuation matches Some(text) ==> text.len() <= usize::MAX,
        size.paths is Some,
    ensures
        ({
            let (taken, after) = page_accepted(
                source,
                previous,
                files,
                continuation,
                size,
                headroom,
                book,
            );
            let bytes = size.slots * size_of::<FileDescriptor>() + size.paths->0;
            let cursor = if let Some(text) = continuation {
                text.len()
            } else {
                0
            };
            let work = files.len() + validation_work(files, 0) + cursor;
            let full = files.len() > 0 && files.len() == source.limits.allowance(
                Resource::ListingEntries,
            );
            &&& taken is Ok <==> {
                &&& files.len() <= source.limits.allowance(Resource::ListingEntries)
                &&& bytes <= source.limits.allowance(Resource::ListingDescriptorBytes)
                &&& size.continuation <= source.limits.allowance(Resource::ContinuationBytes)
                &&& bytes + size.continuation <= usize::MAX
                &&& headroom.considered(
                    book.limits,
                    source.limits,
                    (bytes + size.continuation) as usize,
                ) is Ok
                &&& in_order(utf8(source.root), files, 0, previous)
                &&& full ==> continuation == Some(utf8(files.last().path@))
                &&& !full ==> continuation is None
                &&& book.spent(Resource::WorkUnits) + work <= book.limits.allowance(
                    Resource::WorkUnits,
                )
            }
            &&& taken is Ok ==> after.spent(Resource::WorkUnits) == book.spent(Resource::WorkUnits)
                + work
        }),
{
    let cursor: usize = if let Some(text) = continuation {
        text.len() as usize
    } else {
        0
    };
    if files.len() <= source.limits.allowance(Resource::ListingEntries) {
        let count = files.len() as usize;
        crate::ledger::books_take_charges_up_to_their_allowance(
            book,
            Resource::WorkUnits,
            count,
            Resource::Records,
        );
        let opened = book.charged(Resource::WorkUnits, count);
        if book.charge_result(Resource::WorkUnits, count) is Ok {
            ordered_entries_are_validated(source, files, 0, previous, opened);
            let (valid, walked) = validated(source, files, 0, previous, opened);
            crate::ledger::books_take_charges_up_to_their_allowance(
                walked,
                Resource::WorkUnits,
                cursor,
                Resource::Records,
            );
        }
    }
}

} // verus!
