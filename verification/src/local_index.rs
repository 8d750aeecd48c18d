//! A finite index of local files, and the pages and paths that are served from it.
//!
//! Everything here works on texts and numbers that were read before. Opening directories, reading
//! files and observing their metadata stays with the host.

use crate::accounting::{refusal, Resource, TaskLimits};
use crate::backing::{reserve_exact, reserve_text, text_capacity, vec_capacity};
use crate::bytes::{
    byte_len, order_is_irreflexive, order_is_total, order_is_transitive, precedes, same_text,
    text_precedes, utf8,
};
use crate::failure::{FailureKind, OperationFailure, ResourceExhausted};
use crate::local_paths::{described_by, generic};
use crate::protocol::{FileDescriptor, ObjectIdentity};
use crate::refusals::{told, Refusal};
use crate::storage::AdmittedListingPage;
use vstd::arithmetic::overflow::CheckedUsize;
use vstd::layout::size_of;
use vstd::prelude::*;

verus! {

/// What comparing an amount with a limit gives.
pub open spec fn limited(resource: Resource, limit: usize, amount: int) -> Result<
    usize,
    FailureKind,
> {
    if amount > limit {
        Err(FailureKind::ResourceExhausted(refusal(resource, limit, amount as nat)))
    } else {
        Ok(amount as usize)
    }
}

fn check_limit(total: &CheckedUsize, resource: Resource, limit: usize) -> (r: Result<
    usize,
    OperationFailure,
>)
    ensures
        crate::checks::outcome(limited(resource, limit, total@ as int), r),
{
    match total.to_option() {
        Some(observed) => if observed > limit {
            Err(OperationFailure::exhausted(ResourceExhausted { resource, limit, observed }))
        } else {
            Ok(observed)
        },
        None => Err(
            OperationFailure::exhausted(
                ResourceExhausted { resource, limit, observed: usize::MAX },
            ),
        ),
    }
}

/// What was measured of a copied text.
pub struct CopySize {
    /// Why the allocator denied the room, where it did.
    pub denied: Option<Seq<char>>,
    /// The bytes behind the copy.
    pub capacity: usize,
}

impl CopySize {
    /// The measurement of a copy that was made.
    pub open spec fn made(capacity: usize) -> CopySize {
        CopySize { denied: None, capacity }
    }

    /// The measurement of a copy that was never tried.
    pub open spec fn untried() -> CopySize {
        CopySize { denied: Some(Seq::empty()), capacity: 0 }
    }

    /// This can be the measurement of a copy of a text: a copy that was made holds the text.
    pub open spec fn covers(self, text: Seq<char>) -> bool {
        self.denied is None ==> self.capacity >= utf8(text).len()
    }
}

/// What copying a text under a limit gives: the bytes behind the copy.
pub open spec fn copy_admitted(text: Seq<char>, resource: Resource, limit: usize, size: CopySize) -> Result<
    usize,
    Refusal,
> {
    match limited(resource, limit, utf8(text).len() as int) {
        Err(kind) => Err(Refusal::Kind(kind)),
        Ok(_) => match size.denied {
            Some(reason) => Err(
                Refusal::Described("cannot reserve admitted local path: "@ + reason),
            ),
            None => match limited(resource, limit, size.capacity as int) {
                Err(kind) => Err(Refusal::Kind(kind)),
                Ok(capacity) => Ok(capacity),
            },
        },
    }
}

/// What adding a copy of a path to `used` bytes gives: the bytes that are used then.
pub open spec fn copy_added(
    path: Seq<char>,
    resource: Resource,
    limit: usize,
    used: usize,
    size: CopySize,
) -> Result<usize, Refusal> {
    match limited(resource, limit, used + utf8(path).len()) {
        Err(kind) => Err(Refusal::Kind(kind)),
        Ok(_) => match copy_admitted(path, resource, limit, size) {
            Err(refusal) => Err(refusal),
            Ok(capacity) => match limited(resource, limit, used + capacity) {
                Err(kind) => Err(Refusal::Kind(kind)),
                Ok(used) => Ok(used),
            },
        },
    }
}

/// Checks a copy of `length` bytes with `capacity` bytes behind it against a limit.
fn check_copy(length: usize, capacity: usize, resource: Resource, limit: usize) -> (r: Result<
    usize,
    OperationFailure,
>)
    ensures
        match limited(resource, limit, length as int) {
            Err(kind) => r matches Err(failure) && failure.is_terminal(kind),
            Ok(_) => crate::checks::outcome(limited(resource, limit, capacity as int), r),
        },
{
    match check_limit(&CheckedUsize::new(length), resource, limit) {
        Ok(_) => {},
        Err(failure) => return Err(failure),
    }
    check_limit(&CheckedUsize::new(capacity), resource, limit)
}

/// Adds a copy that was made, with `capacity` bytes behind it, to `used` bytes.
fn add_copy(copy: &str, capacity: usize, resource: Resource, limit: usize, used: usize) -> (r: Result<
    usize,
    OperationFailure,
>)
    ensures
        told(copy_added(copy@, resource, limit, used, CopySize::made(capacity)), r),
{
    let length: usize = byte_len(copy);
    match check_limit(&CheckedUsize::new(used).add_value(length), resource, limit) {
        Ok(_) => {},
        Err(failure) => return Err(failure),
    }
    match check_copy(length, capacity, resource, limit) {
        Ok(_) => {},
        Err(failure) => return Err(failure),
    }
    check_limit(&CheckedUsize::new(used).add_value(capacity), resource, limit)
}

/// Copies a text that is within a limit, and says how many bytes stand behind the copy. Whether the
/// room is granted is the allocator's answer.
fn reserve_copy(text: &str, resource: Resource, limit: usize) -> (r: (
    Result<(String, usize), OperationFailure>,
    Ghost<CopySize>,
))
    ensures
        r.1@.covers(text@),
        match limited(resource, limit, utf8(text@).len() as int) {
            Err(kind) => r.0 matches Err(failure) && failure.is_terminal(kind),
            Ok(_) => match r.1@.denied {
                Some(reason) => r.0 matches Err(failure) && generic(
                    failure,
                    "cannot reserve admitted local path: "@ + reason,
                ),
                None => r.0 matches Ok((copy, capacity)) && copy@ == text@ && r.1@
                    == CopySize::made(capacity),
            },
        },
{
    let length: usize = byte_len(text);
    match check_limit(&CheckedUsize::new(length), resource, limit) {
        Ok(_) => {},
        Err(failure) => return (Err(failure), Ghost(CopySize::untried())),
    }
    let mut copy = String::new();
    if let Err(reason) = reserve_text(&mut copy, length) {
        return (
            Err(described_by("cannot reserve admitted local path: ", reason.as_str())),
            Ghost(CopySize { denied: Some(reason@), capacity: 0 }),
        );
    }
    copy.append(text);
    assert(copy@ =~= text@);
    let capacity: usize = text_capacity(&copy);
    (Ok((copy, capacity)), Ghost(CopySize::made(capacity)))
}

/// The entries are in the order of their paths.
pub open spec fn sorted(entries: Seq<FileDescriptor>) -> bool {
    forall|i: int, j: int|
        0 <= i < j < entries.len() ==> !precedes(
            utf8((#[trigger] entries[j]).path@),
            utf8((#[trigger] entries[i]).path@),
        )
}

/// The first entry, from `i` on, whose path comes behind `after`.
pub open spec fn position_after(entries: Seq<FileDescriptor>, after: Seq<u8>, i: int) -> int
    decreases entries.len() - i,
{
    if i >= entries.len() || precedes(after, utf8(entries[i].path@)) {
        i
    } else {
        position_after(entries, after, i + 1)
    }
}

/// The bytes of a cursor.
pub open spec fn cursor_bytes(continuation: Option<&str>) -> Option<Seq<u8>> {
    match continuation {
        Some(after) => Some(utf8(after@)),
        None => None,
    }
}

/// The entry that a page begins with.
pub open spec fn page_start(entries: Seq<FileDescriptor>, continuation: Option<Seq<u8>>) -> int {
    match continuation {
        Some(after) => position_after(entries, after, 0),
        None => 0,
    }
}

/// The number of entries of a page of at most `most` entries.
pub open spec fn page_count(entries: Seq<FileDescriptor>, start: int, most: usize) -> int {
    if entries.len() - start < most {
        entries.len() - start
    } else {
        most as int
    }
}

/// What the first `n` copies of a page retain, with `slots` slots behind them. A copy without a
/// measurement was never tried.
pub open spec fn page_retained(
    entries: Seq<FileDescriptor>,
    start: int,
    limit: usize,
    slots: usize,
    sizes: Seq<CopySize>,
    n: nat,
) -> Result<usize, Refusal>
    decreases n,
{
    let resource = Resource::ListingDescriptorBytes;
    if n == 0 {
        match limited(resource, limit, slots * size_of::<FileDescriptor>()) {
            Err(kind) => Err(Refusal::Kind(kind)),
            Ok(bytes) => Ok(bytes),
        }
    } else {
        match page_retained(entries, start, limit, slots, sizes, (n - 1) as nat) {
            Err(refusal) => Err(refusal),
            Ok(used) => copy_added(
                entries[start + n - 1].path@,
                resource,
                limit,
                used,
                if n <= sizes.len() {
                    sizes[n - 1]
                } else {
                    CopySize::untried()
                },
            ),
        }
    }
}

/// The storage behind a page, as it was measured.
pub struct PageSize {
    /// Why the allocator denied the slots, where it did.
    pub denied: Option<Seq<char>>,
    /// The slots behind the entries.
    pub slots: usize,
    /// The copies of the paths.
    pub paths: Seq<CopySize>,
    /// The copy of the last path that continues the listing.
    pub continuation: CopySize,
    /// The copy of the last path that authenticates the continuation.
    pub binding: CopySize,
}

impl PageSize {
    /// The measurement of a page whose slots were denied, or never asked for.
    pub open spec fn unserved(reason: Seq<char>) -> PageSize {
        PageSize {
            denied: Some(reason),
            slots: 0,
            paths: Seq::empty(),
            continuation: CopySize::untried(),
            binding: CopySize::untried(),
        }
    }

    /// This can be the measurement of a page of `count` entries from `start` on: each copy that was
    /// made holds its text.
    pub open spec fn covers(self, entries: Seq<FileDescriptor>, start: int, count: int) -> bool {
        &&& forall|i: int|
            0 <= i < self.paths.len() && i < count ==> (#[trigger] self.paths[i]).covers(
                entries[start + i].path@,
            )
        &&& count > 0 ==> {
            &&& self.continuation.covers(entries[start + count - 1].path@)
            &&& self.binding.covers(entries[start + count - 1].path@)
        }
    }
}

/// What closing a full page gives: both copies of its last path are within the limit.
pub open spec fn close_admitted(
    last: Seq<char>,
    limit: usize,
    continuation: CopySize,
    binding: CopySize,
) -> Result<(), Refusal> {
    let resource = Resource::ContinuationBytes;
    match copy_admitted(last, resource, limit, continuation) {
        Err(refusal) => Err(refusal),
        Ok(_) => match copy_admitted(last, resource, limit, binding) {
            Err(refusal) => Err(refusal),
            Ok(_) => Ok(()),
        },
    }
}

/// What serving `count` entries from `start` on gives. A full page of `most` entries continues
/// behind its last one.
pub open spec fn page_admitted(
    entries: Seq<FileDescriptor>,
    start: int,
    count: int,
    most: usize,
    descriptor_bytes: usize,
    continuation_bytes: usize,
    size: PageSize,
) -> Result<(), Refusal> {
    if let Err(kind) = limited(
        Resource::ListingDescriptorBytes,
        descriptor_bytes,
        count * size_of::<FileDescriptor>(),
    ) {
        Err(Refusal::Kind(kind))
    } else if let Some(reason) = size.denied {
        Err(Refusal::Described("cannot reserve local listing page: "@ + reason))
    } else if let Err(refusal) = page_retained(
        entries,
        start,
        descriptor_bytes,
        size.slots,
        size.paths,
        count as nat,
    ) {
        Err(refusal)
    } else if count != most {
        Ok(())
    } else {
        close_admitted(
            entries[start + count - 1].path@,
            continuation_bytes,
            size.continuation,
            size.binding,
        )
    }
}

/// A served entry is a copy of an indexed one.
pub open spec fn same_file(entry: FileDescriptor, copy: FileDescriptor) -> bool {
    &&& copy.path@ == entry.path@
    &&& copy.size == entry.size
    &&& copy.modification_time == entry.modification_time
    &&& copy.identity == entry.identity
}

/// The page holds `count` entries from `start` on. A full page continues behind its last entry.
pub open spec fn page_of(
    entries: Seq<FileDescriptor>,
    start: int,
    count: int,
    most: usize,
    page: AdmittedListingPage,
) -> bool {
    &&& page.files@.len() == count
    &&& forall|i: int|
        0 <= i < count ==> same_file(entries[start + i], #[trigger] page.files@[i])
    &&& if count == most {
        &&& page.continuation matches Some(text) && text@ == entries[start + count - 1].path@
        &&& page.binding matches Some(text) && text@ == entries[start + count - 1].path@
    } else {
        page.continuation is None && page.binding is None
    }
}

/// Finite, eagerly admitted index of local files.
pub struct LocalFileIndex {
    root_text: String,
    entries: Vec<FileDescriptor>,
    discovered: usize,
    retained: usize,
    count_limit: usize,
    byte_limit: usize,
}

impl LocalFileIndex {
    /// The root, as it is shown; empty once the index is released.
    pub closed spec fn root(self) -> Seq<char> {
        self.root_text@
    }

    /// The entries, in the order of their paths.
    pub closed spec fn files(self) -> Seq<FileDescriptor> {
        self.entries@
    }

    /// The directory entries that were seen.
    pub closed spec fn seen(self) -> usize {
        self.discovered
    }

    /// What the index retains.
    pub closed spec fn owned(self) -> usize {
        self.retained
    }

    /// The most directory entries.
    pub closed spec fn count_cap(self) -> usize {
        self.count_limit
    }

    /// The most retained bytes.
    pub closed spec fn byte_cap(self) -> usize {
        self.byte_limit
    }

    /// The slots that are reserved: as many as both allowances permit.
    pub open spec fn slots(limits: TaskLimits) -> usize {
        let width = if size_of::<FileDescriptor>() > 1 {
            size_of::<FileDescriptor>()
        } else {
            1
        };
        let fitting = limits.allowance(Resource::DescriptorBytes) as nat / width;
        if limits.allowance(Resource::LogDescriptors) <= fitting {
            limits.allowance(Resource::LogDescriptors)
        } else {
            fitting as usize
        }
    }

    /// `r` is what opening an index gives, with the slots as they were denied or measured.
    pub open spec fn opened(
        root_text: Seq<char>,
        limits: TaskLimits,
        denied: Option<Seq<char>>,
        slots: usize,
        r: Result<LocalFileIndex, OperationFailure>,
    ) -> bool {
        if let Some(reason) = denied {
            r matches Err(failure) && generic(
                failure,
                "cannot reserve local discovery index: "@ + reason,
            )
        } else {
            match limited(
                Resource::DescriptorBytes,
                limits.allowance(Resource::DescriptorBytes),
                slots * size_of::<FileDescriptor>(),
            ) {
                Err(kind) => r matches Err(failure) && failure.is_terminal(kind),
                Ok(bytes) => r matches Ok(index) && {
                    &&& index.root() == root_text
                    &&& index.files().len() == 0
                    &&& index.seen() == 0
                    &&& index.owned() == bytes
                    &&& index.count_cap() == limits.allowance(Resource::LogDescriptors)
                    &&& index.byte_cap() == limits.allowance(Resource::DescriptorBytes)
                },
            }
        }
    }

    /// Returns the slots to reserve: as many as both allowances permit.
    pub fn room(limits: &TaskLimits) -> (slots: usize)
        ensures
            slots == LocalFileIndex::slots(*limits),
    {
        let count_limit: usize = limits.limit(Resource::LogDescriptors);
        let width: usize = if core::mem::size_of::<FileDescriptor>() > 1 {
            core::mem::size_of::<FileDescriptor>()
        } else {
            1
        };
        let fitting: usize = limits.limit(Resource::DescriptorBytes) / width;
        if count_limit <= fitting {
            count_limit
        } else {
            fitting
        }
    }

    /// Makes the index of an empty list with so many slots.
    pub fn with_slots(
        root_text: String,
        entries: Vec<FileDescriptor>,
        slots: usize,
        limits: &TaskLimits,
    ) -> (r: Result<LocalFileIndex, OperationFailure>)
        requires
            entries@.len() == 0,
        ensures
            LocalFileIndex::opened(root_text@, *limits, None, slots, r),
    {
        let byte_limit: usize = limits.limit(Resource::DescriptorBytes);
        let total = CheckedUsize::new(slots).mul_value(core::mem::size_of::<FileDescriptor>());
        match check_limit(&total, Resource::DescriptorBytes, byte_limit) {
            Ok(retained) => Ok(
                LocalFileIndex {
                    root_text,
                    entries,
                    discovered: 0,
                    retained,
                    count_limit: limits.limit(Resource::LogDescriptors),
                    byte_limit,
                },
            ),
            Err(failure) => Err(failure),
        }
    }

    /// Opens an empty index under a root, with its slots reserved.
    pub fn open(root_text: String, limits: &TaskLimits) -> (r: Result<
        LocalFileIndex,
        OperationFailure,
    >)
        ensures
            exists|denied: Option<Seq<char>>, slots: usize| #[trigger]
                LocalFileIndex::opened(root_text@, *limits, denied, slots, r),
    {
        let mut entries: Vec<FileDescriptor> = Vec::new();
        if let Err(reason) = reserve_exact(&mut entries, LocalFileIndex::room(limits)) {
            let r = Err(described_by("cannot reserve local discovery index: ", reason.as_str()));
            assert(LocalFileIndex::opened(root_text@, *limits, Some(reason@), 0, r));
            return r;
        }
        let slots: usize = vec_capacity(&entries);
        LocalFileIndex::with_slots(root_text, entries, slots, limits)
    }

    /// Counts a directory entry before it is opened.
    pub fn count_entry(&mut self) -> (r: Result<(), OperationFailure>)
        ensures
            final(self).root() == old(self).root(),
            final(self).files() == old(self).files(),
            final(self).owned() == old(self).owned(),
            final(self).count_cap() == old(self).count_cap(),
            final(self).byte_cap() == old(self).byte_cap(),
            match limited(
                Resource::LogDescriptors,
                old(self).count_cap(),
                old(self).seen() + 1,
            ) {
                Ok(seen) => r is Ok && final(self).seen() == seen,
                Err(kind) => (r matches Err(failure) && failure.is_terminal(kind))
                    && final(self).seen() == old(self).seen(),
            },
    {
        let total = CheckedUsize::new(self.discovered).add_value(1);
        match check_limit(&total, Resource::LogDescriptors, self.count_limit) {
            Ok(seen) => {
                self.discovered = seen;
                Ok(())
            },
            Err(failure) => Err(failure),
        }
    }

    /// What indexing a path gives: what the index retains then.
    pub open spec fn path_admitted(self, path: Seq<char>, size: CopySize) -> Result<usize, Refusal> {
        copy_added(path, Resource::DescriptorBytes, self.byte_cap(), self.owned(), size)
    }

    /// `r` is what indexing a file gives: it is put in its place in the order of paths.
    pub open spec fn indexed(
        self,
        later: LocalFileIndex,
        path: Seq<char>,
        file: FileDescriptor,
        size: CopySize,
        r: Result<(), OperationFailure>,
    ) -> bool {
        &&& later.root() == self.root()
        &&& later.seen() == self.seen()
        &&& later.count_cap() == self.count_cap()
        &&& later.byte_cap() == self.byte_cap()
        &&& match self.path_admitted(path, size) {
            Err(refusal) => {
                &&& r matches Err(failure) && refusal.delivered(failure)
                &&& later.files() == self.files()
                &&& later.owned() == self.owned()
            },
            Ok(bytes) => {
                &&& r is Ok
                &&& later.owned() == bytes
                &&& file.path@ == path
                &&& later.files() == self.files().insert(
                    position_after(self.files(), utf8(path), 0),
                    file,
                )
            },
        }
    }

    /// Indexes a file by a copy of its path, with `capacity` bytes behind the copy.
    pub fn index_copy(
        &mut self,
        copy: String,
        capacity: usize,
        size: u64,
        modification_time: i64,
        identity: ObjectIdentity,
    ) -> (r: Result<(), OperationFailure>)
        ensures
            old(self).indexed(
                *final(self),
                copy@,
                (FileDescriptor { path: copy, size, modification_time, identity }),
                CopySize::made(capacity),
                r,
            ),
            sorted(old(self).files()) ==> sorted(final(self).files()),
    {
        let retained: usize = match add_copy(
            copy.as_str(),
            capacity,
            Resource::DescriptorBytes,
            self.byte_limit,
            self.retained,
        ) {
            Ok(retained) => retained,
            Err(failure) => return Err(failure),
        };
        let at: usize = first_after(&self.entries, copy.as_str());
        let file = FileDescriptor { path: copy, size, modification_time, identity };
        proof {
            if sorted(self.entries@) {
                inserting_keeps_order(self.entries@, file, at as int);
            }
        }
        self.entries.insert(at, file);
        self.retained = retained;
        Ok(())
    }

    /// Indexes a file.
    pub fn index_file(
        &mut self,
        path: &str,
        size: u64,
        modification_time: i64,
        identity: ObjectIdentity,
    ) -> (r: Result<(), OperationFailure>)
        ensures
            exists|file: FileDescriptor, copy: CopySize|
                {
                    &&& file.size == size
                    &&& file.modification_time == modification_time
                    &&& file.identity == identity
                    &&& copy.covers(path@)
                    &&& #[trigger] old(self).indexed(*final(self), path@, file, copy, r)
                },
            sorted(old(self).files()) ==> sorted(final(self).files()),
    {
        let ghost before = *self;
        let ghost placeholder = FileDescriptor {
            path: arbitrary(),
            size,
            modification_time,
            identity,
        };
        let total = CheckedUsize::new(self.retained).add_value(byte_len(path));
        match check_limit(&total, Resource::DescriptorBytes, self.byte_limit) {
            Ok(_) => {},
            Err(failure) => {
                let r = Err(failure);
                assert(before.indexed(*self, path@, placeholder, CopySize::untried(), r));
                return r;
            },
        }
        let (copied, Ghost(measured)) = reserve_copy(
            path,
            Resource::DescriptorBytes,
            self.byte_limit,
        );
        let (copy, capacity) = match copied {
            Ok(copied) => copied,
            Err(failure) => {
                let r = Err(failure);
                assert(before.indexed(*self, path@, placeholder, measured, r));
                return r;
            },
        };
        let ghost file = FileDescriptor { path: copy, size, modification_time, identity };
        let r = self.index_copy(copy, capacity, size, modification_time, identity);
        assert(before.indexed(*self, path@, file, measured, r));
        r
    }

    /// `r` is what serving a page gives, with its storage as measured.
    pub open spec fn listed(
        self,
        root: Seq<char>,
        continuation: Option<Seq<u8>>,
        entries: usize,
        descriptor_bytes: usize,
        continuation_bytes: usize,
        size: PageSize,
        r: Result<AdmittedListingPage, OperationFailure>,
    ) -> bool {
        let start = page_start(self.files(), continuation);
        let count = page_count(self.files(), start, entries);
        if utf8(self.root()).len() == 0 || utf8(root) != utf8(self.root()) || entries == 0 {
            r matches Err(failure) && failure.is_terminal(FailureKind::MalformedResponse)
        } else {
            &&& size.covers(self.files(), start, count)
            &&& match page_admitted(
                self.files(),
                start,
                count,
                entries,
                descriptor_bytes,
                continuation_bytes,
                size,
            ) {
                Err(refusal) => r matches Err(failure) && refusal.delivered(failure),
                Ok(()) => r matches Ok(page) && page_of(
                    self.files(),
                    start,
                    count,
                    entries,
                    page,
                ),
            }
        }
    }

    /// Serves one page of the index, without looking ahead. Every copy is admitted before it is
    /// made.
    pub fn list(
        &self,
        root: &str,
        continuation: Option<&str>,
        entries: usize,
        descriptor_bytes: usize,
        continuation_bytes: usize,
    ) -> (r: Result<AdmittedListingPage, OperationFailure>)
        ensures
            exists|size: PageSize| #[trigger]
                self.listed(
                    root@,
                    cursor_bytes(continuation),
                    entries,
                    descriptor_bytes,
                    continuation_bytes,
                    size,
                    r,
                ),
    {
        let ghost cursor = cursor_bytes(continuation);
        let ghost unmeasured = PageSize::unserved(Seq::empty());
        if byte_len(self.root_text.as_str()) == 0 || !same_text(root, self.root_text.as_str())
            || entries == 0 {
            let r = Err(OperationFailure::malformed_response());
            assert(self.listed(
                root@,
                cursor,
                entries,
                descriptor_bytes,
                continuation_bytes,
                unmeasured,
                r,
            ));
            return r;
        }
        let (start, count) = self.window(continuation, entries);
        let (served, Ghost(measured)) = self.serve(
            start,
            count,
            entries,
            descriptor_bytes,
            continuation_bytes,
        );
        assert(self.listed(
            root@,
            cursor,
            entries,
            descriptor_bytes,
            continuation_bytes,
            measured,
            served,
        ));
        served
    }

    /// Returns where a page begins and how many entries it holds, and so the slots to reserve.
    pub fn window(&self, continuation: Option<&str>, entries: usize) -> (r: (usize, usize))
        ensures
            r.0 == page_start(self.files(), cursor_bytes(continuation)),
            r.1 == page_count(self.files(), r.0 as int, entries),
            r.0 + r.1 <= self.files().len(),
    {
        let start: usize = match continuation {
            Some(after) => first_after(&self.entries, after),
            None => 0,
        };
        let left: usize = self.entries.len() - start;
        if left < entries {
            (start, left)
        } else {
            (start, entries)
        }
    }

    fn serve(
        &self,
        start: usize,
        count: usize,
        most: usize,
        descriptor_bytes: usize,
        continuation_bytes: usize,
    ) -> (r: (Result<AdmittedListingPage, OperationFailure>, Ghost<PageSize>))
        requires
            start + count <= self.files().len(),
            count <= most,
            most > 0,
        ensures
            match page_admitted(
                self.files(),
                start as int,
                count as int,
                most,
                descriptor_bytes,
                continuation_bytes,
                r.1@,
            ) {
                Err(refusal) => r.0 matches Err(failure) && refusal.delivered(failure),
                Ok(()) => r.0 matches Ok(page) && page_of(
                    self.files(),
                    start as int,
                    count as int,
                    most,
                    page,
                ),
            },
            r.1@.covers(self.files(), start as int, count as int),
    {
        let ghost mut measured = PageSize::unserved(Seq::empty());
        let total = CheckedUsize::new(count).mul_value(core::mem::size_of::<FileDescriptor>());
        match check_limit(&total, Resource::ListingDescriptorBytes, descriptor_bytes) {
            Ok(_) => {},
            Err(failure) => return (Err(failure), Ghost(measured)),
        }
        let mut files: Vec<FileDescriptor> = Vec::new();
        if let Err(reason) = reserve_exact(&mut files, count) {
            return (
                Err(described_by("cannot reserve local listing page: ", reason.as_str())),
                Ghost(PageSize::unserved(reason@)),
            );
        }
        let slots: usize = vec_capacity(&files);
        let (copied, Ghost(paths)) = self.copy_page(&mut files, start, count, descriptor_bytes, slots);
        proof {
            measured = PageSize {
                denied: None,
                slots,
                paths,
                continuation: CopySize::untried(),
                binding: CopySize::untried(),
            };
        }
        match copied {
            Ok(()) => {},
            Err(failure) => return (Err(failure), Ghost(measured)),
        }
        if count != most {
            return (
                Ok(AdmittedListingPage { files, continuation: None, binding: None }),
                Ghost(measured),
            );
        }
        assert(start + count <= self.entries.len());
        let last = self.entries[start + count - 1].path.as_str();
        let (first, Ghost(continued)) = reserve_copy(
            last,
            Resource::ContinuationBytes,
            continuation_bytes,
        );
        proof {
            measured = PageSize { continuation: continued, ..measured };
        }
        let (continuation, first_capacity) = match first {
            Ok(copied) => copied,
            Err(failure) => return (Err(failure), Ghost(measured)),
        };
        match check_copy(
            byte_len(last),
            first_capacity,
            Resource::ContinuationBytes,
            continuation_bytes,
        ) {
            Ok(_) => {},
            Err(failure) => return (Err(failure), Ghost(measured)),
        }
        let (second, Ghost(bound)) = reserve_copy(
            last,
            Resource::ContinuationBytes,
            continuation_bytes,
        );
        proof {
            measured = PageSize { binding: bound, ..measured };
        }
        let (binding, second_capacity) = match second {
            Ok(copied) => copied,
            Err(failure) => return (Err(failure), Ghost(measured)),
        };
        let r = self.close_page(
            files,
            start,
            count,
            (continuation, first_capacity),
            (binding, second_capacity),
            continuation_bytes,
        );
        (r, Ghost(measured))
    }

    /// Closes a full page of `count` entries from `start` on by two copies of its last path, each
    /// with the bytes behind it.
    pub fn close_page(
        &self,
        files: Vec<FileDescriptor>,
        start: usize,
        count: usize,
        continuation: (String, usize),
        binding: (String, usize),
        limit: usize,
    ) -> (r: Result<AdmittedListingPage, OperationFailure>)
        requires
            0 < count,
            start + count <= self.files().len(),
            files@.len() == count,
            forall|i: int|
                0 <= i < count ==> same_file(self.files()[start + i], #[trigger] files@[i]),
            continuation.0@ == self.files()[start + count - 1].path@,
            binding.0@ == self.files()[start + count - 1].path@,
        ensures
            match close_admitted(
                self.files()[start + count - 1].path@,
                limit,
                CopySize::made(continuation.1),
                CopySize::made(binding.1),
            ) {
                Err(refusal) => r matches Err(failure) && refusal.delivered(failure),
                Ok(()) => r matches Ok(page) && page_of(
                    self.files(),
                    start as int,
                    count as int,
                    count,
                    page,
                ),
            },
    {
        let length: usize = byte_len(continuation.0.as_str());
        match check_copy(length, continuation.1, Resource::ContinuationBytes, limit) {
            Ok(_) => {},
            Err(failure) => return Err(failure),
        }
        match check_copy(length, binding.1, Resource::ContinuationBytes, limit) {
            Ok(_) => {},
            Err(failure) => return Err(failure),
        }
        Ok(
            AdmittedListingPage {
                files,
                continuation: Some(continuation.0),
                binding: Some(binding.0),
            },
        )
    }

    /// Puts a copy of an indexed entry on a page, with `capacity` bytes behind its path and
    /// `retained` bytes on the page before it. Says what the page retains then.
    pub fn put_copy(
        files: &mut Vec<FileDescriptor>,
        entry: &FileDescriptor,
        copy: String,
        capacity: usize,
        retained: usize,
        limit: usize,
    ) -> (r: Result<usize, OperationFailure>)
        requires
            copy@ == entry.path@,
        ensures
            told(
                copy_added(
                    entry.path@,
                    Resource::ListingDescriptorBytes,
                    limit,
                    retained,
                    CopySize::made(capacity),
                ),
                r,
            ),
            r is Err ==> final(files)@ == old(files)@,
            r is Ok ==> final(files)@.len() == old(files)@.len() + 1 && final(files)@.drop_last()
                == old(files)@ && same_file(*entry, final(files)@.last()),
    {
        let used: usize = match add_copy(
            copy.as_str(),
            capacity,
            Resource::ListingDescriptorBytes,
            limit,
            retained,
        ) {
            Ok(used) => used,
            Err(failure) => return Err(failure),
        };
        files.push(
            FileDescriptor {
                path: copy,
                size: entry.size,
                modification_time: entry.modification_time,
                identity: entry.identity,
            },
        );
        assert(files@.drop_last() =~= old(files)@);
        Ok(used)
    }

    fn copy_page(
        &self,
        files: &mut Vec<FileDescriptor>,
        start: usize,
        count: usize,
        limit: usize,
        slots: usize,
    ) -> (r: (Result<(), OperationFailure>, Ghost<Seq<CopySize>>))
        requires
            start + count <= self.files().len(),
            old(files)@.len() == 0,
        ensures
            match page_retained(
                self.files(),
                start as int,
                limit,
                slots,
                r.1@,
                count as nat,
            ) {
                Err(refusal) => r.0 matches Err(failure) && refusal.delivered(failure),
                Ok(_) => {
                    &&& r.0 is Ok
                    &&& final(files)@.len() == count
                    &&& forall|i: int|
                        0 <= i < count ==> same_file(
                            self.files()[start + i],
                            #[trigger] final(files)@[i],
                        )
                },
            },
            forall|i: int|
                0 <= i < r.1@.len() && i < count ==> (#[trigger] r.1@[i]).covers(
                    self.files()[start + i].path@,
                ),
    {
        let ghost entries = self.entries@;
        let ghost mut sizes: Seq<CopySize> = Seq::empty();
        let total = CheckedUsize::new(slots).mul_value(core::mem::size_of::<FileDescriptor>());
        let mut retained: usize = match check_limit(
            &total,
            Resource::ListingDescriptorBytes,
            limit,
        ) {
            Ok(retained) => retained,
            Err(failure) => {
                proof {
                    page_refusals_stay(entries, start as int, limit, slots, sizes, 0, count as nat);
                }
                return (Err(failure), Ghost(sizes));
            },
        };
        let mut i: usize = 0;
        while i < count
            invariant
                i <= count,
                start + count <= self.entries@.len(),
                entries == self.entries@,
                sizes.len() == i,
                files@.len() == i,
                page_retained(entries, start as int, limit, slots, sizes, i as nat) == Ok::<
                    usize,
                    Refusal,
                >(retained),
                forall|j: int|
                    0 <= j < i ==> same_file(entries[start + j], #[trigger] files@[j]),
                forall|j: int|
                    0 <= j < i ==> (#[trigger] sizes[j]).covers(entries[start + j].path@),
            decreases count - i,
        {
            let ghost unmade = CopySize::untried();
            assert(start + i < self.entries.len());
            let entry = &self.entries[start + i];
            let path = entry.path.as_str();
            let total = CheckedUsize::new(retained).add_value(byte_len(path));
            match check_limit(&total, Resource::ListingDescriptorBytes, limit) {
                Ok(_) => {},
                Err(failure) => {
                    proof {
                        page_sizes_extend(
                            entries,
                            start as int,
                            limit,
                            slots,
                            sizes,
                            unmade,
                            i as nat,
                        );
                        page_refusals_stay(
                            entries,
                            start as int,
                            limit,
                            slots,
                            sizes.push(unmade),
                            (i + 1) as nat,
                            count as nat,
                        );
                    }
                    return (Err(failure), Ghost(sizes.push(unmade)));
                },
            }
            let (copied, Ghost(copy)) = reserve_copy(
                path,
                Resource::ListingDescriptorBytes,
                limit,
            );
            let ghost longer = sizes.push(copy);
            proof {
                page_sizes_extend(entries, start as int, limit, slots, sizes, copy, i as nat);
                assert(longer[i as int] == copy);
                page_refusals_stay(
                    entries,
                    start as int,
                    limit,
                    slots,
                    longer,
                    (i + 1) as nat,
                    count as nat,
                );
            }
            let (path, capacity) = match copied {
                Ok(copied) => copied,
                Err(failure) => return (Err(failure), Ghost(longer)),
            };
            retained = match LocalFileIndex::put_copy(files, entry, path, capacity, retained, limit) {
                Ok(retained) => retained,
                Err(failure) => return (Err(failure), Ghost(longer)),
            };
            assert forall|j: int| 0 <= j < i + 1 implies same_file(
                entries[start + j],
                #[trigger] files@[j],
            ) by {
                assert(j < i ==> files@[j] == files@.drop_last()[j]);
            }
            proof {
                sizes = longer;
            }
            i += 1;
        }
        (Ok(()), Ghost(sizes))
    }

    /// Releases the index.
    pub fn release(&mut self)
        ensures
            final(self).root().len() == 0,
            final(self).files().len() == 0,
            final(self).seen() == old(self).seen(),
            final(self).owned() == old(self).owned(),
            final(self).count_cap() == old(self).count_cap(),
            final(self).byte_cap() == old(self).byte_cap(),
    {
        self.entries = Vec::new();
        self.root_text = String::new();
    }
}

fn first_after(entries: &Vec<FileDescriptor>, after: &str) -> (at: usize)
    ensures
        at == position_after(entries@, utf8(after@), 0),
        at <= entries@.len(),
{
    let mut at: usize = 0;
    while at < entries.len() && !text_precedes(after, entries[at].path.as_str())
        invariant
            at <= entries@.len(),
            position_after(entries@, utf8(after@), 0) == position_after(
                entries@,
                utf8(after@),
                at as int,
            ),
        decreases entries@.len() - at,
    {
        at += 1;
    }
    at
}

proof fn position_parts(entries: Seq<FileDescriptor>, after: Seq<u8>, i: int)
    requires
        0 <= i <= entries.len(),
    ensures
        i <= position_after(entries, after, i) <= entries.len(),
        forall|j: int|
            i <= j < position_after(entries, after, i) ==> !precedes(
                after,
                utf8((#[trigger] entries[j]).path@),
            ),
        position_after(entries, after, i) < entries.len() ==> precedes(
            after,
            utf8(entries[position_after(entries, after, i)].path@),
        ),
    decreases entries.len() - i,
{
    if i < entries.len() && !precedes(after, utf8(entries[i].path@)) {
        position_parts(entries, after, i + 1);
    }
}

/// Putting a file in its place keeps the order of paths.
proof fn inserting_keeps_order(entries: Seq<FileDescriptor>, file: FileDescriptor, at: int)
    requires
        sorted(entries),
        at == position_after(entries, utf8(file.path@), 0),
    ensures
        sorted(entries.insert(at, file)),
{
    let path = utf8(file.path@);
    position_parts(entries, path, 0);
    let longer = entries.insert(at, file);
    assert forall|i: int, j: int| 0 <= i < j < longer.len() implies !precedes(
        utf8((#[trigger] longer[j]).path@),
        utf8((#[trigger] longer[i]).path@),
    ) by {
        if i < at && j == at {
            assert(longer[i] == entries[i]);
            assert(longer[j] == file);
        } else if i == at {
            assert(longer[i] == file);
            assert(longer[j] == entries[j - 1]);
            let behind = utf8(entries[at].path@);
            let other = utf8(entries[j - 1].path@);
            if precedes(other, path) {
                order_is_transitive(other, path, behind);
                if j - 1 == at {
                    order_is_irreflexive(behind);
                } else {
                    assert(!precedes(other, behind));
                }
            }
        } else {
            let a = if i < at {
                i
            } else {
                i - 1
            };
            let b = if j < at {
                j
            } else {
                j - 1
            };
            assert(longer[i] == entries[a]);
            assert(longer[j] == entries[b]);
        }
    }
}

proof fn page_sizes_extend(
    entries: Seq<FileDescriptor>,
    start: int,
    limit: usize,
    slots: usize,
    sizes: Seq<CopySize>,
    more: CopySize,
    n: nat,
)
    requires
        n <= sizes.len(),
    ensures
        page_retained(entries, start, limit, slots, sizes, n) == page_retained(
            entries,
            start,
            limit,
            slots,
            sizes.push(more),
            n,
        ),
    decreases n,
{
    if n > 0 {
        page_sizes_extend(entries, start, limit, slots, sizes, more, (n - 1) as nat);
    }
}

proof fn page_refusals_stay(
    entries: Seq<FileDescriptor>,
    start: int,
    limit: usize,
    slots: usize,
    sizes: Seq<CopySize>,
    n: nat,
    m: nat,
)
    requires
        n <= m,
    ensures
        page_retained(entries, start, limit, slots, sizes, n) matches Err(refusal)
            ==> page_retained(entries, start, limit, slots, sizes, m) == Err::<usize, Refusal>(
            refusal,
        ),
    decreases m - n,
{
    if n < m {
        page_refusals_stay(entries, start, limit, slots, sizes, n, (m - 1) as nat);
    }
}

/// No two entries have the same path.
pub open spec fn distinct(entries: Seq<FileDescriptor>) -> bool {
    forall|i: int, j: int|
        0 <= i < j < entries.len() ==> utf8((#[trigger] entries[i]).path@) != utf8(
            (#[trigger] entries[j]).path@,
        )
}

/// A page that continues behind an entry begins with the very next one, so that consecutive pages
/// serve every entry once.
pub proof fn pages_continue_where_they_stopped(entries: Seq<FileDescriptor>, k: int)
    requires
        sorted(entries),
        distinct(entries),
        0 <= k < entries.len(),
    ensures
        page_start(entries, Some(utf8(entries[k].path@))) == k + 1,
{
    let after = utf8(entries[k].path@);
    position_parts(entries, after, 0);
    let at = position_after(entries, after, 0);
    if at <= k {
        if at == k {
            order_is_irreflexive(after);
        } else {
            assert(!precedes(utf8(entries[k].path@), utf8(entries[at].path@)));
        }
    } else if at > k + 1 {
        assert(!precedes(after, utf8(entries[k + 1].path@)));
        assert(!precedes(utf8(entries[k + 1].path@), utf8(entries[k].path@)));
        order_is_total(after, utf8(entries[k + 1].path@));
    }
}

/// A served page is a window of the index: it begins with the first entry behind the cursor, or with
/// the first of all, and holds the entries in order. One that continues is full and continues behind
/// its last entry, and one that does not ends with the last entry of the index.
pub proof fn pages_are_windows_of_the_index(
    index: LocalFileIndex,
    root: Seq<char>,
    continuation: Option<Seq<u8>>,
    entries: usize,
    descriptor_bytes: usize,
    continuation_bytes: usize,
    size: PageSize,
    page: AdmittedListingPage,
)
    requires
        index.listed(
            root,
            continuation,
            entries,
            descriptor_bytes,
            continuation_bytes,
            size,
            Ok(page),
        ),
    ensures
        utf8(root) == utf8(index.root()),
        page.files@.len() <= entries,
        page.binding is Some == page.continuation is Some,
        exists|start: int| #[trigger] serves(index.files(), continuation, entries, start, page),
{
    let files = index.files();
    let start = page_start(files, continuation);
    if let Some(after) = continuation {
        position_parts(files, after, 0);
    }
    assert(serves(files, continuation, entries, start, page));
}

/// The page holds the entries from `start` on, as many as it may. Everything in front of `start` was
/// served before, and what follows the page is left for a continuation.
pub open spec fn serves(
    files: Seq<FileDescriptor>,
    continuation: Option<Seq<u8>>,
    entries: usize,
    start: int,
    page: AdmittedListingPage,
) -> bool {
    let end = start + page.files@.len();
    &&& 0 <= start <= end <= files.len()
    &&& continuation is None ==> start == 0
    &&& continuation matches Some(after) ==> {
        &&& forall|i: int| 0 <= i < start ==> !precedes(after, utf8((#[trigger] files[i]).path@))
        &&& start < files.len() ==> precedes(after, utf8(files[start].path@))
    }
    &&& forall|i: int|
        0 <= i < page.files@.len() ==> {
            &&& (#[trigger] page.files@[i]).path@ == files[start + i].path@
            &&& page.files@[i].size == files[start + i].size
            &&& page.files@[i].modification_time == files[start + i].modification_time
            &&& page.files@[i].identity == files[start + i].identity
        }
    &&& match page.continuation {
        None => end == files.len() && page.files@.len() < entries,
        Some(text) => {
            &&& page.files@.len() == entries
            &&& text@ == files[end - 1].path@
            &&& page.binding matches Some(bound) && bound@ == text@
        },
    }
}

/// A page that was asked for behind another one serves what follows it: in an index of distinct paths
/// no entry between them is left out and none is served twice, and the listing is over only when the
/// whole index was served.
pub proof fn consecutive_pages_join(
    files: Seq<FileDescriptor>,
    continuation: Option<Seq<u8>>,
    entries: usize,
    start: int,
    page: AdmittedListingPage,
    more: usize,
    next: int,
    second: AdmittedListingPage,
)
    requires
        sorted(files),
        distinct(files),
        serves(files, continuation, entries, start, page),
        entries > 0,
        page.continuation matches Some(text) && serves(files, Some(utf8(text@)), more, next, second),
    ensures
        next == start + page.files@.len(),
        second.continuation is None ==> next + second.files@.len() == files.len(),
{
    let text = page.continuation->0;
    let k = start + page.files@.len() - 1;
    let after = utf8(text@);
    order_is_irreflexive(after);
    if next <= k {
        if next < k {
            assert(!precedes(utf8(files[k].path@), utf8(files[next].path@)));
        }
    } else if next > k + 1 {
        assert(!precedes(after, utf8(files[k + 1].path@)));
        assert(!precedes(utf8(files[k + 1].path@), utf8(files[k].path@)));
        order_is_total(after, utf8(files[k + 1].path@));
    }
}

/// A page is refused for nothing but what stands against it: where the slots and all copies were
/// granted and the storage behind them is within the request's bytes, the page is served.
pub proof fn pages_within_their_bytes_are_served(
    index: LocalFileIndex,
    root: Seq<char>,
    continuation: Option<Seq<u8>>,
    entries: usize,
    descriptor_bytes: usize,
    continuation_bytes: usize,
    size: PageSize,
    r: Result<AdmittedListingPage, OperationFailure>,
)
    requires
        index.listed(
            root,
            continuation,
            entries,
            descriptor_bytes,
            continuation_bytes,
            size,
            r,
        ),
        index.root().len() > 0,
        root == index.root(),
        entries > 0,
        size.denied is None,
        size.paths.len() <= entries,
        forall|i: int| 0 <= i < size.paths.len() ==> (#[trigger] size.paths[i]).denied is None,
        size.paths.len() == entries || (continuation is None && size.paths.len()
            == index.files().len()),
        size.slots >= size.paths.len(),
        size.slots * size_of::<FileDescriptor>() + copied_bytes(size.paths, size.paths.len())
            <= descriptor_bytes,
        size.continuation.denied is None && size.continuation.capacity <= continuation_bytes,
        size.binding.denied is None && size.binding.capacity <= continuation_bytes,
    ensures
        r is Ok,
{
    let files = index.files();
    let start = page_start(files, continuation);
    let count = page_count(files, start, entries);
    texts_are_not_empty(root);
    if let Some(after) = continuation {
        position_parts(files, after, 0);
    }
    assert(count <= size.paths.len());
    copied_bytes_grow(size.paths, count as nat, size.paths.len());
    assert(count * size_of::<FileDescriptor>() <= size.slots * size_of::<FileDescriptor>())
        by (nonlinear_arith)
        requires
            count <= size.slots,
            size_of::<FileDescriptor>() >= 0,
    ;
    copies_within_bytes_are_retained(
        files,
        start,
        descriptor_bytes,
        size.slots,
        size.paths,
        count as nat,
    );
}

/// The bytes behind the first `n` copies.
pub open spec fn copied_bytes(copies: Seq<CopySize>, n: nat) -> nat
    decreases n,
{
    if n == 0 {
        0
    } else {
        copied_bytes(copies, (n - 1) as nat) + copies[n - 1].capacity as nat
    }
}

proof fn copied_bytes_grow(copies: Seq<CopySize>, n: nat, m: nat)
    requires
        n <= m,
    ensures
        copied_bytes(copies, n) <= copied_bytes(copies, m),
    decreases m,
{
    if n < m {
        copied_bytes_grow(copies, n, (m - 1) as nat);
    }
}

proof fn copies_within_bytes_are_retained(
    entries: Seq<FileDescriptor>,
    start: int,
    limit: usize,
    slots: usize,
    sizes: Seq<CopySize>,
    n: nat,
)
    requires
        n <= sizes.len(),
        forall|i: int|
            0 <= i < n ==> (#[trigger] sizes[i]).denied is None && sizes[i].covers(
                entries[start + i].path@,
            ),
        slots * size_of::<FileDescriptor>() + copied_bytes(sizes, n) <= limit,
    ensures
        page_retained(entries, start, limit, slots, sizes, n) matches Ok(used) && used == slots
            * size_of::<FileDescriptor>() + copied_bytes(sizes, n),
    decreases n,
{
    if n > 0 {
        copies_within_bytes_are_retained(entries, start, limit, slots, sizes, (n - 1) as nat);
        assert(sizes[n - 1].covers(entries[start + n - 1].path@));
    }
}

proof fn texts_are_not_empty(text: Seq<char>)
    ensures
        (utf8(text).len() == 0) == (text.len() == 0),
{
    if text.len() > 0 {
        vstd::utf8::encode_utf8_decode_utf8(text);
    }
}

/// An indexed file stands in the index with the facts it was given, and every file that stood there
/// still does, in the same order. A refused file changes nothing.
pub proof fn indexed_files_are_kept(
    before: LocalFileIndex,
    after: LocalFileIndex,
    path: Seq<char>,
    file: FileDescriptor,
    size: CopySize,
    r: Result<(), OperationFailure>,
)
    requires
        before.indexed(after, path, file, size, r),
    ensures
        r is Err ==> after.files() == before.files() && after.owned() == before.owned(),
        r is Ok ==> {
            &&& after.owned() == before.owned() + size.capacity
            &&& after.files().len() == before.files().len() + 1
            &&& exists|at: int|
                {
                    &&& 0 <= at < after.files().len()
                    &&& after.files()[at] == file
                    &&& file.path@ == path
                    &&& before.files() == #[trigger] after.files().remove(at)
                }
        },
        r is Err && size.denied is None ==> before.owned() + size.capacity > before.byte_cap() || before.owned()
            + utf8(path).len() > before.byte_cap(),
{
    let at = position_after(before.files(), utf8(path), 0);
    position_parts(before.files(), utf8(path), 0);
    if r is Ok {
        assert(after.files().remove(at) =~= before.files());
    }
}

/// An index is opened exactly where its slots were granted and are within its bytes. It is empty then,
/// and keeps the allowances of its task.
pub proof fn indexes_open_within_their_bytes(
    root_text: Seq<char>,
    limits: TaskLimits,
    denied: Option<Seq<char>>,
    slots: usize,
    r: Result<LocalFileIndex, OperationFailure>,
)
    requires
        LocalFileIndex::opened(root_text, limits, denied, slots, r),
    ensures
        r is Ok <==> denied is None && slots * size_of::<FileDescriptor>() <= limits.allowance(
            Resource::DescriptorBytes,
        ),
        r matches Ok(index) ==> {
            &&& index.root() == root_text
            &&& index.files().len() == 0
            &&& index.seen() == 0
            &&& index.owned() == slots * size_of::<FileDescriptor>()
            &&& index.count_cap() == limits.allowance(Resource::LogDescriptors)
            &&& index.byte_cap() == limits.allowance(Resource::DescriptorBytes)
        },
{
}

/// A file that is indexed takes its place in the order of the paths: an index that was sorted stays so.
pub proof fn indexes_stay_sorted(
    before: LocalFileIndex,
    after: LocalFileIndex,
    path: Seq<char>,
    file: FileDescriptor,
    size: CopySize,
    r: Result<(), OperationFailure>,
)
    requires
        before.indexed(after, path, file, size, r),
        sorted(before.files()),
    ensures
        sorted(after.files()),
{
    if r is Ok {
        let at = position_after(before.files(), utf8(path), 0);
        position_parts(before.files(), utf8(path), 0);
        inserting_keeps_order(before.files(), file, at);
    }
}

} // verus!
