//! The storage boundary: what a source hands over, how it is counted, and what was observed of
//! each object.

use crate::accounting::{FooterLimits, Resource, TaskLimits};
use crate::backing::{optional_text_capacity, reserve_exact, text_capacity, vec_capacity};
use crate::bytes::{
    begins, begins_with, order_is_transitive, precedes, same_text, text_precedes, utf8,
};
use crate::failure::{FailureKind, OperationFailure, ResourceExhausted, TaskProtocolError};
use crate::protocol::{FileDescriptor, ObjectIdentity};
use crate::schema::ParquetFooter;
use vstd::arithmetic::overflow::CheckedUsize;
use vstd::prelude::*;

verus! {

/// One listing page whose allocations were admitted by its source before construction.
pub struct AdmittedListingPage {
    /// Sorted descriptors confined to the requested root.
    pub files: Vec<FileDescriptor>,
    /// The last returned path for a full page, or `None` for definitive end of listing.
    pub continuation: Option<String>,
    /// A separately admitted copy retained by the driver to authenticate the next request.
    pub binding: Option<String>,
}

/// One exact owned range whose destination allocation was admitted before I/O.
pub struct AdmittedRead {
    /// Identity observed while reading the range.
    pub identity: ObjectIdentity,
    /// Actual first byte offset.
    pub offset: u64,
    /// Exact owned bytes with capacity equal to the requested length.
    pub bytes: Vec<u8>,
    /// Whether the range ends at the identity-checked object end.
    pub eof: bool,
}

/// Identity and size returned by an admitted HEAD operation.
pub struct AdmittedHead {
    /// Identity observed with the size.
    pub identity: ObjectIdentity,
    /// Object byte length.
    pub size: u64,
}

/// Limited footer result bound to the identity and size used by its decoder.
pub struct AdmittedFooter {
    /// Identity observed while decoding.
    pub identity: ObjectIdentity,
    /// Identity-checked object size used by the decoder.
    pub size: u64,
    /// Decoded footer whose retained owners were admitted before allocation.
    pub footer: ParquetFooter,
}

/// Producer-admitted storage result, validated against its outstanding request by the driver.
pub enum AdmittedIoEffect {
    /// One bounded discovery page.
    Listing(AdmittedListingPage),
    /// An identity-checked exact read.
    Read(AdmittedRead),
    /// An observed identity and size.
    Head(AdmittedHead),
    /// A bounded footer decode.
    Footer(AdmittedFooter),
}

/// Checked cumulative storage-effect measurements retained independently of source ownership.
#[derive(Debug, Clone, Copy, PartialEq, Eq, Structural)]
pub struct IoUsage {
    /// Completed listing pages, empty ones included.
    pub listing_pages: usize,
    /// Descriptors over all pages.
    pub descriptors: usize,
    /// Completed reads.
    pub read_requests: usize,
    /// Bytes asked for by completed reads.
    pub requested_read_bytes: usize,
    /// Bytes received by completed reads.
    pub received_read_bytes: usize,
    /// Completed HEAD effects.
    pub heads: usize,
    /// Completed footer effects.
    pub footers: usize,
}

impl Default for IoUsage {
    fn default() -> (usage: IoUsage)
        ensures
            usage == IoUsage::none(),
    {
        IoUsage {
            listing_pages: 0,
            descriptors: 0,
            read_requests: 0,
            requested_read_bytes: 0,
            received_read_bytes: 0,
            heads: 0,
            footers: 0,
        }
    }
}

/// A sum, where it can be represented.
pub open spec fn sum(left: usize, right: usize) -> Option<usize> {
    if left + right <= usize::MAX {
        Some((left + right) as usize)
    } else {
        None
    }
}

fn checked_sum(left: usize, right: usize) -> (r: Result<usize, OperationFailure>)
    ensures
        match sum(left, right) {
            Some(total) => r == Ok::<usize, OperationFailure>(total),
            None => r matches Err(failure) && failure.is_terminal(FailureKind::MalformedResponse),
        },
{
    match left.checked_add(right) {
        Some(total) => Ok(total),
        None => Err(OperationFailure::malformed_response()),
    }
}

impl IoUsage {
    /// Nothing was completed yet.
    pub open spec fn none() -> IoUsage {
        IoUsage {
            listing_pages: 0,
            descriptors: 0,
            read_requests: 0,
            requested_read_bytes: 0,
            received_read_bytes: 0,
            heads: 0,
            footers: 0,
        }
    }

    /// No counter of `later` is behind.
    pub open spec fn precedes(self, later: IoUsage) -> bool {
        &&& self.listing_pages <= later.listing_pages
        &&& self.descriptors <= later.descriptors
        &&& self.read_requests <= later.read_requests
        &&& self.requested_read_bytes <= later.requested_read_bytes
        &&& self.received_read_bytes <= later.received_read_bytes
        &&& self.heads <= later.heads
        &&& self.footers <= later.footers
    }

    /// One more listing page.
    pub open spec fn plus_listing(self, descriptors: usize) -> Option<IoUsage> {
        match (sum(self.listing_pages, 1), sum(self.descriptors, descriptors)) {
            (Some(listing_pages), Some(descriptors)) => Some(
                IoUsage { listing_pages, descriptors, ..self },
            ),
            _ => None,
        }
    }

    /// One more read.
    pub open spec fn plus_read(self, bytes: usize) -> Option<IoUsage> {
        match (
            sum(self.read_requests, 1),
            sum(self.requested_read_bytes, bytes),
            sum(self.received_read_bytes, bytes),
        ) {
            (Some(read_requests), Some(requested_read_bytes), Some(received_read_bytes)) => Some(
                IoUsage { read_requests, requested_read_bytes, received_read_bytes, ..self },
            ),
            _ => None,
        }
    }

    /// One more HEAD.
    pub open spec fn plus_head(self) -> Option<IoUsage> {
        match sum(self.heads, 1) {
            Some(heads) => Some(IoUsage { heads, ..self }),
            None => None,
        }
    }

    /// One more footer.
    pub open spec fn plus_footer(self) -> Option<IoUsage> {
        match sum(self.footers, 1) {
            Some(footers) => Some(IoUsage { footers, ..self }),
            None => None,
        }
    }

    /// `r` is the given usage, or the failure of a counter that cannot advance.
    pub open spec fn or_malformed(usage: Option<IoUsage>, r: Result<IoUsage, OperationFailure>) -> bool {
        match usage {
            Some(usage) => r == Ok::<IoUsage, OperationFailure>(usage),
            None => r matches Err(failure) && failure.is_terminal(FailureKind::MalformedResponse),
        }
    }

    /// Returns completed listing pages, including empty end-of-listing pages.
    pub fn listing_pages(self) -> (n: usize)
        ensures
            n == self.listing_pages,
    {
        self.listing_pages
    }

    /// Returns descriptors produced across completed listing pages.
    pub fn descriptors(self) -> (n: usize)
        ensures
            n == self.descriptors,
    {
        self.descriptors
    }

    /// Returns completed exact-range reads.
    pub fn read_requests(self) -> (n: usize)
        ensures
            n == self.read_requests,
    {
        self.read_requests
    }

    /// Returns bytes requested by completed exact-range reads.
    pub fn requested_read_bytes(self) -> (n: usize)
        ensures
            n == self.requested_read_bytes,
    {
        self.requested_read_bytes
    }

    /// Returns admitted owned bytes received from completed exact-range reads.
    pub fn received_read_bytes(self) -> (n: usize)
        ensures
            n == self.received_read_bytes,
    {
        self.received_read_bytes
    }

    /// Returns completed HEAD effects.
    pub fn heads(self) -> (n: usize)
        ensures
            n == self.heads,
    {
        self.heads
    }

    /// Returns completed limited-footer effects.
    pub fn footers(self) -> (n: usize)
        ensures
            n == self.footers,
    {
        self.footers
    }

    /// Counts a listing page, all or nothing.
    pub fn with_listing(self, descriptors: usize) -> (r: Result<IoUsage, OperationFailure>)
        ensures
            IoUsage::or_malformed(self.plus_listing(descriptors), r),
    {
        let listing_pages: usize = checked_sum(self.listing_pages, 1)?;
        let descriptors: usize = checked_sum(self.descriptors, descriptors)?;
        Ok(IoUsage { listing_pages, descriptors, ..self })
    }

    /// Counts a read, all or nothing.
    pub fn with_read(self, bytes: usize) -> (r: Result<IoUsage, OperationFailure>)
        ensures
            IoUsage::or_malformed(self.plus_read(bytes), r),
    {
        let read_requests: usize = checked_sum(self.read_requests, 1)?;
        let requested_read_bytes: usize = checked_sum(self.requested_read_bytes, bytes)?;
        let received_read_bytes: usize = checked_sum(self.received_read_bytes, bytes)?;
        Ok(IoUsage { read_requests, requested_read_bytes, received_read_bytes, ..self })
    }

    /// Counts a HEAD.
    pub fn with_head(self) -> (r: Result<IoUsage, OperationFailure>)
        ensures
            IoUsage::or_malformed(self.plus_head(), r),
    {
        let heads: usize = checked_sum(self.heads, 1)?;
        Ok(IoUsage { heads, ..self })
    }

    /// Counts a footer.
    pub fn with_footer(self) -> (r: Result<IoUsage, OperationFailure>)
        ensures
            IoUsage::or_malformed(self.plus_footer(), r),
    {
        let footers: usize = checked_sum(self.footers, 1)?;
        Ok(IoUsage { footers, ..self })
    }
}

/// The bytes of an optional identity.
pub open spec fn optional_value(identity: Option<ObjectIdentity>) -> Option<Seq<u8>> {
    match identity {
        Some(identity) => Some(identity.value()),
        None => None,
    }
}

/// Explicit producer-admitted storage boundary for operation tasks.
///
/// Implementations admit discovery, destination, decoder and retained-result allocations before
/// performing them. Listing pulls at most `entries` items and returns the last path only for a full
/// page. Reads and footers compare `expected_identity` before allocating their result. This trait
/// is deliberately separate from ordinary unbounded storage and Parquet handlers.
pub trait AdmittedIoSource {
    /// `r` is what `list` may give of this source, with `later` behind it. A source that says
    /// nothing here, or of its other effects, may give anything.
    open spec fn lists(
        &self,
        later: &Self,
        root: Seq<char>,
        continuation: Option<Seq<char>>,
        entries: usize,
        descriptor_bytes: usize,
        continuation_bytes: usize,
        r: Result<AdmittedListingPage, OperationFailure>,
    ) -> bool {
        true
    }

    /// `r` is what `read_exact` may give of this source.
    open spec fn reads(
        &self,
        later: &Self,
        path: Seq<char>,
        expected: Option<Seq<u8>>,
        offset: u64,
        length: usize,
        r: Result<AdmittedRead, OperationFailure>,
    ) -> bool {
        true
    }

    /// `r` is what `head` may give of this source.
    open spec fn observes(
        &self,
        later: &Self,
        path: Seq<char>,
        r: Result<AdmittedHead, OperationFailure>,
    ) -> bool {
        true
    }

    /// `r` is what `footer` may give of this source.
    open spec fn decodes(
        &self,
        later: &Self,
        path: Seq<char>,
        expected: Seq<u8>,
        size: u64,
        limits: FooterLimits,
        r: Result<AdmittedFooter, OperationFailure>,
    ) -> bool {
        true
    }

    /// Produces one admitted, sorted listing page without lookahead.
    fn list(
        &mut self,
        root: &str,
        continuation: Option<&str>,
        entries: usize,
        descriptor_bytes: usize,
        continuation_bytes: usize,
    ) -> (r: Result<AdmittedListingPage, OperationFailure>)
        ensures
            old(self).lists(
                final(self),
                root@,
                match continuation {
                    Some(text) => Some(text@),
                    None => None,
                },
                entries,
                descriptor_bytes,
                continuation_bytes,
                r,
            ),
    ;

    /// Reads one exact range after checking any previously observed object identity.
    fn read_exact(
        &mut self,
        path: &str,
        expected_identity: Option<ObjectIdentity>,
        offset: u64,
        length: usize,
    ) -> (r: Result<AdmittedRead, OperationFailure>)
        ensures
            old(self).reads(
                final(self),
                path@,
                optional_value(expected_identity),
                offset,
                length,
                r,
            ),
    ;

    /// Observes one object's identity and size together.
    fn head(&mut self, path: &str) -> (r: Result<AdmittedHead, OperationFailure>)
        ensures
            old(self).observes(final(self), path@, r),
    ;

    /// Decodes one footer with the injected limited reader after checking object identity.
    fn footer(
        &mut self,
        path: &str,
        expected_identity: ObjectIdentity,
        size: u64,
        limits: FooterLimits,
    ) -> (r: Result<AdmittedFooter, OperationFailure>)
        ensures
            old(self).decodes(final(self), path@, expected_identity.value(), size, limits, r),
    ;

    /// Releases provider iterators, buffers, decoder state and cancellation mechanisms.
    fn cancel(&mut self) {
    }
}

impl AdmittedIoSource for () {
    fn list(
        &mut self,
        root: &str,
        continuation: Option<&str>,
        entries: usize,
        descriptor_bytes: usize,
        continuation_bytes: usize,
    ) -> (r: Result<AdmittedListingPage, OperationFailure>)
        ensures
            r matches Err(failure) && failure.is_terminal(FailureKind::MalformedResponse),
    {
        Err(OperationFailure::malformed_response())
    }

    fn read_exact(
        &mut self,
        path: &str,
        expected_identity: Option<ObjectIdentity>,
        offset: u64,
        length: usize,
    ) -> (r: Result<AdmittedRead, OperationFailure>)
        ensures
            r matches Err(failure) && failure.is_terminal(FailureKind::MalformedResponse),
    {
        Err(OperationFailure::malformed_response())
    }

    fn head(&mut self, path: &str) -> (r: Result<AdmittedHead, OperationFailure>)
        ensures
            r matches Err(failure) && failure.is_terminal(FailureKind::MalformedResponse),
    {
        Err(OperationFailure::malformed_response())
    }

    fn footer(
        &mut self,
        path: &str,
        expected_identity: ObjectIdentity,
        size: u64,
        limits: FooterLimits,
    ) -> (r: Result<AdmittedFooter, OperationFailure>)
        ensures
            r matches Err(failure) && failure.is_terminal(FailureKind::MalformedResponse),
    {
        Err(OperationFailure::malformed_response())
    }
}

/// What was observed of an object: nothing here changes until the driver lets go of its source.
#[verifier::ext_equal]
pub struct BindingView {
    /// The object's path.
    pub path: Seq<u8>,
    /// The identity under which it was first observed.
    pub identity: Seq<u8>,
    /// Its size, once observed.
    pub size: Option<u64>,
    /// Whether a HEAD observed it.
    pub head_observed: bool,
}

/// The bounded table of observed objects.
#[verifier::ext_equal]
pub struct BindingsView {
    /// The objects, in the order of their first observation.
    pub entries: Seq<BindingView>,
    /// The bytes charged to the table.
    pub retained_bytes: int,
    /// The entries that the table has room for.
    pub slots: int,
    /// The most bytes of the table.
    pub byte_limit: usize,
    /// The most entries of the table.
    pub entry_limit: usize,
}

/// The place of a path among the objects, or their number.
pub open spec fn place(entries: Seq<BindingView>, path: Seq<u8>) -> int
    decreases entries.len(),
{
    if entries.len() == 0 {
        0
    } else if entries[0].path == path {
        0
    } else {
        1 + place(entries.drop_first(), path)
    }
}

proof fn place_is_first(entries: Seq<BindingView>, path: Seq<u8>, i: int)
    requires
        0 <= i <= entries.len(),
        forall|j: int| 0 <= j < i ==> (#[trigger] entries[j]).path != path,
        i < entries.len() ==> entries[i].path == path,
    ensures
        place(entries, path) == i,
    decreases entries.len(),
{
    if entries.len() > 0 && i > 0 {
        assert(entries[0].path != path);
        let rest = entries.drop_first();
        assert forall|j: int| 0 <= j < i - 1 implies (#[trigger] rest[j]).path != path by {
            assert(rest[j] == entries[j + 1]);
        }
        place_is_first(rest, path, i - 1);
    }
}

proof fn place_bounds(entries: Seq<BindingView>, path: Seq<u8>)
    ensures
        0 <= place(entries, path) <= entries.len(),
        place(entries, path) < entries.len() ==> entries[place(entries, path)].path == path,
    decreases entries.len(),
{
    if entries.len() > 0 && entries[0].path != path {
        place_bounds(entries.drop_first(), path);
    }
}

impl BindingsView {
    /// What was observed of a path.
    pub open spec fn at(self, path: Seq<u8>) -> Option<BindingView> {
        if place(self.entries, path) < self.entries.len() {
            Some(self.entries[place(self.entries, path)])
        } else {
            None
        }
    }

    /// Whether the table can take a path whose text has `capacity` bytes.
    pub open spec fn room(self, path: Seq<u8>, capacity: usize) -> Result<(), ResourceExhausted> {
        if self.at(path) is Some {
            Ok(())
        } else if self.entries.len() >= self.entry_limit {
            Err(
                ResourceExhausted {
                    resource: Resource::Requests,
                    limit: self.entry_limit,
                    observed: saturated(self.entries.len() as int + 1),
                },
            )
        } else if self.entries.len() == self.slots {
            Err(
                ResourceExhausted {
                    resource: Resource::TaskStateBytes,
                    limit: self.byte_limit,
                    observed: saturated(self.byte_limit + 1),
                },
            )
        } else if saturated(self.retained_bytes + capacity) > self.byte_limit {
            Err(
                ResourceExhausted {
                    resource: Resource::TaskStateBytes,
                    limit: self.byte_limit,
                    observed: saturated(self.retained_bytes + capacity),
                },
            )
        } else {
            Ok(())
        }
    }

    /// The table after an observation of an object: a new object is added, and a known one must
    /// be the same object.
    pub open spec fn bound(
        self,
        path: Seq<u8>,
        capacity: usize,
        identity: Seq<u8>,
        size: Option<u64>,
        head_observed: bool,
    ) -> Result<BindingsView, FailureKind> {
        match self.at(path) {
            Some(known) => if known.identity != identity || (known.size is Some && size is Some
                && known.size != size) {
                Err(FailureKind::MalformedResponse)
            } else {
                Ok(
                    BindingsView {
                        entries: self.entries.update(
                            place(self.entries, path),
                            BindingView {
                                size: if known.size is Some { known.size } else { size },
                                head_observed: known.head_observed || head_observed,
                                ..known
                            },
                        ),
                        ..self
                    },
                )
            },
            None => match self.room(path, capacity) {
                Err(error) => Err(FailureKind::ResourceExhausted(error)),
                Ok(()) => if self.retained_bytes + capacity > usize::MAX {
                    Err(FailureKind::MalformedResponse)
                } else {
                    Ok(
                        BindingsView {
                            entries: self.entries.push(
                                BindingView { path, identity, size, head_observed },
                            ),
                            retained_bytes: self.retained_bytes + capacity,
                            ..self
                        },
                    )
                },
            },
        }
    }
}

/// The value, or the largest that can be represented.
pub open spec fn saturated(n: int) -> usize {
    if n > usize::MAX {
        usize::MAX
    } else {
        n as usize
    }
}

/// What was observed of one object.
pub struct ObjectBinding {
    path: String,
    identity: ObjectIdentity,
    size: Option<u64>,
    head_observed: bool,
}

impl View for ObjectBinding {
    type V = BindingView;

    closed spec fn view(&self) -> BindingView {
        BindingView {
            path: utf8(self.path@),
            identity: self.identity.value(),
            size: self.size,
            head_observed: self.head_observed,
        }
    }
}

impl ObjectBinding {
    /// Returns the identity under which the object was first observed.
    pub fn identity(&self) -> (identity: ObjectIdentity)
        ensures
            identity.value() == self@.identity,
    {
        self.identity
    }

    /// Returns the size, once observed.
    pub fn size(&self) -> (size: Option<u64>)
        ensures
            size == self@.size,
    {
        self.size
    }

    /// Returns whether a HEAD observed the object.
    pub fn head_observed(&self) -> (observed: bool)
        ensures
            observed == self@.head_observed,
    {
        self.head_observed
    }
}

/// The bounded table of observed objects. Its storage is reserved once.
pub struct ObjectBindings {
    entries: Vec<ObjectBinding>,
    slots: usize,
    retained_bytes: usize,
    byte_limit: usize,
    entry_limit: usize,
}

impl View for ObjectBindings {
    type V = BindingsView;

    closed spec fn view(&self) -> BindingsView {
        BindingsView {
            entries: Seq::new(self.entries@.len(), |i: int| self.entries@[i]@),
            retained_bytes: self.retained_bytes as int,
            slots: self.slots as int,
            byte_limit: self.byte_limit,
            entry_limit: self.entry_limit,
        }
    }
}

impl ObjectBindings {
    /// The bytes of one entry, where a size of nothing counts as one.
    pub open spec fn entry_width() -> int {
        if vstd::layout::size_of::<ObjectBinding>() > 1 {
            vstd::layout::size_of::<ObjectBinding>() as int
        } else {
            1
        }
    }

    /// The entries that the allowances leave room for.
    pub open spec fn room_for(limits: TaskLimits) -> int {
        let fit = limits.allowance(Resource::TaskStateBytes) as int
            / ObjectBindings::entry_width();
        if limits.allowance(Resource::Requests) <= fit {
            limits.allowance(Resource::Requests) as int
        } else {
            fit
        }
    }

    /// The empty table with so many slots, where the allowances leave room for them.
    pub open spec fn reserved(limits: TaskLimits, slots: usize) -> Option<BindingsView> {
        let bytes = slots * vstd::layout::size_of::<ObjectBinding>();
        if slots > ObjectBindings::room_for(limits) || bytes > limits.allowance(
            Resource::TaskStateBytes,
        ) {
            None
        } else {
            Some(
                BindingsView {
                    entries: Seq::empty(),
                    retained_bytes: bytes,
                    slots: slots as int,
                    byte_limit: limits.allowance(Resource::TaskStateBytes),
                    entry_limit: limits.allowance(Resource::Requests),
                },
            )
        }
    }

    /// `r` is the table of a reservation, as it was granted and measured.
    pub open spec fn opened(
        limits: TaskLimits,
        granted: bool,
        slots: usize,
        r: Result<ObjectBindings, TaskProtocolError>,
    ) -> bool {
        match ObjectBindings::reserved(limits, slots) {
            Some(table) if granted => r matches Ok(bindings) && bindings@ == table,
            _ => r == Err::<ObjectBindings, TaskProtocolError>(TaskProtocolError::InvalidLimits),
        }
    }

    /// Returns the slots that the request-count and task-state allowances leave room for.
    pub fn room(limits: TaskLimits) -> (n: usize)
        ensures
            n == ObjectBindings::room_for(limits),
    {
        let entry_limit: usize = limits.limit(Resource::Requests);
        let width: usize = if core::mem::size_of::<ObjectBinding>() > 1 {
            core::mem::size_of::<ObjectBinding>()
        } else {
            1
        };
        let fit: usize = limits.limit(Resource::TaskStateBytes) / width;
        if entry_limit <= fit {
            entry_limit
        } else {
            fit
        }
    }

    /// Reserves the table that the request-count and task-state allowances leave room for.
    ///
    /// An allocator that refuses or overshoots the reservation makes the limits invalid.
    pub fn new(limits: TaskLimits) -> (r: Result<ObjectBindings, TaskProtocolError>)
        ensures
            exists|granted: bool, slots: usize| #[trigger]
                ObjectBindings::opened(limits, granted, slots, r),
    {
        let mut entries: Vec<ObjectBinding> = Vec::new();
        if reserve_exact(&mut entries, ObjectBindings::room(limits)).is_err() {
            let r = Err(TaskProtocolError::InvalidLimits);
            assert(ObjectBindings::opened(limits, false, 0, r));
            return r;
        }
        let slots: usize = vec_capacity(&entries);
        let r = ObjectBindings::with_slots(entries, slots, limits);
        assert(ObjectBindings::opened(limits, true, slots, r));
        r
    }

    /// Makes the table of an empty list with so many slots.
    pub fn with_slots(entries: Vec<ObjectBinding>, slots: usize, limits: TaskLimits) -> (r: Result<
        ObjectBindings,
        TaskProtocolError,
    >)
        requires
            entries@.len() == 0,
        ensures
            ObjectBindings::opened(limits, true, slots, r),
    {
        let byte_limit: usize = limits.limit(Resource::TaskStateBytes);
        let entry_limit: usize = limits.limit(Resource::Requests);
        let retained_bytes: usize = match slots.checked_mul(core::mem::size_of::<ObjectBinding>()) {
            Some(bytes) => bytes,
            None => return Err(TaskProtocolError::InvalidLimits),
        };
        if slots > ObjectBindings::room(limits) || retained_bytes > byte_limit {
            return Err(TaskProtocolError::InvalidLimits);
        }
        let bindings = ObjectBindings { entries, slots, retained_bytes, byte_limit, entry_limit };
        assert(bindings@.entries =~= Seq::<BindingView>::empty());
        Ok(bindings)
    }

    fn find(&self, path: &str) -> (r: Option<usize>)
        ensures
            r matches Some(i) ==> i == place(self@.entries, utf8(path@)) && i < self@.entries.len()
                && i < self.entries@.len(),
            r is None ==> place(self@.entries, utf8(path@)) == self@.entries.len(),
    {
        let mut i: usize = 0;
        while i < self.entries.len()
            invariant
                i <= self.entries@.len(),
                forall|j: int| 0 <= j < i ==> (#[trigger] self@.entries[j]).path != utf8(path@),
            decreases self.entries@.len() - i,
        {
            if same_text(self.entries[i].path.as_str(), path) {
                proof {
                    assert(self@.entries[i as int].path == utf8(path@));
                    place_is_first(self@.entries, utf8(path@), i as int);
                }
                return Some(i);
            }
            assert(self@.entries[i as int].path != utf8(path@));
            i += 1;
        }
        proof {
            place_is_first(self@.entries, utf8(path@), i as int);
        }
        None
    }

    /// Looks up what was observed of a path.
    pub fn get(&self, path: &str) -> (r: Option<&ObjectBinding>)
        ensures
            match self@.at(utf8(path@)) {
                Some(known) => r matches Some(binding) && binding@ == known,
                None => r is None,
            },
    {
        match self.find(path) {
            Some(i) => Some(&self.entries[i]),
            None => None,
        }
    }

    /// Checks whether the table can take a path whose text has `capacity` bytes.
    pub fn admit_new(&self, path: &str, capacity: usize) -> (r: Result<(), OperationFailure>)
        ensures
            match self@.room(utf8(path@), capacity) {
                Ok(()) => r is Ok,
                Err(error) => r matches Err(failure) && failure.is_terminal(
                    FailureKind::ResourceExhausted(error),
                ),
            },
    {
        if self.get(path).is_some() {
            return Ok(());
        }
        if self.entries.len() >= self.entry_limit {
            return Err(
                OperationFailure::exhausted(
                    ResourceExhausted {
                        resource: Resource::Requests,
                        limit: self.entry_limit,
                        observed: self.entries.len().saturating_add(1),
                    },
                ),
            );
        }
        if self.entries.len() == self.slots {
            return Err(
                OperationFailure::exhausted(
                    ResourceExhausted {
                        resource: Resource::TaskStateBytes,
                        limit: self.byte_limit,
                        observed: self.byte_limit.saturating_add(1),
                    },
                ),
            );
        }
        let observed: usize = self.retained_bytes.saturating_add(capacity);
        if observed > self.byte_limit {
            return Err(
                OperationFailure::exhausted(
                    ResourceExhausted {
                        resource: Resource::TaskStateBytes,
                        limit: self.byte_limit,
                        observed,
                    },
                ),
            );
        }
        Ok(())
    }

    /// Records an observation of an object whose path's text has `capacity` bytes.
    pub fn bind(
        &mut self,
        path: String,
        capacity: usize,
        identity: ObjectIdentity,
        size: Option<u64>,
        head_observed: bool,
    ) -> (r: Result<(), OperationFailure>)
        ensures
            match old(self)@.bound(utf8(path@), capacity, identity.value(), size, head_observed) {
                Ok(bindings) => r is Ok && final(self)@ == bindings,
                Err(kind) => (r matches Err(failure) && failure.is_terminal(kind)) && final(self)@
                    == old(self)@,
            },
    {
        let ghost before = self@;
        if let Some(i) = self.find(path.as_str()) {
            let known = &self.entries[i];
            let differs = match (known.size, size) {
                (Some(expected), Some(actual)) => expected != actual,
                _ => false,
            };
            assert(known@ == before.entries[i as int]);
            if !known.identity.same(&identity) || differs {
                return Err(OperationFailure::malformed_response());
            }
            let ghost kept = self.entries@;
            let binding = &mut self.entries[i];
            if binding.size.is_none() {
                binding.size = size;
            }
            if head_observed {
                binding.head_observed = true;
            }
            assert(self@.entries =~= before.bound(
                utf8(path@),
                capacity,
                identity.value(),
                size,
                head_observed,
            )->Ok_0.entries);
            return Ok(());
        }
        if let Err(failure) = self.admit_new(path.as_str(), capacity) {
            return Err(failure);
        }
        self.retained_bytes = match self.retained_bytes.checked_add(capacity) {
            Some(bytes) => bytes,
            None => return Err(OperationFailure::malformed_response()),
        };
        self.entries.push(ObjectBinding { path, identity, size, head_observed });
        assert(self@.entries =~= before.entries.push(
            BindingView {
                path: utf8(path@),
                identity: identity.value(),
                size,
                head_observed,
            },
        ));
        Ok(())
    }
}

/// A table that is within its limits stays within them: it never holds more objects than it may, nor
/// more bytes, and no path occurs twice.
pub proof fn bindings_stay_within_limits(
    before: BindingsView,
    path: Seq<u8>,
    capacity: usize,
    identity: Seq<u8>,
    size: Option<u64>,
    head_observed: bool,
)
    requires
        before.entries.len() <= before.entry_limit,
        before.retained_bytes <= before.byte_limit,
        forall|i: int, j: int|
            0 <= i < j < before.entries.len() ==> (#[trigger] before.entries[i]).path != (
            #[trigger] before.entries[j]).path,
        before.bound(path, capacity, identity, size, head_observed) is Ok,
    ensures
        ({
            let after = before.bound(path, capacity, identity, size, head_observed)->Ok_0;
            &&& after.entry_limit == before.entry_limit
            &&& after.byte_limit == before.byte_limit
            &&& after.entries.len() <= after.entry_limit
            &&& after.retained_bytes <= after.byte_limit
            &&& forall|i: int, j: int|
                0 <= i < j < after.entries.len() ==> (#[trigger] after.entries[i]).path != (
                #[trigger] after.entries[j]).path
        }),
{
    let after = before.bound(path, capacity, identity, size, head_observed)->Ok_0;
    place_bounds(before.entries, path);
    places_before(before.entries, path);
    assert forall|i: int, j: int| 0 <= i < j < after.entries.len() implies (
    #[trigger] after.entries[i]).path != (#[trigger] after.entries[j]).path by {
        assert(i < before.entries.len() ==> after.entries[i].path == before.entries[i].path);
        assert(j < before.entries.len() ==> after.entries[j].path == before.entries[j].path);
    }
}

/// Whatever is observed later, an object that the table holds keeps its path and its identity,
/// and a size that was observed stays.
pub proof fn bindings_keep_identities(
    before: BindingsView,
    path: Seq<u8>,
    capacity: usize,
    identity: Seq<u8>,
    size: Option<u64>,
    head_observed: bool,
    other: Seq<u8>,
)
    requires
        before.bound(path, capacity, identity, size, head_observed) is Ok,
        before.at(other) is Some,
    ensures
        ({
            let after = before.bound(path, capacity, identity, size, head_observed)->Ok_0;
            &&& after.at(other) is Some
            &&& after.at(other)->0.identity == before.at(other)->0.identity
            &&& before.at(other)->0.size is Some ==> after.at(other)->0.size
                == before.at(other)->0.size
            &&& before.at(other)->0.head_observed ==> after.at(other)->0.head_observed
        }),
{
    let after = before.bound(path, capacity, identity, size, head_observed)->Ok_0;
    let i = place(before.entries, other);
    place_bounds(before.entries, other);
    place_bounds(before.entries, path);
    places_before(before.entries, other);
    assert forall|j: int| 0 <= j < i implies (#[trigger] after.entries[j]).path != other by {
        assert(before.entries[j].path != other);
        assert(after.entries[j].path == before.entries[j].path);
    }
    assert(after.entries[i].path == before.entries[i].path);
    place_is_first(after.entries, other, i);
}

proof fn places_before(entries: Seq<BindingView>, path: Seq<u8>)
    ensures
        forall|j: int| 0 <= j < place(entries, path) && j < entries.len() ==> (
        #[trigger] entries[j]).path != path,
    decreases entries.len(),
{
    if entries.len() > 0 && entries[0].path != path {
        let rest = entries.drop_first();
        places_before(rest, path);
        assert forall|j: int| 0 <= j < place(entries, path) && j < entries.len() implies (
        #[trigger] entries[j]).path != path by {
            if j > 0 {
                assert(rest[j - 1] == entries[j]);
            }
        }
    }
}

/// The capacities behind a listing page, as they were measured.
pub struct ListingCapacities {
    /// The slots of the container.
    pub files: usize,
    /// The bytes behind each path.
    pub paths: Vec<usize>,
    /// The bytes behind the continuation.
    pub continuation: usize,
    /// The bytes behind its retained copy.
    pub binding: usize,
}

/// The sum of the first `n` amounts.
pub open spec fn total(amounts: Seq<usize>, n: nat) -> nat
    decreases n,
{
    if n == 0 {
        0
    } else {
        total(amounts, (n - 1) as nat) + amounts[n - 1] as nat
    }
}


/// The bytes of an optional text.
pub open spec fn optional_utf8(text: Option<Seq<char>>) -> Option<Seq<u8>> {
    match text {
        Some(text) => Some(utf8(text)),
        None => None,
    }
}

/// The view of an optional text.
pub open spec fn optional_view(text: Option<String>) -> Option<Seq<char>> {
    match text {
        Some(text) => Some(text@),
        None => None,
    }
}

/// The path bytes of a listing.
pub open spec fn listed_paths(files: Seq<FileDescriptor>) -> Seq<Seq<u8>> {
    Seq::new(files.len(), |i: int| utf8(files[i].path@))
}

/// The path at `i` lies under the root and comes after the one before it.
pub open spec fn path_follows(
    paths: Seq<Seq<u8>>,
    root: Seq<u8>,
    after: Option<Seq<u8>>,
    i: int,
) -> bool {
    &&& begins(paths[i], root)
    &&& if i == 0 {
        after matches Some(after) ==> precedes(after, paths[0])
    } else {
        precedes(paths[i - 1], paths[i])
    }
}

/// Every path lies under the root, and the paths ascend from `after` on.
pub open spec fn paths_ascend(paths: Seq<Seq<u8>>, root: Seq<u8>, after: Option<Seq<u8>>) -> bool {
    forall|i: int| 0 <= i < paths.len() ==> #[trigger] path_follows(paths, root, after, i)
}

/// The continuation that a page must carry: the last path of a full page.
pub open spec fn page_continuation(paths: Seq<Seq<u8>>, entries: usize) -> Option<Seq<u8>> {
    if paths.len() == entries && paths.len() > 0 {
        Some(paths.last())
    } else {
        None
    }
}

/// A page that answers a listing request.
pub open spec fn listing_valid(
    root: Seq<u8>,
    after: Option<Seq<u8>>,
    entries: usize,
    descriptor_bytes: usize,
    continuation_bytes: usize,
    page: AdmittedListingPage,
    capacities: ListingCapacities,
) -> bool {
    let paths = listed_paths(page.files@);
    &&& page.files@.len() <= entries
    &&& capacities.files * vstd::layout::size_of::<FileDescriptor>() + total(
        capacities.paths@,
        page.files@.len(),
    ) <= descriptor_bytes
    &&& page.continuation is Some ==> capacities.continuation <= continuation_bytes
    &&& page.binding is Some ==> capacities.binding <= continuation_bytes
    &&& paths_ascend(paths, root, after)
    &&& optional_utf8(optional_view(page.continuation)) == page_continuation(paths, entries)
    &&& optional_utf8(optional_view(page.binding)) == page_continuation(paths, entries)
}

/// The capacities belong to the page: none is below what it holds.
pub open spec fn capacities_cover(page: AdmittedListingPage, capacities: ListingCapacities) -> bool {
    &&& capacities.files >= page.files@.len()
    &&& capacities.paths@.len() == page.files@.len()
    &&& forall|i: int|
        0 <= i < page.files@.len() ==> #[trigger] capacities.paths@[i] >= utf8(
            page.files@[i].path@,
        ).len()
    &&& page.continuation matches Some(text) ==> capacities.continuation >= utf8(text@).len()
    &&& page.binding matches Some(text) ==> capacities.binding >= utf8(text@).len()
}

/// Measures the storage behind a page.
pub fn measure_listing(page: &AdmittedListingPage) -> (capacities: ListingCapacities)
    ensures
        capacities_cover(*page, capacities),
{
    let mut paths: Vec<usize> = Vec::new();
    let mut i: usize = 0;
    while i < page.files.len()
        invariant
            i <= page.files@.len(),
            paths@.len() == i,
            forall|j: int| 0 <= j < i ==> #[trigger] paths@[j] >= utf8(page.files@[j].path@).len(),
        decreases page.files@.len() - i,
    {
        let bytes: usize = text_capacity(&page.files[i].path);
        paths.push(bytes);
        i += 1;
    }
    ListingCapacities {
        files: vec_capacity(&page.files),
        paths,
        continuation: optional_text_capacity(&page.continuation),
        binding: optional_text_capacity(&page.binding),
    }
}

/// Compares an optional text with expected bytes.
fn same_optional(text: &Option<String>, expected: Option<&str>) -> (r: bool)
    ensures
        r == (optional_utf8(optional_view(*text)) == (match expected {
            Some(e) => Some(utf8(e@)),
            None => None,
        })),
{
    match (text, expected) {
        (Some(text), Some(expected)) => same_text(text.as_str(), expected),
        (None, None) => true,
        _ => false,
    }
}

/// Validates a listing page against the request that it answers: its size, its storage, the order
/// and confinement of its paths, and its continuation.
pub fn validate_listing(
    root: &str,
    after: Option<&str>,
    entries: usize,
    descriptor_bytes: usize,
    continuation_bytes: usize,
    page: &AdmittedListingPage,
    capacities: &ListingCapacities,
) -> (r: Result<(), OperationFailure>)
    requires
        capacities.paths@.len() == page.files@.len(),
    ensures
        r is Ok == listing_valid(
            utf8(root@),
            match after {
                Some(after) => Some(utf8(after@)),
                None => None,
            },
            entries,
            descriptor_bytes,
            continuation_bytes,
            *page,
            *capacities,
        ),
        r matches Err(failure) ==> failure.is_terminal(FailureKind::MalformedResponse),
{
    let ghost start = match after {
        Some(after) => Some(utf8(after@)),
        None => None::<Seq<u8>>,
    };
    let ghost paths = listed_paths(page.files@);
    if page.files.len() > entries {
        return Err(OperationFailure::malformed_response());
    }
    let mut retained = CheckedUsize::new(capacities.files).mul_value(
        core::mem::size_of::<FileDescriptor>(),
    );
    let mut i: usize = 0;
    while i < page.files.len()
        invariant
            i <= page.files@.len(),
            capacities.paths@.len() == page.files@.len(),
            retained@ == capacities.files * vstd::layout::size_of::<FileDescriptor>() + total(
                capacities.paths@,
                i as nat,
            ),
        decreases page.files@.len() - i,
    {
        retained = retained.add_value(capacities.paths[i]);
        i += 1;
    }
    let fits = match retained.to_option() {
        Some(bytes) => bytes <= descriptor_bytes,
        None => false,
    };
    if !fits || (page.continuation.is_some() && capacities.continuation > continuation_bytes) || (
    page.binding.is_some() && capacities.binding > continuation_bytes) {
        return Err(OperationFailure::malformed_response());
    }
    let mut previous = after;
    let mut i: usize = 0;
    while i < page.files.len()
        invariant
            i <= page.files@.len(),
            paths == listed_paths(page.files@),
            start == (match after {
                Some(after) => Some(utf8(after@)),
                None => None::<Seq<u8>>,
            }),
            i == 0 ==> previous == after,
            i > 0 ==> (previous matches Some(p) && utf8(p@) == paths[i - 1]),
            forall|j: int| 0 <= j < i ==> #[trigger] path_follows(paths, utf8(root@), start, j),
        decreases page.files@.len() - i,
    {
        let path = page.files[i].path.as_str();
        assert(utf8(path@) == paths[i as int]);
        let ordered = match previous {
            Some(previous) => text_precedes(previous, path),
            None => true,
        };
        if !begins_with(path, root) || !ordered {
            assert(!path_follows(paths, utf8(root@), start, i as int));
            return Err(OperationFailure::malformed_response());
        }
        assert(path_follows(paths, utf8(root@), start, i as int));
        previous = Some(path);
        i += 1;
    }
    let expected = if page.files.len() == entries && page.files.len() > 0 {
        Some(page.files[page.files.len() - 1].path.as_str())
    } else {
        None
    };
    if !same_optional(&page.continuation, expected) || !same_optional(&page.binding, expected) {
        return Err(OperationFailure::malformed_response());
    }
    Ok(())
}

/// An accepted page is sorted as a whole: no path occurs twice, and each lies under the root and
/// after the cursor that was asked for.
pub proof fn accepted_listings_are_sorted(
    paths: Seq<Seq<u8>>,
    root: Seq<u8>,
    after: Option<Seq<u8>>,
    i: int,
    j: int,
)
    requires
        paths_ascend(paths, root, after),
        0 <= i < j < paths.len(),
    ensures
        precedes(paths[i], paths[j]),
        begins(paths[i], root),
        begins(paths[j], root),
        after matches Some(after) ==> precedes(after, paths[j]),
    decreases j,
{
    assert(path_follows(paths, root, after, j));
    assert(path_follows(paths, root, after, i));
    if i + 1 < j {
        accepted_listings_are_sorted(paths, root, after, i, j - 1);
        order_is_transitive(paths[i], paths[j - 1], paths[j]);
    }
    if let Some(start) = after {
        cursor_precedes(paths, root, start, j);
    }
}

/// Each path of an accepted page lies under the root and behind the cursor that was asked for.
pub proof fn accepted_paths_follow(
    paths: Seq<Seq<u8>>,
    root: Seq<u8>,
    after: Option<Seq<u8>>,
    i: int,
)
    requires
        paths_ascend(paths, root, after),
        0 <= i < paths.len(),
    ensures
        begins(paths[i], root),
        after matches Some(after) ==> precedes(after, paths[i]),
{
    assert(path_follows(paths, root, after, i));
    if let Some(start) = after {
        cursor_precedes(paths, root, start, i);
    }
}

proof fn cursor_precedes(paths: Seq<Seq<u8>>, root: Seq<u8>, after: Seq<u8>, j: int)
    requires
        paths_ascend(paths, root, Some(after)),
        0 <= j < paths.len(),
    ensures
        precedes(after, paths[j]),
    decreases j,
{
    assert(path_follows(paths, root, Some(after), j));
    if j > 0 {
        cursor_precedes(paths, root, after, j - 1);
        order_is_transitive(after, paths[j - 1], paths[j]);
    }
}

/// What is known of a path is what an entry of the table says of it, and nothing is known of a path
/// that no entry has.
pub proof fn lookups_find_their_entries(table: BindingsView, path: Seq<u8>)
    ensures
        table.at(path) matches Some(known) ==> known.path == path && table.entries.contains(known),
        table.at(path) is None ==> forall|i: int|
            0 <= i < table.entries.len() ==> (#[trigger] table.entries[i]).path != path,
{
    place_bounds(table.entries, path);
    places_before(table.entries, path);
}

/// An observation is recorded as it was made: the object keeps the identity that was observed, a size
/// that was observed first stays, and a HEAD is remembered. Nothing else that the table knows
/// changes.
pub proof fn observations_are_recorded(
    before: BindingsView,
    path: Seq<u8>,
    capacity: usize,
    identity: Seq<u8>,
    size: Option<u64>,
    head_observed: bool,
    other: Seq<u8>,
)
    ensures
        before.bound(path, capacity, identity, size, head_observed) matches Ok(after) ==> {
            &&& after.at(path) matches Some(known)
            &&& known.path == path
            &&& known.identity == identity
            &&& match before.at(path) {
                Some(earlier) => {
                    &&& earlier.identity == identity
                    &&& earlier.size is Some ==> known.size == earlier.size
                    &&& earlier.size is Some && size is Some ==> earlier.size == size
                    &&& earlier.size is None ==> known.size == size
                    &&& known.head_observed == (earlier.head_observed || head_observed)
                    &&& after.entries.len() == before.entries.len()
                    &&& after.retained_bytes == before.retained_bytes
                },
                None => {
                    &&& known.size == size
                    &&& known.head_observed == head_observed
                    &&& after.entries.len() == before.entries.len() + 1
                    &&& after.retained_bytes == before.retained_bytes + capacity
                },
            }
            &&& other != path ==> after.at(other) == before.at(other)
            &&& after.slots == before.slots
            &&& after.byte_limit == before.byte_limit
            &&& after.entry_limit == before.entry_limit
        },
{
    if let Ok(after) = before.bound(path, capacity, identity, size, head_observed) {
        place_bounds(before.entries, path);
        places_before(before.entries, path);
        let i = place(before.entries, path);
        assert forall|j: int| 0 <= j < i implies (#[trigger] after.entries[j]).path != path by {
            assert(before.entries[j].path != path);
        }
        place_is_first(after.entries, path, i);
        if other != path {
            place_bounds(before.entries, other);
            places_before(before.entries, other);
            let k = place(before.entries, other);
            let n = if k < before.entries.len() {
                k
            } else {
                after.entries.len() as int
            };
            assert forall|j: int| 0 <= j < n implies (#[trigger] after.entries[j]).path != other by {
                if j < before.entries.len() {
                    assert(before.entries[j].path != other);
                }
            }
            place_is_first(after.entries, other, n);
        }
    }
}

/// An observation is refused for nothing but what stands against it: a known object must show its
/// identity and its size again, and a new one needs a slot, an entry and its bytes.
pub proof fn consistent_observations_are_recorded(
    before: BindingsView,
    path: Seq<u8>,
    capacity: usize,
    identity: Seq<u8>,
    size: Option<u64>,
    head_observed: bool,
)
    requires
        0 <= before.retained_bytes,
    ensures
        before.bound(path, capacity, identity, size, head_observed) is Ok <==> match before.at(path) {
            Some(known) => known.identity == identity && (known.size is None || size is None
                || known.size == size),
            None => {
                &&& before.entries.len() < before.entry_limit
                &&& before.entries.len() != before.slots
                &&& before.retained_bytes + capacity <= before.byte_limit
            },
        },
{
}

/// A page answers a listing request exactly where it holds no more entries and bytes than were asked
/// for, each path lies under the root and behind the one before it, the first behind the cursor, and
/// it continues behind its last path where it is full, and not otherwise.
pub proof fn listings_are_valid_exactly(
    root: Seq<u8>,
    after: Option<Seq<u8>>,
    entries: usize,
    descriptor_bytes: usize,
    continuation_bytes: usize,
    page: AdmittedListingPage,
    capacities: ListingCapacities,
)
    ensures
        listing_valid(
            root,
            after,
            entries,
            descriptor_bytes,
            continuation_bytes,
            page,
            capacities,
        ) <==> {
            let files = page.files@;
            &&& files.len() <= entries
            &&& capacities.files * vstd::layout::size_of::<FileDescriptor>() + total(
                capacities.paths@,
                files.len(),
            ) <= descriptor_bytes
            &&& forall|i: int|
                0 <= i < files.len() ==> exists|rest: Seq<u8>|
                    utf8((#[trigger] files[i]).path@) == #[trigger] (root + rest)
            &&& forall|i: int|
                0 < i < files.len() ==> precedes(
                    utf8(files[i - 1].path@),
                    utf8((#[trigger] files[i]).path@),
                )
            &&& files.len() > 0 && after is Some ==> precedes(after->0, utf8(files[0].path@))
            &&& if files.len() == entries && files.len() > 0 {
                &&& page.continuation matches Some(text) && utf8(text@) == utf8(files.last().path@)
                &&& page.binding matches Some(text) && utf8(text@) == utf8(files.last().path@)
                &&& capacities.continuation <= continuation_bytes
                &&& capacities.binding <= continuation_bytes
            } else {
                page.continuation is None && page.binding is None
            }
        },
{
    let files = page.files@;
    let paths = listed_paths(files);
    assert forall|i: int| 0 <= i < files.len() implies (begins(paths[i], root) <==> exists|
        rest: Seq<u8>,
    | utf8((#[trigger] files[i]).path@) == #[trigger] (root + rest)) by {
        crate::bytes::beginnings_are_prefixes(utf8(files[i].path@), root);
    }
    if paths_ascend(paths, root, after) {
        assert forall|i: int| 0 <= i < files.len() implies {
            &&& begins(paths[i], root)
            &&& i > 0 ==> precedes(utf8(files[i - 1].path@), utf8((#[trigger] files[i]).path@))
        } by {
            assert(path_follows(paths, root, after, i));
        }
        if files.len() > 0 {
            assert(path_follows(paths, root, after, 0));
        }
    }
    if (forall|i: int| 0 <= i < files.len() ==> begins(#[trigger] paths[i], root)) && (forall|i: int|
        0 < i < files.len() ==> precedes(
            utf8(files[i - 1].path@),
            utf8((#[trigger] files[i]).path@),
        )) && (files.len() > 0 && after is Some ==> precedes(after->0, utf8(files[0].path@))) {
        assert forall|i: int| 0 <= i < paths.len() implies #[trigger] path_follows(
            paths,
            root,
            after,
            i,
        ) by {
            assert(begins(paths[i], root));
            if i > 0 {
                assert(precedes(utf8(files[i - 1].path@), utf8(files[i].path@)));
            }
        }
    }
}

/// The sum of amounts is one amount more than the sum of those before it.
pub proof fn totals_add_one_by_one(amounts: Seq<usize>, n: nat)
    ensures
        total(amounts, 0) == 0,
        total(amounts, n + 1) == total(amounts, n) + amounts[n as int],
{
}

/// A table of objects is reserved exactly where its slots are within the requests and its entries within
/// the storage, and is empty then, with the bytes of its slots.
pub proof fn tables_are_reserved_within_their_allowances(limits: TaskLimits, slots: usize)
    ensures
        ({
            let bytes = slots * vstd::layout::size_of::<ObjectBinding>();
            let made = ObjectBindings::reserved(limits, slots);
            &&& made is Some ==> {
                &&& slots <= limits.allowance(Resource::Requests)
                &&& bytes <= limits.allowance(Resource::TaskStateBytes)
            }
            &&& made matches Some(table) ==> {
                &&& table.entries.len() == 0
                &&& table.retained_bytes == bytes
                &&& table.slots == slots
                &&& table.byte_limit == limits.allowance(Resource::TaskStateBytes)
                &&& table.entry_limit == limits.allowance(Resource::Requests)
            }
            &&& slots <= ObjectBindings::room_for(limits) && bytes <= limits.allowance(
                Resource::TaskStateBytes,
            ) ==> made is Some
        }),
{
}

/// The entries that a table has room for are as many as the requests, and as many as whole entries fit
/// into the storage: one more exceeds one of them.
pub proof fn tables_have_room_for_whole_entries(limits: TaskLimits)
    requires
        ObjectBindings::entry_width() > 0,
    ensures
        ({
            let room = ObjectBindings::room_for(limits);
            &&& 0 <= room <= limits.allowance(Resource::Requests)
            &&& room * ObjectBindings::entry_width() <= limits.allowance(Resource::TaskStateBytes)
            &&& room + 1 > limits.allowance(Resource::Requests) || (room + 1)
                * ObjectBindings::entry_width() > limits.allowance(Resource::TaskStateBytes)
        }),
{
    let width = ObjectBindings::entry_width();
    let bytes = limits.allowance(Resource::TaskStateBytes) as int;
    let fit = bytes / width;
    vstd::arithmetic::div_mod::lemma_fundamental_div_mod(bytes, width);
    vstd::arithmetic::div_mod::lemma_mod_bound(bytes, width);
    assert(0 <= fit) by (nonlinear_arith)
        requires
            fit == bytes / width,
            bytes >= 0,
            width > 0,
    ;
    let room = ObjectBindings::room_for(limits);
    assert(room * width <= fit * width) by (nonlinear_arith)
        requires
            room <= fit,
            width > 0,
    ;
    assert(fit * width == width * fit) by (nonlinear_arith);
    assert((fit + 1) * width == fit * width + width) by (nonlinear_arith);
}

/// A path has room in the table exactly where it is there, or where an entry, a slot and its bytes are
/// free.
pub proof fn paths_have_room_where_it_is_free(table: BindingsView, path: Seq<u8>, capacity: usize)
    requires
        0 <= table.retained_bytes,
        table.byte_limit < usize::MAX,
    ensures
        table.room(path, capacity) is Ok <==> table.at(path) is Some || {
            &&& table.entries.len() < table.entry_limit
            &&& table.entries.len() != table.slots
            &&& table.retained_bytes + capacity <= table.byte_limit
        },
{
}

} // verus!
