//! Bounded pages of internal evaluations.
//!
//! A page is admitted batch by batch. Nothing is pulled before the page, its container and one
//! more batch are within the allowances, and a batch that exceeds one is dropped together with
//! the rest of its page.

use crate::accounting::{refusal, Resource};
use crate::backing::{reserve_exact, vec_capacity};
use crate::failure::{
    Error, ErrorSource, FailureKind, OperationFailure, ResourceExhausted, TaskProtocolError,
};
use crate::json_visitor_allocation::names_of;
use crate::refusals::{told, Refusal};
use crate::rows::RowView;
use vstd::prelude::*;

verus! {

/// Opaque engine data with conservative physical-allocation accounting.
///
/// Engines charge owned containers and the full backing allocations of sliced and shared buffers.
/// Charging shared allocations repeatedly is allowed; reporting only visible slice lengths is not.
/// The row count and the charge stay the same while the batch is owned by a page. Implementations
/// use checked arithmetic and return [`ResourceExhausted`] on overflow. Neither method allocates
/// or performs I/O.
pub trait AccountedEngineData {
    /// The row count that `len` reports.
    closed spec fn row_count(&self) -> usize {
        arbitrary()
    }

    /// The charge that `accounted_bytes` reports.
    closed spec fn backing_charge(&self) -> Result<usize, ResourceExhausted> {
        arbitrary()
    }

    /// Returns the number of rows, logically unselected ones included.
    fn len(&self) -> (rows: usize)
        ensures
            rows == self.row_count(),
    ;

    /// Returns the physical-allocation charge, or a typed accounting-overflow error.
    fn accounted_bytes(&self) -> (charge: Result<usize, ResourceExhausted>)
        ensures
            charge == self.backing_charge(),
    ;

    /// Source-admitted host execution owners still live across task resumption.
    ///
    /// Separate from page backing: these do not consume the page-byte domain. The producing host
    /// reserves the remaining task allocation authority in its caller pool before handoff. Zero
    /// stands for hosts with no live state.
    fn host_retained_bytes(&self) -> usize {
        0
    }

    /// The batch may show its selected columns so. A batch that says nothing here may show
    /// anything.
    open spec fn shows(&self, columns: Seq<Seq<Seq<char>>>, view: Result<RowView<'_>, Error>) -> bool {
        true
    }

    /// Borrows the selected columns, one accessor for each, in the order of the selection.
    fn visit_rows<'a>(&'a self, columns: &Vec<Vec<&'static str>>) -> (view: Result<
        RowView<'a>,
        Error,
    >)
        ensures
            self.shows(names_of(columns@), view),
    ;
}

/// One owned batch.
pub type Batch = Box<dyn AccountedEngineData>;

/// The bytes of one slot of a page's container.
pub open spec fn slot_bytes() -> nat {
    vstd::layout::size_of::<Batch>()
}

/// What charging `additional` on top of `used` gives.
pub open spec fn charge_result(used: usize, additional: usize, limit: usize, resource: Resource) -> Result<
    usize,
    ResourceExhausted,
> {
    if used + additional <= limit {
        Ok((used + additional) as usize)
    } else {
        Err(refusal(resource, limit, (used + additional) as nat))
    }
}

/// What charging a container of `capacity` slots gives.
pub open spec fn container_result(capacity: usize, limit: usize) -> Result<usize, ResourceExhausted> {
    if capacity * slot_bytes() <= limit {
        Ok((capacity * slot_bytes()) as usize)
    } else {
        Err(refusal(Resource::EvaluationBytes, limit, (capacity * slot_bytes()) as nat))
    }
}

/// Adds a charge to what is used, within a limit.
pub fn charge(used: usize, additional: usize, limit: usize, resource: Resource) -> (r: Result<
    usize,
    ResourceExhausted,
>)
    ensures
        r == charge_result(used, additional, limit, resource),
{
    match used.checked_add(additional) {
        Some(observed) => {
            if observed <= limit {
                Ok(observed)
            } else {
                Err(ResourceExhausted { resource, limit, observed })
            }
        },
        None => Err(ResourceExhausted { resource, limit, observed: usize::MAX }),
    }
}

/// The bytes of a container of `capacity` slots, within a limit.
pub fn container_bytes(capacity: usize, limit: usize) -> (r: Result<usize, ResourceExhausted>)
    ensures
        r == container_result(capacity, limit),
{
    let slot: usize = core::mem::size_of::<Batch>();
    match capacity.checked_mul(slot) {
        Some(bytes) => charge(0, bytes, limit, Resource::EvaluationBytes),
        None => Err(
            ResourceExhausted { resource: Resource::EvaluationBytes, limit, observed: usize::MAX },
        ),
    }
}

/// Validated finite limits for one internal evaluation page.
#[derive(Debug, Clone, Copy, PartialEq, Eq, Structural)]
pub struct EvaluationPageLimits {
    batches: usize,
    rows: usize,
    bytes: usize,
}

impl EvaluationPageLimits {
    /// The limits of a page.
    pub closed spec fn of(batches: usize, rows: usize, bytes: usize) -> EvaluationPageLimits {
        EvaluationPageLimits { batches, rows, bytes }
    }

    /// The most batches of a page.
    pub closed spec fn batch_cap(self) -> usize {
        self.batches
    }

    /// The most rows of a page.
    pub closed spec fn row_cap(self) -> usize {
        self.rows
    }

    /// The most bytes of a page.
    pub closed spec fn byte_cap(self) -> usize {
        self.bytes
    }

    /// Limits under which a page can make progress and its container can be represented.
    pub open spec fn progresses(batches: usize, rows: usize, bytes: usize) -> bool {
        batches > 0 && rows > 0 && batches * slot_bytes() <= bytes && batches * slot_bytes()
            <= isize::MAX
    }

    /// Sets maximum batches, rows and accounted bytes per page.
    ///
    /// Refuses zero batch or row allowances, an unrepresentable batch container, and a byte
    /// allowance smaller than that container.
    pub fn new(batches: usize, rows: usize, bytes: usize) -> (r: Result<
        EvaluationPageLimits,
        TaskProtocolError,
    >)
        ensures
            r == (if EvaluationPageLimits::progresses(batches, rows, bytes) {
                Ok::<EvaluationPageLimits, TaskProtocolError>(
                    EvaluationPageLimits::of(batches, rows, bytes),
                )
            } else {
                Err(TaskProtocolError::InvalidLimits)
            }),
            r matches Ok(limits) ==> limits.batch_cap() == batches && limits.row_cap() == rows
                && limits.byte_cap() == bytes,
    {
        let slot: usize = core::mem::size_of::<Batch>();
        let fits = match batches.checked_mul(slot) {
            Some(n) => n <= bytes && n <= isize::MAX as usize,
            None => false,
        };
        if batches == 0 || rows == 0 || !fits {
            return Err(TaskProtocolError::InvalidLimits);
        }
        Ok(EvaluationPageLimits { batches, rows, bytes })
    }

    /// Returns the maximum batches per page.
    pub fn batches(&self) -> (n: usize)
        ensures
            n == self.batch_cap(),
    {
        self.batches
    }

    /// Returns the maximum rows per page, including logically unselected rows.
    pub fn rows(&self) -> (n: usize)
        ensures
            n == self.row_cap(),
    {
        self.rows
    }

    /// Returns the maximum batch and container allocation charge per page.
    pub fn bytes(&self) -> (n: usize)
        ensures
            n == self.byte_cap(),
    {
        self.bytes
    }
}

/// Page limits are determined by their three parts.
pub proof fn page_limit_parts(batches: usize, rows: usize, bytes: usize)
    ensures
        EvaluationPageLimits::of(batches, rows, bytes).batch_cap() == batches,
        EvaluationPageLimits::of(batches, rows, bytes).row_cap() == rows,
        EvaluationPageLimits::of(batches, rows, bytes).byte_cap() == bytes,
{
}

/// Finite per-page and cumulative limits for a single internal evaluation.
#[derive(Debug, Clone, Copy, PartialEq, Eq, Structural)]
pub struct EvaluationLimits {
    page: EvaluationPageLimits,
    pages: usize,
    batches: usize,
    rows: usize,
    bytes: usize,
}

impl EvaluationLimits {
    /// The limits of an evaluation.
    pub closed spec fn of(
        page: EvaluationPageLimits,
        pages: usize,
        batches: usize,
        rows: usize,
        bytes: usize,
    ) -> EvaluationLimits {
        EvaluationLimits { page, pages, batches, rows, bytes }
    }

    /// The limits of each page.
    pub closed spec fn each(self) -> EvaluationPageLimits {
        self.page
    }

    /// The most pages, end-of-stream attempts included.
    pub closed spec fn page_cap(self) -> usize {
        self.pages
    }

    /// The most batches over all pages.
    pub closed spec fn batch_cap(self) -> usize {
        self.batches
    }

    /// The most rows over all pages.
    pub closed spec fn row_cap(self) -> usize {
        self.rows
    }

    /// The most bytes over all pages.
    pub closed spec fn byte_cap(self) -> usize {
        self.bytes
    }

    /// Maximum cumulative pages, including end-of-stream attempts.
    pub fn pages(self) -> (n: usize)
        ensures
            n == self.page_cap(),
    {
        self.pages
    }

    /// Maximum cumulative batches.
    pub fn batches(self) -> (n: usize)
        ensures
            n == self.batch_cap(),
    {
        self.batches
    }

    /// Maximum cumulative rows, including unselected rows.
    pub fn rows(self) -> (n: usize)
        ensures
            n == self.row_cap(),
    {
        self.rows
    }

    /// Maximum cumulative backing bytes, including released pages.
    pub fn bytes(self) -> (n: usize)
        ensures
            n == self.byte_cap(),
    {
        self.bytes
    }

    /// Sets per-page limits and cumulative page, batch, row and byte allowances.
    ///
    /// Zero cumulative allowances deliberately cause exhaustion when that resource is needed.
    /// A full page does not establish the end of the stream: leave room for another page and one
    /// attempted batch pull. A pull that finds the end consumes no batch allowance, but requires
    /// admission before the pull.
    pub fn new(
        page: EvaluationPageLimits,
        pages: usize,
        batches: usize,
        rows: usize,
        bytes: usize,
    ) -> (limits: EvaluationLimits)
        ensures
            limits == EvaluationLimits::of(page, pages, batches, rows, bytes),
            limits.each() == page,
            limits.page_cap() == pages,
            limits.batch_cap() == batches,
            limits.row_cap() == rows,
            limits.byte_cap() == bytes,
    {
        EvaluationLimits { page, pages, batches, rows, bytes }
    }

    /// Returns the limits supplied to the engine for each page.
    pub fn page(&self) -> (page: EvaluationPageLimits)
        ensures
            page == self.each(),
    {
        self.page
    }
}

/// The rows and bytes of the first `n` batches on top of a container of `base` bytes, or the
/// first refusal.
pub open spec fn page_totals(
    batches: Seq<Batch>,
    n: nat,
    base: usize,
    limits: EvaluationPageLimits,
) -> Result<(usize, usize), ResourceExhausted>
    decreases n,
{
    if n == 0 {
        Ok((0, base))
    } else {
        match page_totals(batches, (n - 1) as nat, base, limits) {
            Err(error) => Err(error),
            Ok((rows, bytes)) => match charge_result(
                rows,
                batches[n - 1].row_count(),
                limits.row_cap(),
                Resource::EvaluationRows,
            ) {
                Err(error) => Err(error),
                Ok(rows) => match batches[n - 1].backing_charge() {
                    Err(error) => Err(error),
                    Ok(amount) => match charge_result(
                        bytes,
                        amount,
                        limits.byte_cap(),
                        Resource::EvaluationBytes,
                    ) {
                        Err(error) => Err(error),
                        Ok(bytes) => Ok((rows, bytes)),
                    },
                },
            },
        }
    }
}

/// What admitting the batches of a container of `slots` slots gives.
pub open spec fn page_result(batches: Seq<Batch>, slots: usize, limits: EvaluationPageLimits) -> Result<
    (usize, usize),
    ResourceExhausted,
> {
    match charge_result(0, batches.len() as usize, limits.batch_cap(), Resource::EvaluationBatches) {
        Err(error) => Err(error),
        Ok(_) => match container_result(slots, limits.byte_cap()) {
            Err(error) => Err(error),
            Ok(base) => page_totals(batches, batches.len(), base, limits),
        },
    }
}

proof fn totals_stay_refused(
    batches: Seq<Batch>,
    n: nat,
    m: nat,
    base: usize,
    limits: EvaluationPageLimits,
)
    requires
        n <= m,
        page_totals(batches, n, base, limits) is Err,
    ensures
        page_totals(batches, m, base, limits) == page_totals(batches, n, base, limits),
    decreases m - n,
{
    if n < m {
        totals_stay_refused(batches, n, (m - 1) as nat, base, limits);
    }
}

/// An immutable, validated page of accounted engine batches.
///
/// Dropping the page releases its owned batches. Engines must admit their own allocations before
/// handing over a page; this type validates the transfer and retains no iterator or engine handler.
pub struct EvaluationPage {
    batches: Vec<Batch>,
    slots: usize,
    rows: usize,
    bytes: usize,
}

impl EvaluationPage {
    /// The batches.
    pub closed spec fn contents(self) -> Seq<Batch> {
        self.batches@
    }

    /// The slots of the container.
    pub closed spec fn container(self) -> usize {
        self.slots
    }

    /// The rows of all batches.
    pub closed spec fn row_total(self) -> usize {
        self.rows
    }

    /// The bytes of the container and of all batches.
    pub closed spec fn byte_total(self) -> usize {
        self.bytes
    }

    /// Validates actual container capacity and every batch's rows and physical bytes.
    ///
    /// On exhaustion or accounting overflow, drops all supplied batches and returns a typed
    /// operational failure. Validation does not allocate or undo an engine's earlier allocations.
    pub fn try_new(batches: Vec<Batch>, limits: EvaluationPageLimits) -> (r: Result<
        EvaluationPage,
        OperationFailure,
    >)
        ensures
            exists|slots: usize|
                slots >= batches@.len() && #[trigger] EvaluationPage::admitted(
                    batches@,
                    slots,
                    limits,
                    r,
                ),
    {
        let slots: usize = vec_capacity(&batches);
        EvaluationPage::try_new_sized(batches, slots, limits)
    }

    /// `r` is what admitting the batches of a container of `slots` slots gives.
    pub open spec fn admitted(
        batches: Seq<Batch>,
        slots: usize,
        limits: EvaluationPageLimits,
        r: Result<EvaluationPage, OperationFailure>,
    ) -> bool {
        match page_result(batches, slots, limits) {
            Ok((rows, bytes)) => r matches Ok(page) && page.contents() == batches && page.container()
                == slots && page.row_total() == rows && page.byte_total() == bytes,
            Err(error) => r matches Err(failure) && failure.is_terminal(
                FailureKind::ResourceExhausted(error),
            ),
        }
    }

    /// Validates the batches of a container whose slots were measured.
    pub fn try_new_sized(batches: Vec<Batch>, slots: usize, limits: EvaluationPageLimits) -> (r: Result<
        EvaluationPage,
        OperationFailure,
    >)
        ensures
            EvaluationPage::admitted(batches@, slots, limits, r),
    {
        match charge(0, batches.len(), limits.batches, Resource::EvaluationBatches) {
            Ok(_) => {},
            Err(error) => return Err(OperationFailure::exhausted(error)),
        }
        let base: usize = match container_bytes(slots, limits.bytes) {
            Ok(base) => base,
            Err(error) => return Err(OperationFailure::exhausted(error)),
        };
        let mut bytes: usize = base;
        let mut rows: usize = 0;
        let mut i: usize = 0;
        while i < batches.len()
            invariant
                i <= batches@.len(),
                page_totals(batches@, i as nat, base, limits) == Ok::<(usize, usize), ResourceExhausted>(
                    (rows, bytes),
                ),
                page_result(batches@, slots, limits) == page_totals(
                    batches@,
                    batches@.len(),
                    base,
                    limits,
                ),
            decreases batches@.len() - i,
        {
            let batch = &batches[i];
            proof {
                if page_totals(batches@, (i + 1) as nat, base, limits) is Err {
                    totals_stay_refused(batches@, (i + 1) as nat, batches@.len(), base, limits);
                }
            }
            rows = match charge(rows, batch.len(), limits.rows, Resource::EvaluationRows) {
                Ok(rows) => rows,
                Err(error) => return Err(OperationFailure::exhausted(error)),
            };
            let amount: usize = match batch.accounted_bytes() {
                Ok(amount) => amount,
                Err(error) => return Err(OperationFailure::exhausted(error)),
            };
            bytes = match charge(bytes, amount, limits.bytes, Resource::EvaluationBytes) {
                Ok(bytes) => bytes,
                Err(error) => return Err(OperationFailure::exhausted(error)),
            };
            i += 1;
        }
        Ok(EvaluationPage { batches, slots, rows, bytes })
    }

    /// Borrows the batches without exposing mutable ownership of the validated container.
    pub fn batches(&self) -> (batches: &Vec<Batch>)
        ensures
            batches@ == self.contents(),
    {
        &self.batches
    }

    /// Transfers validated batch ownership without copying or allocating.
    pub fn into_batches(self) -> (batches: Vec<Batch>)
        ensures
            batches@ == self.contents(),
    {
        self.batches
    }

    /// Returns the total rows, including logically unselected rows.
    pub fn num_rows(&self) -> (n: usize)
        ensures
            n == self.row_total(),
    {
        self.rows
    }

    /// Returns the physical batch and actual container allocation charge.
    pub fn accounted_bytes(&self) -> (n: usize)
        ensures
            n == self.byte_total(),
    {
        self.bytes
    }
}

/// A page that was admitted is within each of the limits that it was admitted under.
pub proof fn admitted_pages_are_within_limits(
    batches: Seq<Batch>,
    slots: usize,
    limits: EvaluationPageLimits,
    page: EvaluationPage,
)
    requires
        batches.len() <= usize::MAX,
        EvaluationPage::admitted(batches, slots, limits, Ok(page)),
    ensures
        page.contents().len() <= limits.batch_cap(),
        page.row_total() <= limits.row_cap(),
        page.byte_total() <= limits.byte_cap(),
        page.container() * slot_bytes() <= page.byte_total(),
{
    totals_are_within_limits(
        batches,
        batches.len(),
        (slots * slot_bytes()) as usize,
        limits,
    );
}

proof fn totals_are_within_limits(
    batches: Seq<Batch>,
    n: nat,
    base: usize,
    limits: EvaluationPageLimits,
)
    requires
        base <= limits.byte_cap(),
    ensures
        page_totals(batches, n, base, limits) matches Ok((rows, bytes)) ==> rows <= limits.row_cap()
            && base <= bytes <= limits.byte_cap(),
    decreases n,
{
    if n > 0 {
        totals_are_within_limits(batches, (n - 1) as nat, base, limits);
    }
}

/// Cumulative work charged by a native evaluation reader, including released pages.
#[derive(Debug, Clone, Copy, PartialEq, Eq, Structural)]
pub struct EvaluationUsage {
    /// Pages begun, including a final empty one.
    pub pages: usize,
    /// Batches admitted across all pages.
    pub batches: usize,
    /// Rows admitted across all pages.
    pub rows: usize,
    /// Batch and container bytes admitted across all pages.
    pub bytes: usize,
}

impl Default for EvaluationUsage {
    fn default() -> (usage: EvaluationUsage)
        ensures
            usage == (EvaluationUsage { pages: 0, batches: 0, rows: 0, bytes: 0 }),
    {
        EvaluationUsage { pages: 0, batches: 0, rows: 0, bytes: 0 }
    }
}

impl EvaluationUsage {
    /// The usage after the next page has been begun, with the bytes that its container reserves.
    pub open spec fn begun(self, limits: EvaluationLimits) -> Result<
        (EvaluationUsage, usize),
        ResourceExhausted,
    > {
        match charge_result(self.pages, 1, limits.page_cap(), Resource::EvaluationPages) {
            Err(error) => Err(error),
            Ok(pages) => match charge_result(
                self.batches,
                1,
                limits.batch_cap(),
                Resource::EvaluationBatches,
            ) {
                Err(error) => Err(error),
                Ok(_) => match container_result(limits.each().batch_cap(), limits.each().byte_cap()) {
                    Err(error) => Err(error),
                    Ok(requested) => match charge_result(
                        self.bytes,
                        requested,
                        limits.byte_cap(),
                        Resource::EvaluationBytes,
                    ) {
                        Err(error) => Err(error),
                        Ok(bytes) => Ok((EvaluationUsage { pages, bytes, ..self }, requested)),
                    },
                },
            },
        }
    }

    /// Admits a page and its full requested container before a source pull or a host call.
    ///
    /// An attempt that finds the end of the stream has the same admission requirement. A refusal
    /// leaves the usage as it was.
    pub fn begin_page(&mut self, limits: EvaluationLimits) -> (r: Result<usize, OperationFailure>)
        ensures
            match old(self).begun(limits) {
                Ok((usage, requested)) => r == Ok::<usize, OperationFailure>(requested)
                    && *final(self) == usage,
                Err(error) => (r matches Err(failure) && failure.is_terminal(
                    FailureKind::ResourceExhausted(error),
                )) && *final(self) == *old(self),
            },
    {
        let pages: usize = match charge(self.pages, 1, limits.pages, Resource::EvaluationPages) {
            Ok(pages) => pages,
            Err(error) => return Err(OperationFailure::exhausted(error)),
        };
        match charge(self.batches, 1, limits.batches, Resource::EvaluationBatches) {
            Ok(_) => {},
            Err(error) => return Err(OperationFailure::exhausted(error)),
        }
        let requested: usize = match container_bytes(limits.page.batches, limits.page.bytes) {
            Ok(requested) => requested,
            Err(error) => return Err(OperationFailure::exhausted(error)),
        };
        let bytes: usize = match charge(
            self.bytes,
            requested,
            limits.bytes,
            Resource::EvaluationBytes,
        ) {
            Ok(bytes) => bytes,
            Err(error) => return Err(OperationFailure::exhausted(error)),
        };
        self.pages = pages;
        self.bytes = bytes;
        Ok(requested)
    }

    /// The usage after a host's page has been recorded.
    ///
    /// The page must be within the page limits of its own accord; the cumulative charge leaves
    /// out the container that was reserved when the page was begun.
    pub open spec fn recorded(self, limits: EvaluationLimits, page: EvaluationPage) -> Result<
        EvaluationUsage,
        FailureKind,
    > {
        let count = page.contents().len() as usize;
        let actual = (page.container() * slot_bytes()) as int;
        let reserved = (limits.each().batch_cap() * slot_bytes()) as int;
        let beyond = if actual > reserved { actual - reserved } else { 0 };
        if let Err(error) = charge_result(
            0,
            count,
            limits.each().batch_cap(),
            Resource::EvaluationBatches,
        ) {
            Err(FailureKind::ResourceExhausted(error))
        } else if let Err(error) = charge_result(
            0,
            page.row_total(),
            limits.each().row_cap(),
            Resource::EvaluationRows,
        ) {
            Err(FailureKind::ResourceExhausted(error))
        } else if let Err(error) = charge_result(
            0,
            page.byte_total(),
            limits.each().byte_cap(),
            Resource::EvaluationBytes,
        ) {
            Err(FailureKind::ResourceExhausted(error))
        } else if let Err(error) = container_result(page.container(), limits.each().byte_cap()) {
            Err(FailureKind::ResourceExhausted(error))
        } else if let Err(error) = container_result(
            limits.each().batch_cap(),
            limits.each().byte_cap(),
        ) {
            Err(FailureKind::ResourceExhausted(error))
        } else if page.byte_total() < actual {
            Err(FailureKind::MalformedResponse)
        } else {
            let additional = page.byte_total() - actual + beyond;
            match charge_result(self.batches, count, limits.batch_cap(), Resource::EvaluationBatches) {
                Err(error) => Err(FailureKind::ResourceExhausted(error)),
                Ok(batches) => match charge_result(
                    self.rows,
                    page.row_total(),
                    limits.row_cap(),
                    Resource::EvaluationRows,
                ) {
                    Err(error) => Err(FailureKind::ResourceExhausted(error)),
                    Ok(rows) => match charge_result(
                        self.bytes,
                        additional as usize,
                        limits.byte_cap(),
                        Resource::EvaluationBytes,
                    ) {
                        Err(error) => Err(FailureKind::ResourceExhausted(error)),
                        Ok(bytes) => Ok(EvaluationUsage { batches, rows, bytes, ..self }),
                    },
                },
            }
        }
    }

    /// Records a page that a host admitted, under the original page and cumulative bounds.
    ///
    /// The host may have used other limits; both are checked again. A refusal leaves the usage as
    /// it was, and the end of the stream records nothing.
    pub fn record_page(&mut self, limits: EvaluationLimits, page: Option<&EvaluationPage>) -> (r: Result<
        (),
        OperationFailure,
    >)
        ensures
            page is None ==> r is Ok && *final(self) == *old(self),
            page matches Some(page) ==> match old(self).recorded(limits, *page) {
                Ok(usage) => r is Ok && *final(self) == usage,
                Err(kind) => (r matches Err(failure) && failure.is_terminal(kind)) && *final(self)
                    == *old(self),
            },
    {
        let page = match page {
            Some(page) => page,
            None => return Ok(()),
        };
        match charge(
            0,
            page.batches.len(),
            limits.page.batches,
            Resource::EvaluationBatches,
        ) {
            Ok(_) => {},
            Err(error) => return Err(OperationFailure::exhausted(error)),
        }
        match charge(0, page.rows, limits.page.rows, Resource::EvaluationRows) {
            Ok(_) => {},
            Err(error) => return Err(OperationFailure::exhausted(error)),
        }
        match charge(0, page.bytes, limits.page.bytes, Resource::EvaluationBytes) {
            Ok(_) => {},
            Err(error) => return Err(OperationFailure::exhausted(error)),
        }
        let actual_container: usize = match container_bytes(page.slots, limits.page.bytes) {
            Ok(bytes) => bytes,
            Err(error) => return Err(OperationFailure::exhausted(error)),
        };
        let reserved_container: usize = match container_bytes(
            limits.page.batches,
            limits.page.bytes,
        ) {
            Ok(bytes) => bytes,
            Err(error) => return Err(OperationFailure::exhausted(error)),
        };
        let payload: usize = match page.bytes.checked_sub(actual_container) {
            Some(payload) => payload,
            None => return Err(OperationFailure::malformed_response()),
        };
        let additional: usize = match payload.checked_add(
            actual_container.saturating_sub(reserved_container),
        ) {
            Some(additional) => additional,
            None => return Err(OperationFailure::malformed_response()),
        };
        let batches: usize = match charge(
            self.batches,
            page.batches.len(),
            limits.batches,
            Resource::EvaluationBatches,
        ) {
            Ok(batches) => batches,
            Err(error) => return Err(OperationFailure::exhausted(error)),
        };
        let rows: usize = match charge(self.rows, page.rows, limits.rows, Resource::EvaluationRows) {
            Ok(rows) => rows,
            Err(error) => return Err(OperationFailure::exhausted(error)),
        };
        let bytes: usize = match charge(
            self.bytes,
            additional,
            limits.bytes,
            Resource::EvaluationBytes,
        ) {
            Ok(bytes) => bytes,
            Err(error) => return Err(OperationFailure::exhausted(error)),
        };
        self.batches = batches;
        self.rows = rows;
        self.bytes = bytes;
        Ok(())
    }

    /// Returns pages begun, including the final empty end-of-stream page if needed.
    pub fn pages(&self) -> (n: usize)
        ensures
            n == self.pages,
    {
        self.pages
    }

    /// Returns batches admitted across all pages.
    pub fn batches(&self) -> (n: usize)
        ensures
            n == self.batches,
    {
        self.batches
    }

    /// Returns rows admitted across all pages.
    pub fn rows(&self) -> (n: usize)
        ensures
            n == self.rows,
    {
        self.rows
    }

    /// Returns cumulative admitted batch and container bytes, including released allocations.
    pub fn bytes(&self) -> (n: usize)
        ensures
            n == self.bytes,
    {
        self.bytes
    }

    /// Within the cumulative limits.
    pub open spec fn within(self, limits: EvaluationLimits) -> bool {
        self.pages <= limits.page_cap() && self.batches <= limits.batch_cap() && self.rows
            <= limits.row_cap() && self.bytes <= limits.byte_cap()
    }

    /// No measurement of `later` is below this one.
    pub open spec fn precedes(self, later: EvaluationUsage) -> bool {
        self.pages <= later.pages && self.batches <= later.batches && self.rows <= later.rows
            && self.bytes <= later.bytes
    }
}

/// Beginning and recording pages keeps an evaluation within its limits and never lowers a
/// measurement.
pub proof fn usage_grows_within_limits(
    usage: EvaluationUsage,
    limits: EvaluationLimits,
    page: EvaluationPage,
)
    requires
        usage.within(limits),
    ensures
        usage.begun(limits) matches Ok((later, _)) ==> later.within(limits) && usage.precedes(later),
        usage.recorded(limits, page) matches Ok(later) ==> later.within(limits) && usage.precedes(
            later,
        ),
{
}

/// The measurements of a page in progress, with the cumulative usage.
pub struct PageProgress {
    /// The cumulative usage.
    pub usage: EvaluationUsage,
    /// The rows of the page so far.
    pub rows: usize,
    /// The bytes of the page so far, its container included.
    pub bytes: usize,
}

impl PageProgress {
    /// The progress after one more batch.
    pub open spec fn admitted(
        self,
        batch_rows: usize,
        batch_charge: Result<usize, ResourceExhausted>,
        limits: EvaluationLimits,
    ) -> Result<PageProgress, ResourceExhausted> {
        match charge_result(self.usage.batches, 1, limits.batch_cap(), Resource::EvaluationBatches) {
            Err(error) => Err(error),
            Ok(count) => match batch_charge {
                Err(error) => Err(error),
                Ok(amount) => match charge_result(
                    self.rows,
                    batch_rows,
                    limits.each().row_cap(),
                    Resource::EvaluationRows,
                ) {
                    Err(error) => Err(error),
                    Ok(rows) => match charge_result(
                        self.bytes,
                        amount,
                        limits.each().byte_cap(),
                        Resource::EvaluationBytes,
                    ) {
                        Err(error) => Err(error),
                        Ok(bytes) => match charge_result(
                            self.usage.rows,
                            batch_rows,
                            limits.row_cap(),
                            Resource::EvaluationRows,
                        ) {
                            Err(error) => Err(error),
                            Ok(total_rows) => match charge_result(
                                self.usage.bytes,
                                amount,
                                limits.byte_cap(),
                                Resource::EvaluationBytes,
                            ) {
                                Err(error) => Err(error),
                                Ok(total_bytes) => Ok(
                                    PageProgress {
                                        usage: EvaluationUsage {
                                            batches: count,
                                            rows: total_rows,
                                            bytes: total_bytes,
                                            ..self.usage
                                        },
                                        rows,
                                        bytes,
                                    },
                                ),
                            },
                        },
                    },
                },
            },
        }
    }

    /// The progress after all of the batches.
    pub open spec fn through(self, batches: Seq<Batch>, limits: EvaluationLimits) -> Result<
        PageProgress,
        ResourceExhausted,
    >
        decreases batches.len(),
    {
        if batches.len() == 0 {
            Ok(self)
        } else {
            match self.through(batches.drop_last(), limits) {
                Err(error) => Err(error),
                Ok(progress) => progress.admitted(
                    batches.last().row_count(),
                    batches.last().backing_charge(),
                    limits,
                ),
            }
        }
    }

    /// Admits one pulled batch, by the rows and the charge that it reports; a refusal leaves the
    /// progress as it was.
    pub fn add_batch(
        &mut self,
        batch_rows: usize,
        batch_charge: Result<usize, ResourceExhausted>,
        limits: EvaluationLimits,
    ) -> (r: Result<(), ResourceExhausted>)
        ensures
            match old(self).admitted(batch_rows, batch_charge, limits) {
                Ok(progress) => r is Ok && *final(self) == progress,
                Err(error) => r == Err::<(), ResourceExhausted>(error) && *final(self) == *old(self),
            },
    {
        let count: usize = charge(
            self.usage.batches,
            1,
            limits.batches,
            Resource::EvaluationBatches,
        )?;
        let batch_bytes: usize = batch_charge?;
        let rows: usize = charge(
            self.rows,
            batch_rows,
            limits.page.rows,
            Resource::EvaluationRows,
        )?;
        let bytes: usize = charge(
            self.bytes,
            batch_bytes,
            limits.page.bytes,
            Resource::EvaluationBytes,
        )?;
        let total_rows: usize = charge(
            self.usage.rows,
            batch_rows,
            limits.rows,
            Resource::EvaluationRows,
        )?;
        let total_bytes: usize = charge(
            self.usage.bytes,
            batch_bytes,
            limits.bytes,
            Resource::EvaluationBytes,
        )?;
        self.usage.batches = count;
        self.usage.rows = total_rows;
        self.usage.bytes = total_bytes;
        self.rows = rows;
        self.bytes = bytes;
        Ok(())
    }

    /// The progress of a page that was begun with `usage` and asked for `requested` bytes, before
    /// its first pull. `grant` is the slots that the container got, or why the allocator gave
    /// nothing.
    pub open spec fn granted(
        usage: EvaluationUsage,
        requested: usize,
        grant: Result<usize, String>,
        limits: EvaluationLimits,
    ) -> Result<PageProgress, Refusal> {
        match grant {
            Err(reason) => Err(
                Refusal::Carried(Error::GenericError { source: ErrorSource::Allocation(reason) }),
            ),
            Ok(slots) => match container_result(slots, limits.each().byte_cap()) {
                Err(error) => Err(Refusal::Kind(FailureKind::ResourceExhausted(error))),
                Ok(bytes) => if bytes < requested {
                    Err(Refusal::Kind(FailureKind::MalformedResponse))
                } else {
                    match charge_result(
                        usage.bytes,
                        (bytes - requested) as usize,
                        limits.byte_cap(),
                        Resource::EvaluationBytes,
                    ) {
                        Err(error) => Err(Refusal::Kind(FailureKind::ResourceExhausted(error))),
                        Ok(total) => Ok(
                            PageProgress {
                                usage: EvaluationUsage { bytes: total, ..usage },
                                rows: 0,
                                bytes,
                            },
                        ),
                    }
                },
            },
        }
    }

    /// Opens a page that was begun with `usage` and asked for `requested` bytes, whatever the
    /// allocator answered.
    pub fn open_sized(
        usage: EvaluationUsage,
        requested: usize,
        grant: Result<usize, String>,
        limits: EvaluationLimits,
    ) -> (r: Result<PageProgress, OperationFailure>)
        ensures
            told(PageProgress::granted(usage, requested, grant, limits), r),
    {
        let slots: usize = match grant {
            Ok(slots) => slots,
            Err(reason) => {
                let source = ErrorSource::Allocation(reason);
                return Err(OperationFailure::engine(Error::generic_err(source)));
            },
        };
        let bytes: usize = match container_bytes(slots, limits.page.bytes) {
            Ok(bytes) => bytes,
            Err(error) => return Err(OperationFailure::exhausted(error)),
        };
        let beyond: usize = match bytes.checked_sub(requested) {
            Some(beyond) => beyond,
            None => return Err(OperationFailure::malformed_response()),
        };
        let total: usize = match charge(
            usage.bytes,
            beyond,
            limits.bytes,
            Resource::EvaluationBytes,
        ) {
            Ok(total) => total,
            Err(error) => return Err(OperationFailure::exhausted(error)),
        };
        Ok(PageProgress { usage: EvaluationUsage { bytes: total, ..usage }, rows: 0, bytes })
    }

    /// Takes what a pull gave, whatever it is. Says whether the page goes on: a batch that is
    /// admitted joins the page, and the end of the stream ends it. A failure of the source is
    /// handed on, and a batch that is refused is dropped.
    pub fn take_pull(&mut self, pull: Pull, batches: &mut Vec<Batch>, limits: EvaluationLimits) -> (r:
        Result<bool, OperationFailure>)
        ensures
            match pull {
                None => {
                    &&& r == Ok::<bool, OperationFailure>(false)
                    &&& *final(self) == *old(self)
                    &&& final(batches)@ == old(batches)@
                },
                Some(Err(failure)) => {
                    &&& r == Err::<bool, OperationFailure>(failure)
                    &&& *final(self) == *old(self)
                    &&& final(batches)@ == old(batches)@
                },
                Some(Ok(batch)) => match old(self).admitted(
                    batch.row_count(),
                    batch.backing_charge(),
                    limits,
                ) {
                    Ok(progress) => {
                        &&& r == Ok::<bool, OperationFailure>(true)
                        &&& *final(self) == progress
                        &&& final(batches)@ == followed_by(batch, old(batches)@)
                    },
                    Err(error) => {
                        &&& r matches Err(failure) && failure.is_terminal(
                            FailureKind::ResourceExhausted(error),
                        )
                        &&& *final(self) == *old(self)
                        &&& final(batches)@ == old(batches)@
                    },
                },
            },
    {
        let batch = match pull {
            None => return Ok(false),
            Some(Err(failure)) => return Err(failure),
            Some(Ok(batch)) => batch,
        };
        let rows: usize = batch.len();
        let amount = batch.accounted_bytes();
        match self.add_batch(rows, amount, limits) {
            Ok(()) => {
                append(batch, batches);
                Ok(true)
            },
            Err(error) => Err(OperationFailure::exhausted(error)),
        }
    }
}

/// The items with one more behind them.
pub open spec fn followed_by<T>(item: T, items: Seq<T>) -> Seq<T> {
    items.push(item)
}

/// Appends an item, whose type is left open for the same reason as in [`held`].
fn append<T>(item: T, items: &mut Vec<T>)
    ensures
        final(items)@ == followed_by(item, old(items)@),
{
    items.push(item);
}

/// An item that is there. Its type is left open, so that a boxed trait object passes as it is.
pub(crate) fn held<T>(item: T) -> (r: Option<T>)
    ensures
        r == Some(item),
{
    Some(item)
}

/// The pulls that gave these items, in order.
pub open spec fn pulls_of<T, E>(items: Seq<T>) -> Seq<Option<Result<T, E>>> {
    Seq::new(items.len(), |i: int| Some(Ok(items[i])))
}

proof fn pulls_follow<T, E>(item: T, items: Seq<T>, earlier: Seq<Option<Result<T, E>>>)
    ensures
        followed_by(item, items).len() == items.len() + 1,
        followed_by(item, items).drop_last() == items,
        followed_by(item, items).last() == item,
        (earlier + pulls_of::<T, E>(items)).push(Some(Ok(item))) == earlier + pulls_of::<T, E>(
            followed_by(item, items),
        ),
{
    assert(followed_by(item, items).drop_last() =~= items);
    assert((earlier + pulls_of::<T, E>(items)).push(Some(Ok(item))) =~= earlier + pulls_of::<T, E>(
        followed_by(item, items),
    ));
}

/// What one pull of a source gave: a batch, a failure, or the end of the stream.
pub type Pull = Option<Result<Batch, OperationFailure>>;

/// Lazy evaluation output whose allocations were admitted by its producer before each yield.
pub trait EvaluationSource {
    /// What this source has handed out so far, in order.
    closed spec fn served(&self) -> Seq<Pull> {
        arbitrary()
    }

    /// Produces the next batch, or `None` at the end of the stream.
    fn next(&mut self) -> (pull: Pull)
        ensures
            final(self).served() == old(self).served().push(pull),
    ;
}

/// An owned source.
pub type AdmittedEvaluationSource = Box<dyn EvaluationSource>;

/// Native driver component that pages an already admitted, lazy internal evaluation.
///
/// The source owns execution state and must enforce its own allocation and per-batch bounds before
/// returning a batch. The reader owns that source, pulls at most the requested batch count, and
/// performs no lookahead. It neither executes a plan nor adapts an unbounded result.
///
/// Dropping or cancelling the reader releases the source immediately. Returned pages belong to the
/// caller and are not retained here; the caller must drop them when its task is cancelled.
pub struct EvaluationReader {
    source: Option<AdmittedEvaluationSource>,
    limits: EvaluationLimits,
    usage: EvaluationUsage,
    failure: Option<FailureKind>,
}

/// How reading one page ended.
pub enum PageEnd {
    /// The page is full.
    Full,
    /// The source reported its end.
    Exhausted,
    /// One more pull was refused.
    PullRefused(ResourceExhausted),
    /// The source failed.
    SourceFailed(OperationFailure),
    /// A batch that this pull gave was refused.
    BatchRefused(Pull, ResourceExhausted),
}

impl EvaluationReader {
    /// The source, while it is owned.
    pub closed spec fn source(self) -> Option<AdmittedEvaluationSource> {
        self.source
    }

    /// The source is still owned.
    pub open spec fn active(self) -> bool {
        self.source() is Some
    }

    /// What the owned source has handed out so far.
    pub open spec fn history(self) -> Seq<Pull> {
        self.source()->0.served()
    }

    /// The limits.
    pub closed spec fn bounds(self) -> EvaluationLimits {
        self.limits
    }

    /// The cumulative usage.
    pub closed spec fn spent(self) -> EvaluationUsage {
        self.usage
    }

    /// The category of the failure that ended the evaluation.
    pub closed spec fn ended(self) -> Option<FailureKind> {
        self.failure
    }

    /// A reader that has ended by failure owns no source.
    pub open spec fn wf(self) -> bool {
        self.ended() is Some ==> !self.active()
    }

    /// The page progress when the first batch is to be pulled: `grant` is what the container got.
    pub open spec fn opened(self, grant: Result<usize, String>) -> Result<PageProgress, Refusal> {
        match self.spent().begun(self.bounds()) {
            Err(error) => Err(Refusal::Kind(FailureKind::ResourceExhausted(error))),
            Ok((usage, requested)) => PageProgress::granted(usage, requested, grant, self.bounds()),
        }
    }

    /// What is pulled for a page of these batches that ends as `end` says: the batches in order,
    /// and behind them nothing but the pull that ended the page.
    pub open spec fn handed(page: Seq<Batch>, end: PageEnd) -> Seq<Pull> {
        let batches = pulls_of::<Batch, OperationFailure>(page);
        match end {
            PageEnd::Full | PageEnd::PullRefused(_) => batches,
            PageEnd::Exhausted => batches.push(None),
            PageEnd::SourceFailed(failure) => batches.push(Some(Err(failure))),
            PageEnd::BatchRefused(pull, _) => batches.push(pull),
        }
    }

    /// The page ended as `end` says after the batches of `page`, having reached `progress`.
    pub open spec fn ends(
        progress: PageProgress,
        page: Seq<Batch>,
        limits: EvaluationLimits,
        end: PageEnd,
    ) -> bool {
        let next = charge_result(
            progress.usage.batches,
            1,
            limits.batch_cap(),
            Resource::EvaluationBatches,
        );
        match end {
            PageEnd::Full => page.len() == limits.each().batch_cap(),
            PageEnd::Exhausted => page.len() < limits.each().batch_cap() && next is Ok,
            PageEnd::PullRefused(error) => page.len() < limits.each().batch_cap() && next
                == Err::<usize, ResourceExhausted>(error),
            PageEnd::SourceFailed(_) => page.len() < limits.each().batch_cap() && next is Ok,
            PageEnd::BatchRefused(pull, error) => page.len() < limits.each().batch_cap() && next is Ok
                && (pull matches Some(Ok(batch)) && progress.admitted(
                batch.row_count(),
                batch.backing_charge(),
                limits,
            ) == Err::<PageProgress, ResourceExhausted>(error)),
        }
    }

    /// `r` is the result of a page that ended as `end` says after the batches of `page`.
    pub open spec fn delivers(
        progress: PageProgress,
        page: Seq<Batch>,
        slots: usize,
        end: PageEnd,
        r: Result<Option<EvaluationPage>, OperationFailure>,
    ) -> bool {
        match end {
            PageEnd::Full | PageEnd::Exhausted => if page.len() == 0 {
                r == Ok::<Option<EvaluationPage>, OperationFailure>(None)
            } else {
                r matches Ok(Some(p)) && p.contents() == page && p.container() == slots
                    && p.row_total() == progress.rows && p.byte_total() == progress.bytes
            },
            PageEnd::PullRefused(error) => r matches Err(failure) && failure.is_terminal(
                FailureKind::ResourceExhausted(error),
            ),
            PageEnd::BatchRefused(_, error) => r matches Err(failure) && failure.is_terminal(
                FailureKind::ResourceExhausted(error),
            ),
            PageEnd::SourceFailed(failure) => r == Err::<Option<EvaluationPage>, OperationFailure>(
                failure,
            ),
        }
    }

    /// Reading went through the batches of `page`, ended as `end` says, and left the source as
    /// `left`, which was pulled for exactly that. `slots` is what the container got, and `usage` is
    /// the usage behind it.
    pub open spec fn read(
        self,
        usage: EvaluationUsage,
        left: Option<AdmittedEvaluationSource>,
        slots: usize,
        page: Seq<Batch>,
        end: PageEnd,
        r: Result<Option<EvaluationPage>, OperationFailure>,
    ) -> bool {
        &&& self.opened(Ok(slots)) is Ok
        &&& self.opened(Ok(slots))->Ok_0.through(page, self.bounds()) is Ok
        &&& left matches Some(source) && source.served() == self.history() + EvaluationReader::handed(page, end)
        &&& ({
            let progress = self.opened(Ok(slots))->Ok_0.through(page, self.bounds())->Ok_0;
            &&& usage == progress.usage
            &&& EvaluationReader::ends(progress, page, self.bounds(), end)
            &&& EvaluationReader::delivers(progress, page, slots, end, r)
        })
    }

    /// Reading was refused before anything was pulled, for want of an allowance or of storage.
    pub open spec fn refused(
        self,
        usage: EvaluationUsage,
        r: Result<Option<EvaluationPage>, OperationFailure>,
    ) -> bool {
        match self.spent().begun(self.bounds()) {
            Err(error) => usage == self.spent() && (r matches Err(failure) && failure.is_terminal(
                FailureKind::ResourceExhausted(error),
            )),
            Ok((begun, _)) => usage == begun && (r matches Err(failure) && exists|
                grant: Result<usize, String>,
            |
                #[trigger] self.opened(grant) is Err && self.opened(grant)->Err_0.delivered(failure)),
        }
    }

    /// Asking for the next page gave `r` and left the reader as `later`.
    ///
    /// A failed reader repeats its category and one at its end repeats the end. Otherwise reading
    /// is refused before a pull, or goes through the next batches of the source to the page's end.
    /// A full page keeps the source as its last pull left it. The end of the stream and a failure
    /// release it, and a failure ends the evaluation.
    pub open spec fn pages(
        self,
        later: EvaluationReader,
        r: Result<Option<EvaluationPage>, OperationFailure>,
    ) -> bool {
        &&& later.wf()
        &&& later.bounds() == self.bounds()
        &&& self.ended() matches Some(kind) ==> (r matches Err(failure) && failure.is_terminal(kind))
            && later == self
        &&& self.ended() is None && !self.active() ==> r == Ok::<
            Option<EvaluationPage>,
            OperationFailure,
        >(None) && later == self
        &&& self.ended() is None && self.active() ==> {
            ||| self.refused(later.spent(), r)
            ||| exists|left: Option<AdmittedEvaluationSource>, slots: usize, page: Seq<Batch>, end: PageEnd|
                {
                    &&& #[trigger] self.read(later.spent(), left, slots, page, end, r)
                    &&& later.source() == (if end is Full {
                        left
                    } else {
                        None
                    })
                }
        }
        &&& r matches Err(failure) ==> later.ended() == Some(failure.category()) && !later.active()
        &&& r is Ok ==> later.ended() is None
        &&& (r matches Ok(None) && self.bounds().each().batch_cap() > 0) ==> !later.active()
    }

    /// Takes an engine-admitted source and finite limits without pulling the source.
    pub fn new(source: AdmittedEvaluationSource, limits: EvaluationLimits) -> (reader: EvaluationReader)
        ensures
            reader.source() == Some(source),
            reader.bounds() == limits,
            reader.spent() == (EvaluationUsage { pages: 0, batches: 0, rows: 0, bytes: 0 }),
            reader.ended() is None,
            reader.wf(),
    {
        let source = held(source);
        EvaluationReader::holding(source, limits)
    }

    /// Takes a source that is there.
    pub(crate) fn holding(source: Option<AdmittedEvaluationSource>, limits: EvaluationLimits) -> (reader:
        EvaluationReader)
        ensures
            reader.source() == source,
            reader.bounds() == limits,
            reader.spent() == (EvaluationUsage { pages: 0, batches: 0, rows: 0, bytes: 0 }),
            reader.ended() is None,
            reader.wf(),
    {
        EvaluationReader {
            source,
            limits,
            usage: EvaluationUsage { pages: 0, batches: 0, rows: 0, bytes: 0 },
            failure: None,
        }
    }

    /// Returns the next bounded page, or `None` once the end of the stream is observed.
    ///
    /// Checks page and container admission before allocating or pulling. A batch that exceeds page
    /// or cumulative limits terminates evaluation and is dropped with the rest of the in-progress
    /// page. The original engine error transfers once; subsequent calls return only its category.
    /// No partial page is returned on failure. After cancellation, every call fails as cancelled.
    pub fn next_page(&mut self) -> (r: Result<Option<EvaluationPage>, OperationFailure>)
        requires
            old(self).wf(),
        ensures
            old(self).pages(*final(self), r),
    {
        if let Some(kind) = self.failure {
            return Err(OperationFailure::terminal(kind));
        }
        if self.source.is_none() {
            return Ok(None);
        }
        let result = self.read_page();
        let ghost read = *self;
        match result {
            Ok(page) => Ok(page),
            Err(error) => {
                self.source = None;
                self.failure = Some(error.kind());
                proof {
                    if !old(self).refused(read.spent(), result) {
                        let (left, slots, page, end) = choose|
                            left: Option<AdmittedEvaluationSource>,
                            slots: usize,
                            page: Seq<Batch>,
                            end: PageEnd,
                        | #[trigger]
                            old(self).read(read.spent(), left, slots, page, end, result) && !(
                            end is Full);
                        assert(old(self).read(self.spent(), left, slots, page, end, result));
                    }
                }
                Err(error)
            },
        }
    }

    /// Immediately releases an active source; repeated calls preserve terminal state.
    ///
    /// Cancellation does not change an already completed or failed evaluation and cannot release
    /// pages already transferred to the caller. It performs no further source work.
    pub fn cancel(&mut self)
        ensures
            !final(self).active(),
            final(self).bounds() == old(self).bounds(),
            final(self).spent() == old(self).spent(),
            final(self).ended() == (if old(self).active() {
                Some(FailureKind::Cancelled)
            } else {
                old(self).ended()
            }),
            final(self).wf(),
    {
        if self.source.is_some() {
            self.source = None;
            self.failure = Some(FailureKind::Cancelled);
        }
    }

    /// Returns separate cumulative accounting domains, not process-memory measurements.
    pub fn usage(&self) -> (usage: EvaluationUsage)
        ensures
            usage == self.spent(),
    {
        self.usage
    }

    fn pull(&mut self) -> (pull: Pull)
        requires
            old(self).active(),
        ensures
            final(self).bounds() == old(self).bounds(),
            final(self).spent() == old(self).spent(),
            final(self).ended() == old(self).ended(),
            final(self).active(),
            final(self).history() == old(self).history().push(pull),
    {
        match &mut self.source {
            Some(source) => source.next(),
            None => None,
        }
    }

    fn read_page(&mut self) -> (r: Result<Option<EvaluationPage>, OperationFailure>)
        requires
            old(self).active(),
        ensures
            final(self).bounds() == old(self).bounds(),
            final(self).ended() == old(self).ended(),
            old(self).refused(final(self).spent(), r) || exists|
                left: Option<AdmittedEvaluationSource>,
                slots: usize,
                page: Seq<Batch>,
                end: PageEnd,
            |
                {
                    &&& #[trigger] old(self).read(final(self).spent(), left, slots, page, end, r)
                    &&& r is Ok ==> final(self).source() == (if end is Full {
                        left
                    } else {
                        None
                    })
                    &&& r is Err ==> !(end is Full)
                },
    {
        let limits = self.limits;
        let requested: usize = match self.usage.begin_page(limits) {
            Ok(requested) => requested,
            Err(failure) => return Err(failure),
        };
        let mut batches: Vec<Batch> = Vec::new();
        let reserved = reserve_exact(&mut batches, limits.page.batches);
        let slots: usize = vec_capacity(&batches);
        let grant: Result<usize, String> = match reserved {
            Ok(()) => Ok(slots),
            Err(reason) => Err(reason),
        };
        let ghost given = grant;
        let mut progress = match PageProgress::open_sized(self.usage, requested, grant, limits) {
            Ok(progress) => progress,
            Err(failure) => {
                assert(old(self).opened(given) is Err);
                return Err(failure);
            },
        };
        self.usage = progress.usage;
        let ghost start = progress;
        assert(old(self).opened(Ok(slots)) == Ok::<PageProgress, Refusal>(start));
        assert(self.history() =~= old(self).history() + EvaluationReader::handed(
            batches@,
            PageEnd::Full,
        ));
        while batches.len() < limits.page.batches
            invariant
                self.limits == limits,
                limits == old(self).limits,
                self.failure == old(self).failure,
                self.source is Some,
                self.usage == progress.usage,
                self.history() == old(self).history() + EvaluationReader::handed(
                    batches@,
                    PageEnd::Full,
                ),
                batches@.len() <= limits.page.batches,
                old(self).opened(Ok(slots)) == Ok::<PageProgress, Refusal>(start),
                start.through(batches@, limits) == Ok::<PageProgress, ResourceExhausted>(progress),
            decreases limits.page.batches - batches@.len(),
        {
            match charge(progress.usage.batches, 1, limits.batches, Resource::EvaluationBatches) {
                Ok(_) => {},
                Err(error) => {
                    let r: Result<Option<EvaluationPage>, OperationFailure> = Err(
                        OperationFailure::exhausted(error),
                    );
                    assert(old(self).read(
                        self.spent(),
                        self.source(),
                        slots,
                        batches@,
                        PageEnd::PullRefused(error),
                        r,
                    ));
                    return r;
                },
            }
            let ghost page = batches@;
            let pull = self.pull();
            let ghost pulled = pull;
            let ghost left = self.source();
            match progress.take_pull(pull, &mut batches, limits) {
                Ok(true) => {
                    proof {
                        pulls_follow(pulled->0->Ok_0, page, old(self).history());
                    }
                    self.usage = progress.usage;
                },
                Ok(false) => {
                    self.source = None;
                    let r = EvaluationReader::deliver(batches, slots, progress.rows, progress.bytes);
                    proof {
                        assert(left->0.served() =~= old(self).history() + EvaluationReader::handed(
                            page,
                            PageEnd::Exhausted,
                        ));
                        assert(old(self).read(
                            self.spent(),
                            left,
                            slots,
                            page,
                            PageEnd::Exhausted,
                            r,
                        ));
                    }
                    return r;
                },
                Err(failure) => {
                    let r: Result<Option<EvaluationPage>, OperationFailure> = Err(failure);
                    proof {
                        let end = match pulled->0 {
                            Err(failure) => PageEnd::SourceFailed(failure),
                            Ok(batch) => PageEnd::BatchRefused(
                                pulled,
                                progress.admitted(
                                    batch.row_count(),
                                    batch.backing_charge(),
                                    limits,
                                )->Err_0,
                            ),
                        };
                        assert(left->0.served() =~= old(self).history() + EvaluationReader::handed(
                            page,
                            end,
                        ));
                        assert(old(self).read(self.spent(), left, slots, page, end, r));
                    }
                    return r;
                },
            }
        }
        let ghost page = batches@;
        let r = EvaluationReader::deliver(batches, slots, progress.rows, progress.bytes);
        assert(old(self).read(self.spent(), self.source(), slots, page, PageEnd::Full, r));
        r
    }

    fn deliver(batches: Vec<Batch>, slots: usize, rows: usize, bytes: usize) -> (r: Result<
        Option<EvaluationPage>,
        OperationFailure,
    >)
        ensures
            batches@.len() == 0 ==> r == Ok::<Option<EvaluationPage>, OperationFailure>(None),
            batches@.len() > 0 ==> (r matches Ok(Some(p)) && p.contents() == batches@ && p.container()
                == slots && p.row_total() == rows && p.byte_total() == bytes),
    {
        if batches.is_empty() {
            Ok(None)
        } else {
            Ok(Some(EvaluationPage { batches, slots, rows, bytes }))
        }
    }
}

/// A page that a reader delivers is within the page limits, and the reader stays within the
/// cumulative ones.
pub proof fn delivered_pages_are_within_limits(
    before: EvaluationReader,
    after: EvaluationReader,
    delivered: EvaluationPage,
)
    requires
        before.spent().within(before.bounds()),
        before.active(),
        before.ended() is None,
        before.pages(after, Ok(Some(delivered))),
    ensures
        delivered.contents().len() <= before.bounds().each().batch_cap(),
        delivered.row_total() <= before.bounds().each().row_cap(),
        delivered.byte_total() <= before.bounds().each().byte_cap(),
        after.spent().within(before.bounds()),
        before.spent().precedes(after.spent()),
{
    let (left, slots, page, end) = choose|
        left: Option<AdmittedEvaluationSource>,
        slots: usize,
        page: Seq<Batch>,
        end: PageEnd,
    | #[trigger]
        before.read(after.spent(), left, slots, page, end, Ok(Some(delivered)));
    let start = before.opened(Ok(slots))->Ok_0;
    progress_stays_within_limits(start, page, before.bounds());
}

proof fn progress_stays_within_limits(
    start: PageProgress,
    batches: Seq<Batch>,
    limits: EvaluationLimits,
)
    requires
        start.usage.within(limits),
        start.rows <= limits.each().row_cap(),
        start.bytes <= limits.each().byte_cap(),
    ensures
        start.through(batches, limits) matches Ok(progress) ==> progress.usage.within(limits)
            && progress.rows <= limits.each().row_cap() && progress.bytes
            <= limits.each().byte_cap() && start.usage.precedes(progress.usage),
    decreases batches.len(),
{
    if batches.len() > 0 {
        progress_stays_within_limits(start, batches.drop_last(), limits);
    }
}

/// Batches add to the page what they add to the cumulative usage, and begin no page.
proof fn progress_adds_up(start: PageProgress, batches: Seq<Batch>, limits: EvaluationLimits)
    ensures
        start.through(batches, limits) matches Ok(progress) ==> {
            &&& progress.usage.pages == start.usage.pages
            &&& progress.usage.batches == start.usage.batches + batches.len()
            &&& progress.usage.rows - start.usage.rows == progress.rows - start.rows
            &&& progress.usage.bytes - start.usage.bytes == progress.bytes - start.bytes
        },
    decreases batches.len(),
{
    if batches.len() > 0 {
        progress_adds_up(start, batches.drop_last(), limits);
    }
}

proof fn progress_only_grows(start: PageProgress, batches: Seq<Batch>, limits: EvaluationLimits)
    ensures
        start.through(batches, limits) matches Ok(progress) ==> start.usage.precedes(progress.usage),
    decreases batches.len(),
{
    if batches.len() > 0 {
        progress_only_grows(start, batches.drop_last(), limits);
    }
}

/// Whatever asking for a page gives, nothing that a reader has spent is given back.
pub proof fn readers_give_nothing_back(
    before: EvaluationReader,
    after: EvaluationReader,
    r: Result<Option<EvaluationPage>, OperationFailure>,
)
    requires
        before.pages(after, r),
    ensures
        before.spent().precedes(after.spent()),
{
    if before.ended() is None && before.active() && !before.refused(after.spent(), r) {
        let (left, slots, page, end) = choose|
            left: Option<AdmittedEvaluationSource>,
            slots: usize,
            page: Seq<Batch>,
            end: PageEnd,
        | #[trigger]
            before.read(after.spent(), left, slots, page, end, r);
        progress_only_grows(before.opened(Ok(slots))->Ok_0, page, before.bounds());
    }
}

/// A page that a reader delivers is what it spends: one page, the page's batches and rows, and its
/// bytes with the container. Its batches are the next ones that the source hands out, in order, and
/// a reader that keeps its source has pulled nothing else.
pub proof fn delivered_pages_are_spent(
    before: EvaluationReader,
    after: EvaluationReader,
    delivered: EvaluationPage,
)
    requires
        before.pages(after, Ok(Some(delivered))),
    ensures
        before.active(),
        after.spent() == (EvaluationUsage {
            pages: (before.spent().pages + 1) as usize,
            batches: (before.spent().batches + delivered.contents().len()) as usize,
            rows: (before.spent().rows + delivered.row_total()) as usize,
            bytes: (before.spent().bytes + delivered.byte_total()) as usize,
        }),
        before.spent().pages + 1 <= usize::MAX,
        before.spent().batches + delivered.contents().len() <= usize::MAX,
        before.spent().rows + delivered.row_total() <= usize::MAX,
        before.spent().bytes + delivered.byte_total() <= usize::MAX,
        after.active() ==> after.history() == before.history() + pulls_of(delivered.contents()),
        !after.active() ==> exists|left: Option<AdmittedEvaluationSource>|
            (#[trigger] left->0.served()) == (before.history() + pulls_of(delivered.contents())).push(
                None,
            ),
{
    let r = Ok::<Option<EvaluationPage>, OperationFailure>(Some(delivered));
    let (left, slots, page, end) = choose|
        left: Option<AdmittedEvaluationSource>,
        slots: usize,
        page: Seq<Batch>,
        end: PageEnd,
    |
        {
            &&& #[trigger] before.read(after.spent(), left, slots, page, end, r)
            &&& after.source() == (if end is Full {
                left
            } else {
                None
            })
        };
    progress_adds_up(before.opened(Ok(slots))->Ok_0, page, before.bounds());
    assert(end is Full || end is Exhausted);
    if end is Exhausted {
        assert(left->0.served() =~= (before.history() + pulls_of(delivered.contents())).push(None));
    }
}

/// The end of the stream is a page that was begun: it counts as one, with its container, and adds
/// no batch and no row. The only pull for it reported the end.
pub proof fn ends_are_spent(before: EvaluationReader, after: EvaluationReader)
    requires
        before.pages(after, Ok(None)),
        before.active(),
        before.bounds().each().batch_cap() > 0,
    ensures
        !after.active(),
        after.spent().pages == before.spent().pages + 1,
        after.spent().batches == before.spent().batches,
        after.spent().rows == before.spent().rows,
        exists|slots: usize|
            after.spent().bytes == before.spent().bytes + #[trigger] container_result(
                slots,
                before.bounds().each().byte_cap(),
            )->Ok_0,
        exists|left: Option<AdmittedEvaluationSource>|
            (#[trigger] left->0.served()) == before.history().push(None),
{
    let r = Ok::<Option<EvaluationPage>, OperationFailure>(None);
    let (left, slots, page, end) = choose|
        left: Option<AdmittedEvaluationSource>,
        slots: usize,
        page: Seq<Batch>,
        end: PageEnd,
    | #[trigger]
        before.read(after.spent(), left, slots, page, end, r);
    progress_adds_up(before.opened(Ok(slots))->Ok_0, page, before.bounds());
    assert(end is Exhausted);
    assert(page.len() == 0);
    assert(left->0.served() =~= before.history().push(None));
    let bytes = container_result(slots, before.bounds().each().byte_cap())->Ok_0;
    assert(after.spent().bytes == before.spent().bytes + bytes);
}

/// The readers are those of calls that delivered these pages, one after the other.
pub open spec fn delivered_in_turn(readers: Seq<EvaluationReader>, pages: Seq<EvaluationPage>) -> bool {
    &&& readers.len() == pages.len() + 1
    &&& forall|i: int|
        0 <= i < pages.len() ==> #[trigger] readers[i].pages(readers[i + 1], Ok(Some(pages[i])))
}

/// The batches of these pages, in order.
pub open spec fn batches_of(pages: Seq<EvaluationPage>) -> Seq<Batch>
    decreases pages.len(),
{
    if pages.len() == 0 {
        Seq::empty()
    } else {
        batches_of(pages.drop_last()) + pages.last().contents()
    }
}

/// The rows of these pages.
pub open spec fn rows_of(pages: Seq<EvaluationPage>) -> nat
    decreases pages.len(),
{
    if pages.len() == 0 {
        0
    } else {
        rows_of(pages.drop_last()) + pages.last().row_total() as nat
    }
}

/// The bytes of these pages, with their containers.
pub open spec fn bytes_of(pages: Seq<EvaluationPage>) -> nat
    decreases pages.len(),
{
    if pages.len() == 0 {
        0
    } else {
        bytes_of(pages.drop_last()) + pages.last().byte_total() as nat
    }
}

/// Over any number of pages a reader delivers the batches that its source hands out, in order, none
/// lost and none pulled ahead. What it has spent is what the pages hold, whether or not they were
/// released since.
pub proof fn readers_deliver_their_source(
    readers: Seq<EvaluationReader>,
    pages: Seq<EvaluationPage>,
)
    requires
        delivered_in_turn(readers, pages),
    ensures
        readers.last().active() ==> readers.last().history() == readers[0].history() + pulls_of(
            batches_of(pages),
        ),
        readers.last().spent().pages == readers[0].spent().pages + pages.len(),
        readers.last().spent().batches == readers[0].spent().batches + batches_of(pages).len(),
        readers.last().spent().rows == readers[0].spent().rows + rows_of(pages),
        readers.last().spent().bytes == readers[0].spent().bytes + bytes_of(pages),
    decreases pages.len(),
{
    if pages.len() == 0 {
        assert(readers.last().history() =~= readers[0].history() + pulls_of(batches_of(pages)));
    } else {
        let n = pages.len() as int;
        let earlier = readers.drop_last();
        let fewer = pages.drop_last();
        assert forall|i: int| 0 <= i < fewer.len() implies #[trigger] earlier[i].pages(
            earlier[i + 1],
            Ok(Some(fewer[i])),
        ) by {
            assert(readers[i].pages(readers[i + 1], Ok(Some(pages[i]))));
        }
        readers_deliver_their_source(earlier, fewer);
        assert(readers[n - 1].pages(readers[n - 1 + 1], Ok(Some(pages[n - 1]))));
        delivered_pages_are_spent(readers[n - 1], readers[n], pages[n - 1]);
        if readers.last().active() {
            pulls_concatenate(
                readers[0].history(),
                batches_of(fewer),
                pages[n - 1].contents(),
            );
        }
    }
}

proof fn pulls_concatenate<T, E>(earlier: Seq<Option<Result<T, E>>>, left: Seq<T>, right: Seq<T>)
    ensures
        earlier + pulls_of::<T, E>(left) + pulls_of::<T, E>(right) == earlier + pulls_of::<T, E>(
            left + right,
        ),
        (left + right).len() == left.len() + right.len(),
{
    assert(earlier + pulls_of::<T, E>(left) + pulls_of::<T, E>(right) =~= earlier + pulls_of::<T, E>(
        left + right,
    ));
}

/// The rows of the first `n` batches.
pub open spec fn rows_in(batches: Seq<Batch>, n: nat) -> nat
    decreases n,
{
    if n == 0 {
        0
    } else {
        rows_in(batches, (n - 1) as nat) + batches[n - 1].row_count() as nat
    }
}

/// The charges of the first `n` batches, which can all be counted.
pub open spec fn charges_in(batches: Seq<Batch>, n: nat) -> nat
    decreases n,
{
    if n == 0 {
        0
    } else {
        charges_in(batches, (n - 1) as nat) + batches[n - 1].backing_charge()->Ok_0 as nat
    }
}

/// Each of the first `n` batches can say what it charges.
pub open spec fn chargeable(batches: Seq<Batch>, n: nat) -> bool {
    forall|i: int| 0 <= i < n ==> (#[trigger] batches[i]).backing_charge() is Ok
}

proof fn totals_are_sums(batches: Seq<Batch>, n: nat, base: usize, limits: EvaluationPageLimits)
    requires
        base <= limits.byte_cap(),
    ensures
        page_totals(batches, n, base, limits) is Ok <==> {
            &&& chargeable(batches, n)
            &&& rows_in(batches, n) <= limits.row_cap()
            &&& base + charges_in(batches, n) <= limits.byte_cap()
        },
        page_totals(batches, n, base, limits) matches Ok((rows, bytes)) ==> rows == rows_in(
            batches,
            n,
        ) && bytes == base + charges_in(batches, n),
    decreases n,
{
    if n > 0 {
        totals_are_sums(batches, (n - 1) as nat, base, limits);
        if chargeable(batches, n) {
            assert(batches[n - 1].backing_charge() is Ok);
            assert(chargeable(batches, (n - 1) as nat));
        }
        if page_totals(batches, n, base, limits) is Ok {
            assert forall|i: int| 0 <= i < n implies (#[trigger] batches[i]).backing_charge()
                is Ok by {
                if i < n - 1 {
                    assert(chargeable(batches, (n - 1) as nat));
                } else {
                    assert(i == n - 1);
                }
            }
        }
    }
}

/// A page is admitted exactly where its batches are no more than allowed, can all be charged, and
/// their rows and their bytes with the container are within the page's limits. It then has the rows
/// and the bytes of all its batches, and the container's.
pub proof fn pages_are_admitted_by_their_sums(
    batches: Seq<Batch>,
    slots: usize,
    limits: EvaluationPageLimits,
)
    requires
        batches.len() <= usize::MAX,
    ensures
        page_result(batches, slots, limits) is Ok <==> {
            &&& batches.len() <= limits.batch_cap()
            &&& chargeable(batches, batches.len())
            &&& rows_in(batches, batches.len()) <= limits.row_cap()
            &&& slots * vstd::layout::size_of::<Batch>() + charges_in(batches, batches.len())
                <= limits.byte_cap()
        },
        page_result(batches, slots, limits) matches Ok((rows, bytes)) ==> {
            &&& rows == rows_in(batches, batches.len())
            &&& bytes == slots * vstd::layout::size_of::<Batch>() + charges_in(
                batches,
                batches.len(),
            )
        },
{
    if slots * vstd::layout::size_of::<Batch>() <= limits.byte_cap() {
        let base = (slots * vstd::layout::size_of::<Batch>()) as usize;
        totals_are_sums(batches, batches.len(), base, limits);
    }
}

/// Batches join a page exactly where they can all be charged and neither the page nor the evaluation
/// exceeds a limit with all of them. Their rows and charges are added to both.
pub proof fn batches_join_by_their_sums(
    start: PageProgress,
    batches: Seq<Batch>,
    limits: EvaluationLimits,
)
    ensures
        batches.len() > 0 ==> (start.through(batches, limits) is Ok <==> {
            &&& chargeable(batches, batches.len())
            &&& start.usage.batches + batches.len() <= limits.batch_cap()
            &&& start.rows + rows_in(batches, batches.len()) <= limits.each().row_cap()
            &&& start.bytes + charges_in(batches, batches.len()) <= limits.each().byte_cap()
            &&& start.usage.rows + rows_in(batches, batches.len()) <= limits.row_cap()
            &&& start.usage.bytes + charges_in(batches, batches.len()) <= limits.byte_cap()
        }),
        start.through(batches, limits) matches Ok(progress) ==> {
            &&& progress.rows == start.rows + rows_in(batches, batches.len())
            &&& progress.bytes == start.bytes + charges_in(batches, batches.len())
            &&& progress.usage.pages == start.usage.pages
            &&& progress.usage.batches == start.usage.batches + batches.len()
            &&& progress.usage.rows == start.usage.rows + rows_in(batches, batches.len())
            &&& progress.usage.bytes == start.usage.bytes + charges_in(batches, batches.len())
        },
    decreases batches.len(),
{
    if batches.len() > 0 {
        let n = batches.len();
        let rest = batches.drop_last();
        batches_join_by_their_sums(start, rest, limits);
        sums_of_prefixes(rest, batches, rest.len());
        assert forall|i: int| 0 <= i < rest.len() implies rest[i] == #[trigger] batches[i] by {}
        if chargeable(batches, n) {
            assert(batches[n - 1].backing_charge() is Ok);
            assert forall|i: int| 0 <= i < rest.len() implies (#[trigger] rest[i]).backing_charge()
                is Ok by {
                assert(batches[i].backing_charge() is Ok);
            }
        }
        if start.through(batches, limits) is Ok {
            assert forall|i: int| 0 <= i < n implies (#[trigger] batches[i]).backing_charge()
                is Ok by {
                if i < n - 1 {
                    assert(rest.len() > 0);
                    assert(rest[i].backing_charge() is Ok);
                } else {
                    assert(batches[i] == batches.last());
                }
            }
        }
    }
}

proof fn sums_of_prefixes(left: Seq<Batch>, right: Seq<Batch>, n: nat)
    requires
        n <= left.len() <= right.len(),
        forall|i: int| 0 <= i < left.len() ==> left[i] == #[trigger] right[i],
    ensures
        rows_in(left, n) == rows_in(right, n),
        charges_in(left, n) == charges_in(right, n),
    decreases n,
{
    if n > 0 {
        sums_of_prefixes(left, right, (n - 1) as nat);
        assert(left[n - 1] == right[n - 1]);
    }
}

/// A page is begun exactly where one more page, one more batch and the page's full container are
/// within the evaluation's limits, and the container within the page's. That container is charged
/// and the page counted, and nothing else.
pub proof fn pages_are_begun_within_their_limits(usage: EvaluationUsage, limits: EvaluationLimits)
    ensures
        ({
            let container = limits.each().batch_cap() * vstd::layout::size_of::<Batch>();
            &&& usage.begun(limits) is Ok <==> {
                &&& usage.pages + 1 <= limits.page_cap()
                &&& usage.batches + 1 <= limits.batch_cap()
                &&& container <= limits.each().byte_cap()
                &&& usage.bytes + container <= limits.byte_cap()
            }
            &&& usage.begun(limits) matches Ok((later, requested)) ==> {
                &&& requested == container
                &&& later.pages == usage.pages + 1
                &&& later.bytes == usage.bytes + container
                &&& later.batches == usage.batches
                &&& later.rows == usage.rows
            }
        }),
{
}

/// A host's page is recorded exactly where it is within the page's limits and what it adds is within
/// the evaluation's. It adds its batches, its rows, and its bytes without the part of its container
/// that was charged when the page was begun.
pub proof fn host_pages_are_recorded_within_their_limits(
    usage: EvaluationUsage,
    limits: EvaluationLimits,
    page: EvaluationPage,
)
    requires
        page.contents().len() <= usize::MAX,
    ensures
        ({
            let width = vstd::layout::size_of::<Batch>();
            let actual = page.container() * width;
            let reserved = limits.each().batch_cap() * width;
            let charged = if actual <= reserved {
                actual
            } else {
                reserved
            };
            &&& usage.recorded(limits, page) is Ok <==> {
                &&& page.contents().len() <= limits.each().batch_cap()
                &&& page.row_total() <= limits.each().row_cap()
                &&& page.byte_total() <= limits.each().byte_cap()
                &&& actual <= page.byte_total()
                &&& reserved <= limits.each().byte_cap()
                &&& usage.batches + page.contents().len() <= limits.batch_cap()
                &&& usage.rows + page.row_total() <= limits.row_cap()
                &&& usage.bytes + page.byte_total() - charged <= limits.byte_cap()
            }
            &&& usage.recorded(limits, page) matches Ok(later) ==> {
                &&& later.pages == usage.pages
                &&& later.batches == usage.batches + page.contents().len()
                &&& later.rows == usage.rows + page.row_total()
                &&& later.bytes == usage.bytes + page.byte_total() - charged
            }
        }),
{
    let width = vstd::layout::size_of::<Batch>();
    assert(page.container() * width >= 0) by (nonlinear_arith)
        requires
            width >= 0,
    ;
    assert(limits.each().batch_cap() * width >= 0) by (nonlinear_arith)
        requires
            width >= 0,
    ;
}

/// A delivered page has a batch, and no more than the page may have. It keeps the source exactly where
/// it is full.
pub proof fn delivered_pages_are_full_or_last(
    before: EvaluationReader,
    after: EvaluationReader,
    delivered: EvaluationPage,
)
    requires
        before.pages(after, Ok(Some(delivered))),
    ensures
        0 < delivered.contents().len() <= before.bounds().each().batch_cap(),
        after.active() <==> delivered.contents().len() == before.bounds().each().batch_cap(),
        after.ended() is None,
{
    let r = Ok::<Option<EvaluationPage>, OperationFailure>(Some(delivered));
    let (left, slots, page, end) = choose|
        left: Option<AdmittedEvaluationSource>,
        slots: usize,
        page: Seq<Batch>,
        end: PageEnd,
    |
        {
            &&& #[trigger] before.read(after.spent(), left, slots, page, end, r)
            &&& after.source() == (if end is Full {
                left
            } else {
                None
            })
        };
}

/// Limits of a page are accepted exactly where a page of them can make progress: it may have a batch
/// and a row, and its container can be represented and is within its bytes.
pub proof fn page_limits_make_progress(batches: usize, rows: usize, bytes: usize)
    ensures
        EvaluationPageLimits::progresses(batches, rows, bytes) <==> {
            &&& 1 <= batches
            &&& 1 <= rows
            &&& batches * vstd::layout::size_of::<Batch>() <= bytes
            &&& batches * vstd::layout::size_of::<Batch>() <= isize::MAX
        },
{
}

/// The limits of an evaluation are determined by their parts.
pub proof fn limit_parts(
    page: EvaluationPageLimits,
    pages: usize,
    batches: usize,
    rows: usize,
    bytes: usize,
)
    ensures
        EvaluationLimits::of(page, pages, batches, rows, bytes).each() == page,
        EvaluationLimits::of(page, pages, batches, rows, bytes).page_cap() == pages,
        EvaluationLimits::of(page, pages, batches, rows, bytes).batch_cap() == batches,
        EvaluationLimits::of(page, pages, batches, rows, bytes).row_cap() == rows,
        EvaluationLimits::of(page, pages, batches, rows, bytes).byte_cap() == bytes,
{
}

/// A page's container is granted exactly where it is no smaller than was asked for and within the page's
/// and the evaluation's bytes. What it has beyond the request is charged, and the page begins with it.
pub proof fn containers_are_granted_within_their_limits(
    usage: EvaluationUsage,
    requested: usize,
    slots: usize,
    limits: EvaluationLimits,
)
    ensures
        ({
            let bytes = slots * vstd::layout::size_of::<Batch>();
            let granted = PageProgress::granted(usage, requested, Ok(slots), limits);
            &&& granted is Ok <==> {
                &&& bytes <= limits.each().byte_cap()
                &&& requested <= bytes
                &&& usage.bytes + bytes - requested <= limits.byte_cap()
            }
            &&& granted matches Ok(progress) ==> {
                &&& progress.rows == 0
                &&& progress.bytes == bytes
                &&& progress.usage.bytes == usage.bytes + bytes - requested
                &&& progress.usage.pages == usage.pages
                &&& progress.usage.batches == usage.batches
                &&& progress.usage.rows == usage.rows
            }
        }),
{
}

} // verus!
