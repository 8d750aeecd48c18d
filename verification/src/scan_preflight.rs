//! What is checked of scan rows: borrowed cells before anything copies them, and the files that
//! they name.

use crate::accounting::{Resource, TaskAccounting, TaskLimits};
use crate::bytes::{begins, begins_with, byte_len, utf8};
use crate::checks::{exhausted, uncountable};
use crate::failure::{Error, FailureKind, OperationFailure};
use crate::json_url_allocation::{join_bytes, join_peak, join_steps, join_work};
use crate::ledger::{spend, LedgerView};
use crate::locations::{
    fragment_present, has_fragment, has_query, join_location, joined, query_present,
};
use crate::machine::semantic_work;
use crate::refusals::{told, Refusal};
use crate::rows::{outside, GetData, PageFault, Verdict};
use crate::sizing::fitted;
use crate::table::ScanRow;
use vstd::prelude::*;

verus! {

broadcast use {crate::ledger::semantic_work_chains, crate::ledger::idleness_is_semantic_work};

/// What a row gives.
pub enum RowOutcome {
    /// A cell could not be read.
    Fault(PageFault),
    /// The row is refused.
    Refused(Verdict),
    /// The row passes; resolving its path owns so many bytes.
    Passed(usize),
}

/// What the cells of a row give that decide whether it is supported: the bytes of its path.
///
/// Statistics and deletion vectors are refused first. Partition values are there and empty, the
/// path is not empty, the size is positive and the modification time is there.
pub open spec fn row_cells(getters: Seq<&dyn GetData>, row: usize) -> Result<
    Result<Seq<u8>, Verdict>,
    PageFault,
> {
    let malformed = Ok::<Result<Seq<u8>, Verdict>, PageFault>(
        Err(Verdict::Refused(FailureKind::MalformedResponse)),
    );
    let extras = Ok::<Result<Seq<u8>, Verdict>, PageFault>(
        Err(Verdict::Unsupported("stats and DVs are outside JSON operation tasks"@)),
    );
    match getters[3].text_at(row) {
        Err(error) => Err(PageFault::Cell(error)),
        Ok(Some(_)) => extras,
        Ok(None) => match getters[4].text_at(row) {
            Err(error) => Err(PageFault::Cell(error)),
            Ok(Some(_)) => extras,
            Ok(None) => match getters[9].map_at(row) {
                Err(error) => Err(PageFault::Cell(error)),
                Ok(None) => malformed,
                Ok(Some(map)) => if map.entries@.len() > 0 {
                    Ok(
                        Err(
                            Verdict::Unsupported(
                                "partitioned files are outside JSON operation tasks"@,
                            ),
                        ),
                    )
                } else {
                    file_cells(getters, row)
                },
            },
        },
    }
}

/// What the path, size and modification time of a row give.
pub open spec fn file_cells(getters: Seq<&dyn GetData>, row: usize) -> Result<
    Result<Seq<u8>, Verdict>,
    PageFault,
> {
    let malformed = Ok::<Result<Seq<u8>, Verdict>, PageFault>(
        Err(Verdict::Refused(FailureKind::MalformedResponse)),
    );
    match getters[0].text_at(row) {
        Err(error) => Err(PageFault::Cell(error)),
        Ok(None) => malformed,
        Ok(Some(path)) => if utf8(path@).len() == 0 {
            malformed
        } else {
            match getters[1].long_at(row) {
                Err(error) => Err(PageFault::Cell(error)),
                Ok(None) => malformed,
                Ok(Some(size)) => if size <= 0 {
                    malformed
                } else {
                    match getters[2].long_at(row) {
                        Err(error) => Err(PageFault::Cell(error)),
                        Ok(None) => malformed,
                        Ok(Some(_)) => Ok(Ok(utf8(path@))),
                    }
                },
            }
        },
    }
}

/// What resolving a path gives: the walk over it is charged before it is classified, and the whole
/// resolution before it runs.
pub open spec fn path_charged(path: Seq<u8>, root: usize, limits: TaskLimits, book: LedgerView) -> (
    Result<usize, FailureKind>,
    LedgerView,
) {
    let walked = book.charged(Resource::WorkUnits, path.len() as usize);
    if let Err(kind) = book.charge_result(Resource::WorkUnits, path.len() as usize) {
        (Err(kind), book)
    } else {
        match fitted(join_steps(root as nat, path) as int) {
            None => (Err(uncountable(limits, Resource::WorkUnits)), walked),
            Some(units) => {
                let charged = walked.charged(Resource::WorkUnits, units);
                if let Err(kind) = walked.charge_result(Resource::WorkUnits, units) {
                    (Err(kind), walked)
                } else {
                    match fitted((join_bytes(root as nat, path) + path.len()) as int) {
                        None => (Err(uncountable(limits, Resource::TaskStateBytes)), charged),
                        Some(peak) => (Ok(peak), charged),
                    }
                }
            },
        }
    }
}

/// What one row gives, with the ledger behind it.
pub open spec fn row_judged(
    getters: Seq<&dyn GetData>,
    row: usize,
    root: usize,
    limits: TaskLimits,
    book: LedgerView,
) -> (RowOutcome, LedgerView) {
    match row_cells(getters, row) {
        Err(fault) => (RowOutcome::Fault(fault), book),
        Ok(Err(verdict)) => (RowOutcome::Refused(verdict), book),
        Ok(Ok(path)) => match path_charged(path, root, limits, book) {
            (Err(kind), book) => (RowOutcome::Refused(Verdict::Refused(kind)), book),
            (Ok(peak), book) => (RowOutcome::Passed(peak), book),
        },
    }
}

/// What the rows from `row` on give, where `peak` is the most that the rows before them own: the
/// most that any row owns, or the first that is refused.
pub open spec fn rows_judged(
    getters: Seq<&dyn GetData>,
    row: usize,
    rows: usize,
    root: usize,
    limits: TaskLimits,
    peak: usize,
    book: LedgerView,
) -> (Result<Result<usize, Verdict>, PageFault>, LedgerView)
    decreases rows - row,
{
    if row >= rows {
        (Ok(Ok(peak)), book)
    } else {
        match row_judged(getters, row, root, limits, book) {
            (RowOutcome::Fault(fault), book) => (Err(fault), book),
            (RowOutcome::Refused(verdict), book) => (Ok(Err(verdict)), book),
            (RowOutcome::Passed(own), book) => rows_judged(
                getters,
                (row + 1) as usize,
                rows,
                root,
                limits,
                if own >= peak {
                    own
                } else {
                    peak
                },
                book,
            ),
        }
    }
}

/// The most that any row from `row` on owns, and not less than `peak`, up to the first row that does
/// not pass.
pub open spec fn peak_reached(
    getters: Seq<&dyn GetData>,
    row: usize,
    rows: usize,
    root: usize,
    limits: TaskLimits,
    peak: usize,
    book: LedgerView,
) -> usize
    decreases rows - row,
{
    if row >= rows {
        peak
    } else {
        match row_judged(getters, row, root, limits, book) {
            (RowOutcome::Passed(own), book) => peak_reached(
                getters,
                (row + 1) as usize,
                rows,
                root,
                limits,
                if own >= peak {
                    own
                } else {
                    peak
                },
                book,
            ),
            _ => peak,
        }
    }
}

/// What a page of scan rows gives.
pub open spec fn scan_page(
    rows: usize,
    getters: Seq<&dyn GetData>,
    root: usize,
    limits: TaskLimits,
    peak: usize,
    book: LedgerView,
) -> (Result<Result<usize, Verdict>, PageFault>, LedgerView) {
    if getters.len() != 14 {
        (Err(PageFault::Shape("malformed scan metadata page"@)), book)
    } else {
        rows_judged(getters, 0, rows, root, limits, peak, book)
    }
}

/// Visits the borrowed columns of a page of scan rows, before anything copies statistics, deletion
/// vectors or paths.
pub struct ScanPreflight {
    /// The bytes of the table's root.
    pub root_bytes: usize,
    /// The most that resolving one row's path owns.
    pub row_peak: usize,
    /// The allowances.
    pub limits: TaskLimits,
    /// Why the page is refused.
    pub failure: Option<OperationFailure>,
}

fn read_file_cells<'a>(getters: &Vec<&'a dyn GetData>, row: usize) -> (r: Result<
    Result<&'a str, OperationFailure>,
    Error,
>)
    requires
        getters@.len() == 14,
    ensures
        match file_cells(getters@, row) {
            Err(fault) => r matches Err(error) && fault.reported(error),
            Ok(Err(verdict)) => r matches Ok(Err(failure)) && verdict.delivered(Some(failure))
                && !(verdict is Pass),
            Ok(Ok(path)) => r matches Ok(Ok(text)) && utf8(text@) == path,
        },
{
    let path = match getters[0].get_str(row, "scanFile.path") {
        Err(error) => return Err(error),
        Ok(None) => return Ok(Err(OperationFailure::malformed_response())),
        Ok(Some(path)) => path,
    };
    if byte_len(path) == 0 {
        return Ok(Err(OperationFailure::malformed_response()));
    }
    match getters[1].get_long(row, "scanFile.size") {
        Err(error) => return Err(error),
        Ok(None) => return Ok(Err(OperationFailure::malformed_response())),
        Ok(Some(size)) => {
            if size <= 0 {
                return Ok(Err(OperationFailure::malformed_response()));
            }
        },
    }
    match getters[2].get_long(row, "add.modificationTime") {
        Err(error) => Err(error),
        Ok(None) => Ok(Err(OperationFailure::malformed_response())),
        Ok(Some(_)) => Ok(Ok(path)),
    }
}

fn read_cells<'a>(getters: &Vec<&'a dyn GetData>, row: usize) -> (r: Result<
    Result<&'a str, OperationFailure>,
    Error,
>)
    requires
        getters@.len() == 14,
    ensures
        match row_cells(getters@, row) {
            Err(fault) => r matches Err(error) && fault.reported(error),
            Ok(Err(verdict)) => r matches Ok(Err(failure)) && verdict.delivered(Some(failure))
                && !(verdict is Pass),
            Ok(Ok(path)) => r matches Ok(Ok(text)) && utf8(text@) == path,
        },
{
    match getters[3].get_str(row, "scanFile.stats") {
        Err(error) => return Err(error),
        Ok(Some(_)) => {
            return Ok(Err(outside("stats and DVs are outside JSON operation tasks")));
        },
        Ok(None) => {},
    }
    match getters[4].get_str(row, "scanFile.deletionVector.storageType") {
        Err(error) => return Err(error),
        Ok(Some(_)) => {
            return Ok(Err(outside("stats and DVs are outside JSON operation tasks")));
        },
        Ok(None) => {},
    }
    match getters[9].get_map(row, "scanFile.fileConstantValues.partitionValues") {
        Err(error) => return Err(error),
        Ok(None) => return Ok(Err(OperationFailure::malformed_response())),
        Ok(Some(map)) => {
            if map.entries.len() > 0 {
                return Ok(Err(outside("partitioned files are outside JSON operation tasks")));
            }
        },
    }
    read_file_cells(getters, row)
}

impl ScanPreflight {
    fn charge_path(&self, path: &str, accounting: &mut TaskAccounting) -> (r: Result<
        usize,
        OperationFailure,
    >)
        ensures
            ({
                let (expected, book) = path_charged(
                    utf8(path@),
                    self.root_bytes,
                    self.limits,
                    old(accounting).book(),
                );
                crate::checks::outcome(expected, r) && final(accounting).book() == book
            }),
            semantic_work(*old(accounting), *final(accounting)),
    {
        let length: usize = byte_len(path);
        match spend(accounting, Resource::WorkUnits, length) {
            Ok(()) => {},
            Err(failure) => return Err(failure),
        }
        let units: usize = match join_work(self.root_bytes, path) {
            Some(units) => units,
            None => return Err(exhausted(Resource::WorkUnits, &self.limits)),
        };
        match spend(accounting, Resource::WorkUnits, units) {
            Ok(()) => {},
            Err(failure) => return Err(failure),
        }
        match join_peak(self.root_bytes, path) {
            Some(peak) => match peak.checked_add(length) {
                Some(peak) => Ok(peak),
                None => Err(exhausted(Resource::TaskStateBytes, &self.limits)),
            },
            None => Err(exhausted(Resource::TaskStateBytes, &self.limits)),
        }
    }

    /// Visits the page. A refused row ends the visit and is kept as the failure; any other visit
    /// leaves the failure as it was.
    pub fn visit(
        &mut self,
        rows: usize,
        getters: &Vec<&dyn GetData>,
        accounting: &mut TaskAccounting,
    ) -> (r: Result<(), Error>)
        ensures
            final(self).root_bytes == old(self).root_bytes,
            final(self).limits == old(self).limits,
            ({
                let (expected, book) = scan_page(
                    rows,
                    getters@,
                    old(self).root_bytes,
                    old(self).limits,
                    old(self).row_peak,
                    old(accounting).book(),
                );
                &&& final(accounting).book() == book
                &&& match expected {
                    Err(fault) => {
                        &&& r matches Err(error) && fault.reported(error)
                        &&& final(self).failure == old(self).failure
                    },
                    Ok(Err(verdict)) => r is Ok && verdict.delivered(final(self).failure)
                        && !(verdict is Pass),
                    Ok(Ok(peak)) => {
                        &&& r is Ok
                        &&& final(self).failure == old(self).failure
                        &&& final(self).row_peak == peak
                    },
                }
                &&& final(self).row_peak == (if getters@.len() != 14 {
                    old(self).row_peak
                } else {
                    peak_reached(
                        getters@,
                        0,
                        rows,
                        old(self).root_bytes,
                        old(self).limits,
                        old(self).row_peak,
                        old(accounting).book(),
                    )
                })
            }),
            semantic_work(*old(accounting), *final(accounting)),
    {
        if getters.len() != 14 {
            return Err(Error::generic("malformed scan metadata page"));
        }
        let mut row: usize = 0;
        while row < rows
            invariant
                row <= rows,
                getters@.len() == 14,
                self.root_bytes == old(self).root_bytes,
                self.limits == old(self).limits,
                self.failure == old(self).failure,
                semantic_work(*old(accounting), *accounting),
                rows_judged(
                    getters@,
                    0,
                    rows,
                    old(self).root_bytes,
                    old(self).limits,
                    old(self).row_peak,
                    old(accounting).book(),
                ) == rows_judged(
                    getters@,
                    row,
                    rows,
                    self.root_bytes,
                    self.limits,
                    self.row_peak,
                    accounting.book(),
                ),
                peak_reached(
                    getters@,
                    0,
                    rows,
                    old(self).root_bytes,
                    old(self).limits,
                    old(self).row_peak,
                    old(accounting).book(),
                ) == peak_reached(
                    getters@,
                    row,
                    rows,
                    self.root_bytes,
                    self.limits,
                    self.row_peak,
                    accounting.book(),
                ),
            decreases rows - row,
        {
            let path = match read_cells(getters, row) {
                Err(error) => return Err(error),
                Ok(Err(failure)) => {
                    self.failure = Some(failure);
                    return Ok(());
                },
                Ok(Ok(path)) => path,
            };
            match self.charge_path(path, accounting) {
                Ok(peak) => {
                    if peak >= self.row_peak {
                        self.row_peak = peak;
                    }
                },
                Err(failure) => {
                    self.failure = Some(failure);
                    return Ok(());
                },
            }
            row += 1;
        }
        Ok(())
    }
}

/// The path is resolved to a plain location under the root.
pub open spec fn inside(root: Seq<char>, path: Seq<char>) -> bool {
    &&& joined(root, path) matches Some(location)
    &&& query_present(location) == Some(false)
    &&& fragment_present(location) == Some(false)
    &&& begins(utf8(location), utf8(root))
}

/// A file has a deletion vector, a transform or partition values.
pub open spec fn file_unsupported(file: ScanRow) -> bool {
    file.has_deletion_vector || file.has_transform || file.partition_values > 0
}

/// A file has no path, no size or a location outside the root.
pub open spec fn file_malformed(root: Seq<char>, file: ScanRow) -> bool {
    utf8(file.path@).len() == 0 || file.size <= 0 || !inside(root, file.path@)
}

/// What the files of a batch give: an unsupported file comes before a malformed one, wherever they
/// stand.
pub open spec fn files_judged(root: Seq<char>, files: Seq<ScanRow>) -> Result<(), Refusal> {
    if exists|i: int| 0 <= i < files.len() && file_unsupported(#[trigger] files[i]) {
        Err(
            Refusal::Unsupported(
                "DVs, partitions and row transforms are outside JSON operation tasks"@,
            ),
        )
    } else if exists|i: int| 0 <= i < files.len() && file_malformed(root, #[trigger] files[i]) {
        Err(Refusal::Kind(FailureKind::MalformedResponse))
    } else {
        Ok(())
    }
}

fn is_inside(root: &str, path: &str) -> (r: bool)
    ensures
        r == inside(root@, path@),
{
    match join_location(root, path) {
        None => false,
        Some(location) => {
            let query = has_query(location.as_str());
            let fragment = has_fragment(location.as_str());
            query == Some(false) && fragment == Some(false) && begins_with(
                location.as_str(),
                root,
            )
        },
    }
}

/// What was found of the files so far.
pub struct Validation<'a> {
    /// The table's root, as canonical URL text.
    pub root: &'a str,
    /// A file is unsupported.
    pub unsupported: bool,
    /// A file is malformed.
    pub malformed: bool,
}

/// Validates one file.
pub fn validate_file(context: &mut Validation, file: &ScanRow)
    ensures
        final(context).root == old(context).root,
        final(context).unsupported == (old(context).unsupported || file_unsupported(*file)),
        final(context).malformed == (old(context).malformed || file_malformed(
            old(context).root@,
            *file,
        )),
{
    if file.has_deletion_vector || file.has_transform || file.partition_values > 0 {
        context.unsupported = true;
    }
    let confined = is_inside(context.root, file.path.as_str());
    if byte_len(file.path.as_str()) == 0 || file.size <= 0 || !confined {
        context.malformed = true;
    }
}

/// Validates the files of a batch.
pub fn validate_files(root: &str, files: &Vec<ScanRow>) -> (r: Result<(), OperationFailure>)
    ensures
        told(files_judged(root@, files@), r),
{
    let mut context = Validation { root, unsupported: false, malformed: false };
    let mut i: usize = 0;
    while i < files.len()
        invariant
            i <= files@.len(),
            context.root == root,
            context.unsupported == exists|j: int|
                0 <= j < i && file_unsupported(#[trigger] files@[j]),
            context.malformed == exists|j: int|
                0 <= j < i && file_malformed(root@, #[trigger] files@[j]),
        decreases files@.len() - i,
    {
        let ghost before = context;
        validate_file(&mut context, &files[i]);
        assert(context.unsupported == exists|j: int|
            0 <= j < i + 1 && file_unsupported(#[trigger] files@[j])) by {
            if file_unsupported(files@[i as int]) {
            }
        }
        assert(context.malformed == exists|j: int|
            0 <= j < i + 1 && file_malformed(root@, #[trigger] files@[j])) by {
            if file_malformed(root@, files@[i as int]) {
            }
        }
        i += 1;
    }
    if context.unsupported {
        return Err(outside("DVs, partitions and row transforms are outside JSON operation tasks"));
    }
    if context.malformed {
        return Err(OperationFailure::malformed_response());
    }
    Ok(())
}

/// Files that pass are plain, have a path and a size, and lie under the root.
pub proof fn validated_files_are_confined(root: Seq<char>, files: Seq<ScanRow>, i: int)
    requires
        files_judged(root, files) is Ok,
        0 <= i < files.len(),
    ensures
        !files[i].has_deletion_vector,
        !files[i].has_transform,
        files[i].partition_values == 0,
        files[i].size > 0,
        utf8(files[i].path@).len() > 0,
        inside(root, files[i].path@),
{
    assert(!file_unsupported(files[i]));
    assert(!file_malformed(root, files[i]));
}

/// The files of a batch are accepted exactly where each is plain, has a path and a size, and resolves
/// to a location under the root that has neither query nor fragment.
pub proof fn plain_files_are_accepted(root: Seq<char>, files: Seq<ScanRow>)
    ensures
        files_judged(root, files) is Ok <==> forall|i: int|
            0 <= i < files.len() ==> {
                let file = #[trigger] files[i];
                &&& !file.has_deletion_vector
                &&& !file.has_transform
                &&& file.partition_values == 0
                &&& file.size > 0
                &&& file.path@.len() > 0
                &&& joined(root, file.path@) matches Some(location)
                &&& query_present(location) == Some(false)
                &&& fragment_present(location) == Some(false)
                &&& exists|rest: Seq<u8>| utf8(location) == #[trigger] (utf8(root) + rest)
            },
{
    assert forall|i: int| 0 <= i < files.len() implies {
        let file = #[trigger] files[i];
        &&& (utf8(file.path@).len() == 0) == (file.path@.len() == 0)
        &&& joined(root, file.path@) matches Some(location) ==> (begins(utf8(location), utf8(root))
            <==> exists|rest: Seq<u8>| utf8(location) == #[trigger] (utf8(root) + rest))
    } by {
        texts_and_bytes(files[i].path@);
        if let Some(location) = joined(root, files[i].path@) {
            crate::bytes::beginnings_are_prefixes(utf8(location), utf8(root));
        }
    }
    if files_judged(root, files) is Ok {
        assert forall|i: int| 0 <= i < files.len() implies !file_unsupported(#[trigger] files[i])
            && !file_malformed(root, files[i]) by {}
    }
}

/// Which refusal a batch meets: a deletion vector, a transform or partition values anywhere in it are
/// outside the supported subset, and only a batch without them is malformed.
pub proof fn unsupported_files_come_first(root: Seq<char>, files: Seq<ScanRow>)
    ensures
        files_judged(root, files) matches Err(refusal) ==> if exists|i: int|
            0 <= i < files.len() && ((#[trigger] files[i]).has_deletion_vector
                || files[i].has_transform || files[i].partition_values != 0) {
            refusal is Unsupported
        } else {
            refusal == Refusal::Kind(FailureKind::MalformedResponse)
        },
{
    if exists|i: int|
        0 <= i < files.len() && ((#[trigger] files[i]).has_deletion_vector
            || files[i].has_transform || files[i].partition_values != 0) {
        let i = choose|i: int|
            0 <= i < files.len() && ((#[trigger] files[i]).has_deletion_vector
                || files[i].has_transform || files[i].partition_values != 0);
        assert(file_unsupported(files[i]));
    }
}

proof fn texts_and_bytes(text: Seq<char>)
    ensures
        (utf8(text).len() == 0) == (text.len() == 0),
{
    if text.len() > 0 {
        vstd::utf8::encode_utf8_first_scalar(text);
        vstd::utf8::encode_utf8_decode_utf8(text);
    }
}

/// The cells of a row pass exactly where the file has no statistics and no deletion vector, a map of
/// partition values that is empty, a path that is not, a positive size and a time. Its path is what
/// passes on.
pub proof fn plain_rows_pass(getters: Seq<&dyn GetData>, row: usize)
    ensures
        (row_cells(getters, row) matches Ok(Ok(_))) <==> {
            &&& getters[3].text_at(row) matches Ok(None)
            &&& getters[4].text_at(row) matches Ok(None)
            &&& getters[9].map_at(row) matches Ok(Some(map))
            &&& map.entries@.len() == 0
            &&& getters[0].text_at(row) matches Ok(Some(path))
            &&& utf8(path@).len() > 0
            &&& getters[1].long_at(row) matches Ok(Some(size))
            &&& size > 0
            &&& getters[2].long_at(row) matches Ok(Some(_))
        },
        row_cells(getters, row) matches Ok(Ok(bytes)) ==> {
            &&& getters[0].text_at(row) matches Ok(Some(path))
            &&& bytes == utf8(path@)
        },
{
}

/// A path is charged exactly where its bytes and the work of joining it are within the allowance, and
/// the join with its copy can be counted. Just that work is charged.
pub proof fn paths_are_charged_by_their_joins(
    path: Seq<u8>,
    root: usize,
    limits: TaskLimits,
    book: LedgerView,
)
    requires
        path.len() <= usize::MAX,
    ensures
        ({
            let (charged, after) = path_charged(path, root, limits, book);
            let work = path.len() + join_steps(root as nat, path);
            let peak = join_bytes(root as nat, path) + path.len();
            &&& charged is Ok <==> {
                &&& book.spent(Resource::WorkUnits) + work <= book.limits.allowance(
                    Resource::WorkUnits,
                )
                &&& peak <= usize::MAX
            }
            &&& charged matches Ok(counted) ==> {
                &&& counted == peak
                &&& after.spent(Resource::WorkUnits) == book.spent(Resource::WorkUnits) + work
                &&& after.limits == book.limits
            }
        }),
{
    crate::ledger::books_take_charges_up_to_their_allowance(
        book,
        Resource::WorkUnits,
        path.len() as usize,
        Resource::TaskStateBytes,
    );
    let steps = join_steps(root as nat, path);
    if steps <= usize::MAX {
        crate::ledger::books_take_charges_up_to_their_allowance(
            book.charged(Resource::WorkUnits, path.len() as usize),
            Resource::WorkUnits,
            steps as usize,
            Resource::TaskStateBytes,
        );
    }
}

/// The path of a row that passes.
pub open spec fn row_path(getters: Seq<&dyn GetData>, row: usize) -> Seq<u8> {
    match row_cells(getters, row) {
        Ok(Ok(path)) => path,
        _ => Seq::empty(),
    }
}

/// The work of the rows from one on: the bytes of every path, and the work of joining it.
pub open spec fn rows_work(getters: Seq<&dyn GetData>, row: usize, rows: usize, root: usize) -> nat
    decreases rows - row,
{
    if row >= rows {
        0
    } else {
        let path = row_path(getters, row);
        path.len() + join_steps(root as nat, path) + rows_work(
            getters,
            (row + 1) as usize,
            rows,
            root,
        )
    }
}

/// The cells of a row pass, and the join of its path can be counted.
pub open spec fn row_passes(getters: Seq<&dyn GetData>, row: usize, root: usize) -> bool {
    &&& row_cells(getters, row) matches Ok(Ok(path))
    &&& join_bytes(root as nat, path) + path.len() <= usize::MAX
}

/// The rows of a page pass together exactly where the cells of each pass, the join of each path can be
/// counted, and the work of all is within the allowance. The peak is then no less than any join, and
/// no row is left out.
pub proof fn pages_pass_with_every_row(
    getters: Seq<&dyn GetData>,
    row: usize,
    rows: usize,
    root: usize,
    limits: TaskLimits,
    peak: usize,
    book: LedgerView,
)
    requires
        forall|i: usize| row <= i < rows ==> (#[trigger] row_path(getters, i)).len() <= usize::MAX,
        book.spent(Resource::WorkUnits) <= book.limits.allowance(Resource::WorkUnits),
    ensures
        ({
            let (judged, after) = rows_judged(getters, row, rows, root, limits, peak, book);
            &&& (judged matches Ok(Ok(_))) <==> {
                &&& forall|i: usize| row <= i < rows ==> #[trigger] row_passes(getters, i, root)
                &&& book.spent(Resource::WorkUnits) + rows_work(getters, row, rows, root)
                    <= book.limits.allowance(Resource::WorkUnits)
            }
            &&& judged matches Ok(Ok(most)) ==> {
                &&& most >= peak
                &&& forall|i: usize|
                    row <= i < rows ==> most >= join_bytes(
                        root as nat,
                        #[trigger] row_path(getters, i),
                    ) + row_path(getters, i).len()
                &&& after.spent(Resource::WorkUnits) == book.spent(Resource::WorkUnits)
                    + rows_work(getters, row, rows, root)
            }
        }),
    decreases rows - row,
{
    if row < rows {
        let path = row_path(getters, row);
        let next = (row + 1) as usize;
        let (judged, _) = rows_judged(getters, row, rows, root, limits, peak, book);
        match row_cells(getters, row) {
            Ok(Ok(bytes)) => {
                assert(bytes == path);
                paths_are_charged_by_their_joins(path, root, limits, book);
                let (charged, after) = path_charged(path, root, limits, book);
                match charged {
                    Ok(own) => {
                        let most = if own >= peak {
                            own
                        } else {
                            peak
                        };
                        pages_pass_with_every_row(getters, next, rows, root, limits, most, after);
                        assert(judged == rows_judged(
                            getters,
                            next,
                            rows,
                            root,
                            limits,
                            most,
                            after,
                        ).0);
                        assert(row_passes(getters, row, root));
                        assert((forall|i: usize|
                            row <= i < rows ==> #[trigger] row_passes(getters, i, root)) <==> (
                        forall|i: usize|
                            next <= i < rows ==> #[trigger] row_passes(getters, i, root)));
                    },
                    Err(_) => {
                        assert(!(judged matches Ok(Ok(_))));
                        assert(row_passes(getters, row, root) ==> join_bytes(root as nat, path)
                            + path.len() <= usize::MAX);
                    },
                }
            },
            _ => {
                assert(!row_passes(getters, row, root));
                assert(!(judged matches Ok(Ok(_))));
            },
        }
    }
}

} // verus!
