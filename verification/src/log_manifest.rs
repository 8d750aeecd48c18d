//! The identities of one complete JSON history.

use crate::accounting::{Resource, TaskLimits};
use crate::backing::{strip_prefix, text_capacity, vec_capacity};
use crate::bytes::{begins, byte_len, ends_in_slash, is_directory, same_text, utf8};
use crate::checks::{allowed, check, counted, exhausted, outcome, uncountable};
use crate::failure::{Error, FailureKind, OperationFailure};
use crate::locations::{join_location, joined, read_root, root_facts, RootFacts};
use crate::plan::FileMeta;
use crate::protocol::FileDescriptor;
use crate::sizing::{fitted, plus, size, text_bytes, text_total, vector_bytes, vector_of};
use crate::table::{LogSegment, ParsedLogPath};
use vstd::arithmetic::overflow::CheckedUsize;
use vstd::layout::size_of;
use vstd::prelude::*;

verus! {

/// The bytes of a commit's file name: twenty digits and the suffix.
pub const COMMIT_NAME_BYTES: usize = 25;

/// The number that decimal digits write.
pub open spec fn decimal_value(digits: Seq<u8>) -> nat
    decreases digits.len(),
{
    if digits.len() == 0 {
        0
    } else {
        10 * decimal_value(digits.drop_last()) + (digits.last() - 48) as nat
    }
}

/// All bytes are decimal digits.
pub open spec fn all_digits(bytes: Seq<u8>) -> bool {
    forall|i: int| 0 <= i < bytes.len() ==> 48 <= #[trigger] bytes[i] <= 57
}

/// The version that a file name writes, where it is a canonical commit name.
pub open spec fn name_version(name: Seq<u8>) -> Option<u64> {
    let digits = name.subrange(0, 20);
    if name.len() == 25 && name.subrange(20, 25) == utf8(".json"@) && all_digits(digits)
        && decimal_value(digits) <= u64::MAX {
        Some(decimal_value(digits) as u64)
    } else {
        None
    }
}

/// The version of an immediate child of the root, where its name is a canonical commit name.
pub open spec fn version_of(root: Seq<u8>, path: Seq<u8>) -> Option<u64> {
    if begins(path, root) {
        name_version(path.subrange(root.len() as int, path.len() as int))
    } else {
        None
    }
}

/// Parses only canonical, immediate-child, twenty-digit JSON commit names without allocating.
pub fn commit_version(root: &str, path: &str) -> (r: Option<u64>)
    ensures
        r == version_of(utf8(root@), utf8(path@)),
{
    match crate::bytes::strip(path, root) {
        Some(name) => parse_name(name),
        None => None,
    }
}

fn parse_name(name: &[u8]) -> (r: Option<u64>)
    ensures
        r == name_version(name@),
{
    if name.len() != 25 {
        return None;
    }
    let suffix = ".json".as_bytes();
    let mut i: usize = 20;
    if suffix.len() != 5 {
        assert(name@.subrange(20, 25) != suffix@);
        return None;
    }
    while i < 25
        invariant
            20 <= i <= 25,
            name@.len() == 25,
            suffix@.len() == 5,
            suffix@ == utf8(".json"@),
            forall|j: int| 20 <= j < i ==> #[trigger] name@[j] == suffix@[j - 20],
        decreases 25 - i,
    {
        if name[i] != suffix[i - 20] {
            assert(name@.subrange(20, 25)[i - 20] != suffix@[i - 20]);
            return None;
        }
        i += 1;
    }
    assert(name@.subrange(20, 25) =~= suffix@);
    let ghost digits = name@.subrange(0, 20);
    let mut version: u64 = 0;
    let mut k: usize = 0;
    while k < 20
        invariant
            k <= 20,
            name@.len() == 25,
            digits == name@.subrange(0, 20),
            name@.subrange(20, 25) == utf8(".json"@),
            all_digits(digits.take(k as int)),
            version == decimal_value(digits.take(k as int)),
        decreases 20 - k,
    {
        let digit: u8 = name[k];
        proof {
            assert(digits[k as int] == digit);
            assert(digits.take(k + 1).drop_last() =~= digits.take(k as int));
            assert(digits.take(k + 1).last() == digit);
        }
        if digit < 48 || digit > 57 {
            assert(!all_digits(digits));
            return None;
        }
        let shifted: u64 = match version.checked_mul(10) {
            Some(shifted) => shifted,
            None => {
                proof {
                    values_grow(digits, (k + 1) as nat);
                }
                return None;
            },
        };
        version = match shifted.checked_add((digit - 48) as u64) {
            Some(version) => version,
            None => {
                proof {
                    values_grow(digits, (k + 1) as nat);
                }
                return None;
            },
        };
        assert(all_digits(digits.take(k + 1)));
        k += 1;
    }
    assert(digits.take(20) =~= digits);
    Some(version)
}

/// More digits write a larger number.
proof fn values_grow(digits: Seq<u8>, n: nat)
    requires
        n <= digits.len(),
    ensures
        all_digits(digits) ==> decimal_value(digits.take(n as int)) <= decimal_value(digits),
    decreases digits.len() - n,
{
    if n < digits.len() {
        values_grow(digits, n + 1);
        assert(digits.take((n + 1) as int).drop_last() =~= digits.take(n as int));
    } else {
        assert(digits.take(n as int) =~= digits);
    }
}

/// What a manifest holds.
pub struct ManifestView {
    /// The log directory.
    pub log_root: Seq<char>,
    /// The commits, in ascending order.
    pub files: Seq<FileDescriptor>,
    /// The last version.
    pub version: u64,
    /// What the manifest retains, as it was charged.
    pub retained_bytes: usize,
}

impl ManifestView {
    /// A manifest's invariant: the files of a directory are the commits of every version from zero
    /// on, in order.
    pub open spec fn wf(self) -> bool {
        &&& is_directory(utf8(self.log_root))
        &&& self.files.len() > 0
        &&& self.files.len() == self.version + 1
        &&& forall|i: int|
            0 <= i < self.files.len() ==> version_of(
                utf8(self.log_root),
                utf8((#[trigger] self.files[i]).path@),
            ) == Some(i as u64)
    }

    /// The bytes of all paths, or none where the machine cannot hold them.
    pub open spec fn path_total(self) -> Option<usize> {
        if utf8(self.log_root).len() + 25 > usize::MAX {
            None
        } else {
            fitted(((utf8(self.log_root).len() + 25) * self.files.len()) as int)
        }
    }

    /// The owners of the first `n` commits of a segment.
    pub open spec fn commit_owners(self, n: nat) -> nat
        decreases n,
    {
        if n == 0 {
            0
        } else {
            self.commit_owners((n - 1) as nat) + text_bytes(utf8(self.files[n - 1].path@).len()) + 29
                + vector_bytes(size_of::<&str>(), 1)
        }
    }

    /// The owners of the canonical segment: the commits, the log root, and the clone of the last
    /// commit.
    pub open spec fn segment_owners(self) -> nat {
        vector_bytes(size_of::<ParsedLogPath>(), self.files.len()) + text_bytes(
            utf8(self.log_root).len(),
        ) + size_of::<LogSegment>() + self.commit_owners(self.files.len()) + (if self.files.len()
            == 0 {
            0
        } else {
            utf8(self.files.last().path@).len() + 29
        })
    }

    /// What admitting the segment gives.
    pub open spec fn segment_admitted(self, limits: TaskLimits) -> Result<usize, FailureKind> {
        match fitted(self.segment_owners() as int) {
            None => Err(uncountable(limits, Resource::TaskStateBytes)),
            Some(peak) => match allowed(limits, Resource::TaskStateBytes, peak as int) {
                Err(kind) => Err(kind),
                Ok(()) => match allowed(limits, Resource::MetadataAllocatedBytes, peak as int) {
                    Err(kind) => Err(kind),
                    Ok(()) => Ok(peak),
                },
            },
        }
    }

    /// The table root is a plain directory URL, and the log directory is its immediate child.
    pub open spec fn rooted(self, root: Seq<char>) -> bool {
        &&& root_facts(root) == Some(
            RootFacts { query: false, fragment: false, opaque: false, directory: true },
        )
        &&& begins(utf8(self.log_root), utf8(root))
        &&& utf8(self.log_root).subrange(
            utf8(root).len() as int,
            utf8(self.log_root).len() as int,
        ) == utf8("_delta_log/"@)
    }

    /// A file's name is resolved to its very path.
    pub open spec fn located(self, base: Seq<char>, i: int) -> bool {
        let path = self.files[i].path@;
        &&& self.log_root.is_prefix_of(path)
        &&& joined(base, path.subrange(self.log_root.len() as int, path.len() as int)) matches Some(
            location,
        )
        &&& utf8(location) == utf8(path)
    }

    /// The log directory and the names in it are resolved to the very texts of the manifest.
    pub open spec fn canonical(self, root: Seq<char>) -> bool {
        &&& joined(root, "_delta_log/"@) matches Some(base)
        &&& utf8(base) == utf8(self.log_root)
        &&& forall|i: int| 0 <= i < self.files.len() ==> #[trigger] self.located(base, i)
    }

    /// What making the canonical segment for a table root gives.
    pub open spec fn segment_result(self, root: Seq<char>, limits: TaskLimits) -> Result<
        (),
        FailureKind,
    > {
        if !self.rooted(root) {
            Err(FailureKind::MalformedResponse)
        } else {
            match self.segment_admitted(limits) {
                Err(kind) => Err(kind),
                Ok(_) => if self.canonical(root) {
                    Ok(())
                } else {
                    Err(FailureKind::MalformedResponse)
                },
            }
        }
    }

    /// A commit of the segment is a file of the manifest.
    pub open spec fn commit(self, i: int, commit: ParsedLogPath) -> bool {
        &&& utf8(commit.location.location@) == utf8(self.files[i].path@)
        &&& commit.location.size == self.files[i].size
        &&& commit.location.last_modified == self.files[i].modification_time
        &&& commit.version == i
    }

    /// The canonical segment of the history.
    pub open spec fn segment(self, segment: LogSegment) -> bool {
        &&& segment.end_version == self.version
        &&& segment.checkpoint_version is None
        &&& segment.checkpoint_parts@.len() == 0
        &&& utf8(segment.log_root@) == utf8(self.log_root)
        &&& segment.ascending_commit_files@.len() == self.files.len()
        &&& forall|i: int|
            0 <= i < self.files.len() ==> self.commit(
                i,
                #[trigger] segment.ascending_commit_files@[i],
            )
        &&& segment.latest_commit_file matches Some(latest)
        &&& self.commit(self.files.len() - 1, latest)
        &&& segment.max_published_version == Some(self.version)
    }
}

/// The storage behind a history, as it was measured.
pub struct HistoryCapacities {
    /// The bytes behind the log root.
    pub log_root: usize,
    /// The slots behind the files.
    pub files: usize,
    /// The bytes behind each file's path.
    pub paths: Vec<usize>,
}

impl HistoryCapacities {
    /// This can be the storage behind a history: there is a slot for each file, and the log root and
    /// each path lie within the bytes behind them.
    pub open spec fn covers(self, log_root: Seq<char>, files: Seq<FileDescriptor>) -> bool {
        &&& self.log_root >= utf8(log_root).len()
        &&& self.files >= files.len()
        &&& self.paths@.len() == files.len()
        &&& forall|i: int|
            0 <= i < files.len() ==> #[trigger] self.paths@[i] >= utf8(files[i].path@).len()
    }
}

/// What a manifest of the first `n` files retains, or why it is refused.
pub open spec fn retained(
    log_root: Seq<char>,
    files: Seq<FileDescriptor>,
    capacities: HistoryCapacities,
    limits: TaskLimits,
    n: nat,
) -> Result<usize, FailureKind>
    decreases n,
{
    if n == 0 {
        match fitted(
            (capacities.files * size_of::<FileDescriptor>() + capacities.log_root + size_of::<
                LogIdentityManifest,
            >() + 2 * size_of::<usize>()) as int,
        ) {
            Some(bytes) => Ok(bytes),
            None => Err(uncountable(limits, Resource::TaskStateBytes)),
        }
    } else {
        match retained(log_root, files, capacities, limits, (n - 1) as nat) {
            Err(kind) => Err(kind),
            Ok(bytes) => if version_of(utf8(log_root), utf8(files[n - 1].path@)) != Some(
                (n - 1) as u64,
            ) {
                Err(FailureKind::MalformedResponse)
            } else {
                match fitted(bytes + capacities.paths@[n - 1]) {
                    None => Err(uncountable(limits, Resource::TaskStateBytes)),
                    Some(bytes) => match allowed(limits, Resource::TaskStateBytes, bytes as int) {
                        Err(kind) => Err(kind),
                        Ok(()) => Ok(bytes),
                    },
                }
            },
        }
    }
}

/// Immutable identity observations for one complete JSON history.
///
/// Only a snapshot task constructs this provenance; scan tasks and their executors share the same
/// owner.
#[derive(Debug)]
pub struct LogIdentityManifest {
    log_root: String,
    files: Vec<FileDescriptor>,
    version: u64,
    retained_bytes: usize,
}

impl View for LogIdentityManifest {
    type V = ManifestView;

    closed spec fn view(&self) -> ManifestView {
        ManifestView {
            log_root: self.log_root@,
            files: self.files@,
            version: self.version,
            retained_bytes: self.retained_bytes,
        }
    }
}

impl LogIdentityManifest {
    #[verifier::type_invariant]
    spec fn inv(self) -> bool {
        self@.wf()
    }

    /// Borrows selected commits in ascending version order, including their discovery identities.
    pub fn files(&self) -> (files: &[FileDescriptor])
        ensures
            files@ == self@.files,
            self@.wf(),
    {
        proof {
            use_type_invariant(self);
        }
        self.files.as_slice()
    }

    /// Returns the canonical log-directory URL prefix used for discovery.
    pub fn log_root(&self) -> (root: &str)
        ensures
            root@ == self@.log_root,
    {
        self.log_root.as_str()
    }

    /// Returns the bytes of all paths. Every path is the root and a canonical name, so that no
    /// descriptor is walked.
    pub fn path_bytes(&self) -> (r: Option<usize>)
        ensures
            r == self@.path_total(),
    {
        let length: usize = match byte_len(self.log_root.as_str()).checked_add(COMMIT_NAME_BYTES) {
            Some(length) => length,
            None => return None,
        };
        CheckedUsize::new(length).mul_value(self.files.len()).to_option()
    }

    /// Returns the last version in the complete zero-based JSON history.
    pub fn version(&self) -> (version: u64)
        ensures
            version == self@.version,
    {
        self.version
    }

    /// Returns the conservative backing charge retained by this immutable owner.
    pub fn retained_bytes(&self) -> (bytes: usize)
        ensures
            bytes == self@.retained_bytes,
    {
        self.retained_bytes
    }

    /// Bounds the owners of the canonical segment, and admits them.
    ///
    /// Each commit owns its URL, its file name and its extension; one extension slice is collected
    /// while it is parsed. The clone of the last commit and the log-root URL coexist with all
    /// commits.
    pub fn segment_owner_peak(&self, limits: &TaskLimits) -> (r: Result<usize, OperationFailure>)
        ensures
            outcome(self@.segment_admitted(*limits), r),
    {
        let mut total = plus(
            &plus(
                &vector_of::<ParsedLogPath>(self.files.len()),
                &text_total(&CheckedUsize::new(byte_len(self.log_root.as_str()))),
            ),
            &size::<LogSegment>(),
        );
        let ghost base = total@;
        let part = vector_of::<&str>(1);
        let mut latest = CheckedUsize::new(0);
        let mut i: usize = 0;
        while i < self.files.len()
            invariant
                i <= self.files@.len(),
                self@.files == self.files@,
                part@ == vector_bytes(size_of::<&str>(), 1),
                total@ == base + self@.commit_owners(i as nat),
                latest@ == (if i == 0 {
                    0
                } else {
                    utf8(self.files@[i - 1].path@).len() + 29
                }),
            decreases self.files@.len() - i,
        {
            let length: usize = byte_len(self.files[i].path.as_str());
            let path = plus(
                &text_total(&CheckedUsize::new(length)).add_value(29),
                &part,
            );
            total = plus(&total, &path);
            latest = CheckedUsize::new(length).add_value(29);
            i += 1;
        }
        let peak: usize = counted(
            plus(&total, &latest).to_option(),
            Resource::TaskStateBytes,
            limits,
        )?;
        check(Resource::TaskStateBytes, peak, limits)?;
        check(Resource::MetadataAllocatedBytes, peak, limits)?;
        Ok(peak)
    }

    /// Materializes the canonical segment of the history under a table root.
    ///
    /// The caller also admits simultaneous task ownership against its ledger before this call.
    pub fn to_log_segment(&self, table_root: &str, limits: &TaskLimits) -> (r: Result<
        LogSegment,
        OperationFailure,
    >)
        ensures
            match self@.segment_result(table_root@, *limits) {
                Ok(()) => r matches Ok(segment) && self@.segment(segment),
                Err(kind) => r matches Err(failure) && failure.is_terminal(kind),
            },
    {
        proof {
            use_type_invariant(self);
        }
        let rooted = match read_root(table_root) {
            Some(facts) => !facts.query && !facts.fragment && !facts.opaque && facts.directory,
            None => false,
        };
        let child = match crate::bytes::strip(self.log_root.as_str(), table_root) {
            Some(rest) => crate::bytes::same_bytes(rest, "_delta_log/".as_bytes()),
            None => false,
        };
        if !rooted || !child {
            return Err(OperationFailure::malformed_response());
        }
        match self.segment_owner_peak(limits) {
            Ok(_) => {},
            Err(failure) => return Err(failure),
        }
        let log_root = match join_location(table_root, "_delta_log/") {
            Some(log_root) => log_root,
            None => return Err(OperationFailure::malformed_response()),
        };
        if !same_text(log_root.as_str(), self.log_root.as_str()) {
            return Err(OperationFailure::malformed_response());
        }
        let mut commits: Vec<ParsedLogPath> = Vec::new();
        let mut i: usize = 0;
        while i < self.files.len()
            invariant
                i <= self.files@.len(),
                commits@.len() == i,
                self@.files == self.files@,
                self@.log_root == self.log_root@,
                joined(table_root@, "_delta_log/"@) == Some(log_root@),
                forall|j: int| 0 <= j < i ==> #[trigger] self@.located(log_root@, j),
                forall|j: int| 0 <= j < i ==> self@.commit(j, #[trigger] commits@[j]),
                self@.wf(),
                self@.segment_result(table_root@, *limits) == (if self@.canonical(table_root@) {
                    Ok::<(), FailureKind>(())
                } else {
                    Err(FailureKind::MalformedResponse)
                }),
            decreases self.files@.len() - i,
        {
            match self.commit(log_root.as_str(), i) {
                Some(commit) => commits.push(commit),
                None => {
                    assert(!self@.located(log_root@, i as int));
                    return Err(OperationFailure::malformed_response());
                },
            }
            i += 1;
        }
        let latest = match self.commit(log_root.as_str(), self.files.len() - 1) {
            Some(latest) => latest,
            None => return Err(OperationFailure::malformed_response()),
        };
        Ok(
            LogSegment {
                end_version: self.version,
                checkpoint_version: None,
                checkpoint_parts: Vec::new(),
                log_root,
                ascending_commit_files: commits,
                latest_commit_file: Some(latest),
                max_published_version: Some(self.version),
            },
        )
    }

    fn commit(&self, base: &str, i: usize) -> (r: Option<ParsedLogPath>)
        requires
            i < self@.files.len(),
            self@.wf(),
        ensures
            r is Some == self@.located(base@, i as int),
            r matches Some(commit) ==> self@.commit(i as int, commit),
    {
        let file = &self.files[i];
        let name = match strip_prefix(file.path.as_str(), self.log_root.as_str()) {
            Some(name) => name,
            None => return None,
        };
        assert(file.path@.subrange(self.log_root@.len() as int, file.path@.len() as int)
            =~= name@);
        let location = match join_location(base, name) {
            Some(location) => location,
            None => return None,
        };
        if !same_text(location.as_str(), file.path.as_str()) {
            return None;
        }
        Some(
            ParsedLogPath {
                location: FileMeta {
                    location,
                    last_modified: file.modification_time,
                    size: file.size,
                },
                version: i as u64,
            },
        )
    }

    /// What constructing a manifest gives, with the storage behind its parts as measured.
    pub open spec fn constructed(
        log_root: Seq<char>,
        files: Seq<FileDescriptor>,
        limits: TaskLimits,
        capacities: HistoryCapacities,
    ) -> Result<usize, FailureKind> {
        if !is_directory(utf8(log_root)) {
            Err(FailureKind::MalformedResponse)
        } else if let Err(kind) = allowed(limits, Resource::LogDescriptors, files.len() as int) {
            Err(kind)
        } else {
            retained(log_root, files, capacities, limits, files.len())
        }
    }

    /// Takes already admitted ownership; performs no allocations beyond the measurement.
    ///
    /// The task separately admits its shared owner and charges simultaneous owners before calling
    /// this constructor.
    pub fn try_new(log_root: String, files: Vec<FileDescriptor>, limits: &TaskLimits) -> (r: Result<
        LogIdentityManifest,
        OperationFailure,
    >)
        ensures
            files@.len() == 0 ==> (r matches Err(failure) && failure.category()
                == FailureKind::Engine && failure.origin() == Some(Error::MissingVersion)),
            files@.len() > 0 ==> exists|capacities: HistoryCapacities|
                {
                    &&& capacities.covers(log_root@, files@)
                    &&& match #[trigger] LogIdentityManifest::constructed(
                        log_root@,
                        files@,
                        *limits,
                        capacities,
                    ) {
                        Ok(retained_bytes) => r matches Ok(manifest) && manifest@.log_root
                            == log_root@ && manifest@.files == files@ && manifest@.retained_bytes
                            == retained_bytes && manifest@.wf(),
                        Err(kind) => r matches Err(failure) && failure.is_terminal(kind),
                    }
                },
    {
        let capacities = measure_history(&log_root, &files);
        LogIdentityManifest::try_new_sized(log_root, files, limits, &capacities)
    }

    /// Constructs a manifest, with the storage behind its parts as measured.
    pub fn try_new_sized(
        log_root: String,
        files: Vec<FileDescriptor>,
        limits: &TaskLimits,
        capacities: &HistoryCapacities,
    ) -> (r: Result<LogIdentityManifest, OperationFailure>)
        requires
            capacities.paths@.len() == files@.len(),
        ensures
            files@.len() == 0 ==> (r matches Err(failure) && failure.category()
                == FailureKind::Engine && failure.origin() == Some(Error::MissingVersion)),
            files@.len() > 0 ==> match LogIdentityManifest::constructed(
                log_root@,
                files@,
                *limits,
                *capacities,
            ) {
                Ok(retained_bytes) => r matches Ok(manifest) && manifest@.log_root == log_root@
                    && manifest@.files == files@ && manifest@.retained_bytes == retained_bytes
                    && manifest@.wf(),
                Err(kind) => r matches Err(failure) && failure.is_terminal(kind),
            },
    {
        if files.len() == 0 {
            return Err(OperationFailure::engine(Error::MissingVersion));
        }
        if !ends_in_slash(log_root.as_str()) {
            return Err(OperationFailure::malformed_response());
        }
        match check(Resource::LogDescriptors, files.len(), limits) {
            Ok(()) => {},
            Err(failure) => return Err(failure),
        }
        let base = plus(
            &plus(
                &size::<FileDescriptor>().mul_value(capacities.files),
                &CheckedUsize::new(capacities.log_root),
            ),
            &plus(&size::<LogIdentityManifest>(), &size::<usize>().mul_value(2)),
        );
        proof {
            vstd::arithmetic::mul::lemma_mul_is_commutative(
                size_of::<FileDescriptor>() as int,
                capacities.files as int,
            );
        }
        proof {
            refusals_stay(log_root@, files@, *capacities, *limits, 0, files@.len());
        }
        let mut retained_bytes: usize = counted(
            base.to_option(),
            Resource::TaskStateBytes,
            limits,
        )?;
        let mut i: usize = 0;
        while i < files.len()
            invariant
                i <= files@.len(),
                capacities.paths@.len() == files@.len(),
                files@.len() > 0,
                is_directory(utf8(log_root@)),
                LogIdentityManifest::constructed(log_root@, files@, *limits, *capacities)
                    == retained(log_root@, files@, *capacities, *limits, files@.len()),
                retained(log_root@, files@, *capacities, *limits, i as nat) == Ok::<
                    usize,
                    FailureKind,
                >(retained_bytes),
                forall|j: int|
                    0 <= j < i ==> version_of(utf8(log_root@), utf8((#[trigger] files@[j]).path@))
                        == Some(j as u64),
            decreases files@.len() - i,
        {
            proof {
                refusals_stay(
                    log_root@,
                    files@,
                    *capacities,
                    *limits,
                    (i + 1) as nat,
                    files@.len(),
                );
            }
            let version = commit_version(log_root.as_str(), files[i].path.as_str());
            if version != Some(i as u64) {
                return Err(OperationFailure::malformed_response());
            }
            retained_bytes = match retained_bytes.checked_add(capacities.paths[i]) {
                Some(bytes) => bytes,
                None => return Err(exhausted(Resource::TaskStateBytes, limits)),
            };
            match check(Resource::TaskStateBytes, retained_bytes, limits) {
                Ok(()) => {},
                Err(failure) => return Err(failure),
            }
            i += 1;
        }
        let version: u64 = (files.len() - 1) as u64;
        Ok(LogIdentityManifest { log_root, files, version, retained_bytes })
    }
}

/// A refusal at one file is the refusal of the history.
proof fn refusals_stay(
    log_root: Seq<char>,
    files: Seq<FileDescriptor>,
    capacities: HistoryCapacities,
    limits: TaskLimits,
    i: nat,
    n: nat,
)
    requires
        i <= n,
    ensures
        retained(log_root, files, capacities, limits, i) matches Err(kind) ==> retained(
            log_root,
            files,
            capacities,
            limits,
            n,
        ) == Err::<usize, FailureKind>(kind),
    decreases n,
{
    if i < n {
        refusals_stay(log_root, files, capacities, limits, i, (n - 1) as nat);
    }
}

/// Measures the storage behind a history.
fn measure_history(log_root: &String, files: &Vec<FileDescriptor>) -> (capacities: HistoryCapacities)
    ensures
        capacities.covers(log_root@, files@),
{
    let mut paths: Vec<usize> = Vec::new();
    let mut i: usize = 0;
    while i < files.len()
        invariant
            i <= files@.len(),
            paths@.len() == i,
            forall|j: int| 0 <= j < i ==> #[trigger] paths@[j] >= utf8(files@[j].path@).len(),
        decreases files@.len() - i,
    {
        let bytes: usize = text_capacity(&files[i].path);
        paths.push(bytes);
        i += 1;
    }
    HistoryCapacities { log_root: text_capacity(log_root), files: vec_capacity(files), paths }
}

/// Every path of a history has the same length, so that the total needs no walk.
pub proof fn path_totals_are_exact(manifest: ManifestView, i: int)
    requires
        manifest.wf(),
        0 <= i < manifest.files.len(),
    ensures
        utf8(manifest.files[i].path@).len() == utf8(manifest.log_root).len() + 25,
{
    assert(version_of(utf8(manifest.log_root), utf8(manifest.files[i].path@)) is Some);
}

/// A history's commits are in ascending order of their versions, and no version is missing.
pub proof fn histories_are_complete(manifest: ManifestView, version: u64)
    requires
        manifest.wf(),
        version <= manifest.version,
    ensures
        version_of(
            utf8(manifest.log_root),
            utf8(manifest.files[version as int].path@),
        ) == Some(version),
{
    let file = manifest.files[version as int];
}

/// Digits write a number by place: those in front count ten times more for each digit behind them.
pub proof fn digits_count_by_place(front: Seq<u8>, back: Seq<u8>)
    requires
        forall|i: int| 0 <= i < back.len() ==> 48 <= #[trigger] back[i] <= 57,
    ensures
        decimal_value(front + back) == decimal_value(front) * vstd::arithmetic::power::pow(
            10,
            back.len(),
        ) + decimal_value(back),
        back.len() == 1 ==> decimal_value(back) == back[0] - 48,
        back.len() == 0 ==> decimal_value(back) == 0,
    decreases back.len(),
{
    vstd::arithmetic::power::lemma_pow0(10);
    if back.len() == 0 {
        assert(front + back =~= front);
    } else {
        let rest = back.drop_last();
        digits_count_by_place(front, rest);
        assert((front + back).drop_last() =~= front + rest);
        vstd::arithmetic::power::lemma_pow_adds(10, 1, rest.len());
        vstd::arithmetic::power::lemma_pow1(10);
        let place = vstd::arithmetic::power::pow(10, rest.len());
        assert(10 * (decimal_value(front) * place) == decimal_value(front) * (10 * place))
            by (nonlinear_arith);
        if back.len() == 1 {
            assert(rest =~= Seq::<u8>::empty());
        }
    }
}

/// The suffix of a commit's name is these five bytes.
proof fn json_suffix_bytes()
    ensures
        utf8(".json"@) == seq![46u8, 106u8, 115u8, 111u8, 110u8],
{
    reveal_strlit(".json");
    vstd::utf8::is_ascii_chars_encode_utf8(".json"@);
    assert(utf8(".json"@) =~= seq![46u8, 106u8, 115u8, 111u8, 110u8]);
}

/// A path is the commit of a version exactly where it is the root, twenty digits that write the
/// version, and `.json`.
pub proof fn commits_are_named_by_their_versions(root: Seq<u8>, path: Seq<u8>, version: u64)
    ensures
        version_of(root, path) == Some(version) <==> exists|digits: Seq<u8>|
            {
                &&& digits.len() == 20
                &&& forall|i: int| 0 <= i < 20 ==> 48 <= #[trigger] digits[i] <= 57
                &&& decimal_value(digits) == version
                &&& path == #[trigger] (root + digits) + seq![46u8, 106u8, 115u8, 111u8, 110u8]
            },
{
    json_suffix_bytes();
    let json = seq![46u8, 106u8, 115u8, 111u8, 110u8];
    let name = path.subrange(root.len() as int, path.len() as int);
    if version_of(root, path) == Some(version) {
        let digits = name.subrange(0, 20);
        assert(path =~= path.subrange(0, root.len() as int) + name);
        assert(name =~= digits + name.subrange(20, 25));
        assert(path =~= (root + digits) + json);
    }
    if exists|digits: Seq<u8>|
        {
            &&& digits.len() == 20
            &&& forall|i: int| 0 <= i < 20 ==> 48 <= #[trigger] digits[i] <= 57
            &&& decimal_value(digits) == version
            &&& path == #[trigger] (root + digits) + json
        } {
        let digits = choose|digits: Seq<u8>|
            {
                &&& digits.len() == 20
                &&& forall|i: int| 0 <= i < 20 ==> 48 <= #[trigger] digits[i] <= 57
                &&& decimal_value(digits) == version
                &&& path == #[trigger] (root + digits) + json
            };
        assert(path.subrange(0, root.len() as int) =~= root);
        assert(name =~= digits + json);
        assert(name.subrange(0, 20) =~= digits);
        assert(name.subrange(20, 25) =~= json);
    }
}

/// The bytes behind the first `n` paths of a history.
pub open spec fn measured_paths(capacities: HistoryCapacities, n: nat) -> nat
    decreases n,
{
    if n == 0 {
        0
    } else {
        measured_paths(capacities, (n - 1) as nat) + capacities.paths@[n - 1] as nat
    }
}

proof fn histories_retain_their_parts(
    log_root: Seq<char>,
    files: Seq<FileDescriptor>,
    capacities: HistoryCapacities,
    limits: TaskLimits,
    n: nat,
)
    ensures
        ({
            let base = capacities.files * size_of::<FileDescriptor>() + capacities.log_root
                + size_of::<LogIdentityManifest>() + 2 * size_of::<usize>();
            &&& n > 0 ==> (retained(log_root, files, capacities, limits, n) is Ok <==> {
                &&& base + measured_paths(capacities, n) <= limits.allowance(
                    Resource::TaskStateBytes,
                )
                &&& forall|i: int|
                    0 <= i < n ==> version_of(utf8(log_root), utf8((#[trigger] files[i]).path@))
                        == Some(i as u64)
            })
            &&& n == 0 ==> (retained(log_root, files, capacities, limits, n) is Ok <==> base
                <= usize::MAX)
            &&& retained(log_root, files, capacities, limits, n) matches Ok(bytes) ==> bytes == base
                + measured_paths(capacities, n)
        }),
    decreases n,
{
    if n > 0 {
        histories_retain_their_parts(log_root, files, capacities, limits, (n - 1) as nat);
        if retained(log_root, files, capacities, limits, n) is Ok {
            assert forall|i: int| 0 <= i < n implies version_of(
                utf8(log_root),
                utf8((#[trigger] files[i]).path@),
            ) == Some(i as u64) by {
                if i == n - 1 {
                    assert(files[i] == files[n - 1]);
                }
            }
        } else if forall|i: int|
            0 <= i < n ==> version_of(utf8(log_root), utf8((#[trigger] files[i]).path@)) == Some(
                i as u64,
            ) {
            assert(version_of(utf8(log_root), utf8(files[n - 1].path@)) == Some((n - 1) as u64));
        }
    }
}

/// A history is taken exactly where its root is a directory, its files are the commits of every
/// version from zero on, and neither their number nor their storage exceeds its allowance. It then
/// retains its own bytes, those behind its root and its slots, and those behind every path.
pub proof fn complete_histories_are_taken(
    log_root: Seq<char>,
    files: Seq<FileDescriptor>,
    limits: TaskLimits,
    capacities: HistoryCapacities,
)
    requires
        files.len() > 0,
    ensures
        ({
            let bytes = capacities.files * size_of::<FileDescriptor>() + capacities.log_root
                + size_of::<LogIdentityManifest>() + 2 * size_of::<usize>() + measured_paths(
                capacities,
                files.len(),
            );
            let made = LogIdentityManifest::constructed(log_root, files, limits, capacities);
            &&& made is Ok <==> {
                &&& utf8(log_root).len() > 0
                &&& utf8(log_root).last() == 47u8
                &&& files.len() <= limits.allowance(Resource::LogDescriptors)
                &&& bytes <= limits.allowance(Resource::TaskStateBytes)
                &&& forall|i: int|
                    0 <= i < files.len() ==> version_of(
                        utf8(log_root),
                        utf8((#[trigger] files[i]).path@),
                    ) == Some(i as u64)
            }
            &&& made matches Ok(retained) ==> retained == bytes
        }),
{
    histories_retain_their_parts(log_root, files, capacities, limits, files.len());
}

/// The segment of a history is its commits, one by one: each with its file's location, size and time,
/// and the version of its place. The last commit is the latest, and there is no checkpoint.
pub proof fn segments_hold_the_whole_history(manifest: ManifestView, segment: LogSegment, i: int)
    requires
        manifest.segment(segment),
        manifest.wf(),
        0 <= i < manifest.files.len(),
    ensures
        ({
            let commit = segment.ascending_commit_files@[i];
            let file = manifest.files[i];
            &&& segment.ascending_commit_files@.len() == manifest.files.len()
            &&& commit.location.location@ == file.path@
            &&& commit.location.size == file.size
            &&& commit.location.last_modified == file.modification_time
            &&& commit.version == i
            &&& segment.end_version == manifest.files.len() - 1
            &&& segment.max_published_version == Some(segment.end_version)
            &&& segment.log_root@ == manifest.log_root
            &&& segment.checkpoint_version is None
            &&& segment.checkpoint_parts@.len() == 0
            &&& segment.latest_commit_file matches Some(latest)
            &&& latest.version == manifest.files.len() - 1
            &&& latest.location.location@ == manifest.files.last().path@
            &&& latest.location.size == manifest.files.last().size
            &&& latest.location.last_modified == manifest.files.last().modification_time
        }),
{
    let commit = segment.ascending_commit_files@[i];
    assert(manifest.commit(i, commit));
    vstd::utf8::encode_utf8_decode_utf8(commit.location.location@);
    vstd::utf8::encode_utf8_decode_utf8(manifest.files[i].path@);
    vstd::utf8::encode_utf8_decode_utf8(segment.log_root@);
    vstd::utf8::encode_utf8_decode_utf8(manifest.log_root);
    let latest = segment.latest_commit_file->0;
    vstd::utf8::encode_utf8_decode_utf8(latest.location.location@);
    vstd::utf8::encode_utf8_decode_utf8(manifest.files.last().path@);
}

/// A segment is made exactly where the table's root is a plain directory, the log directory is its
/// `_delta_log/`, both are resolved to the very texts of the history, and the segment is within its
/// allowances.
pub proof fn segments_are_made_of_canonical_histories(
    manifest: ManifestView,
    root: Seq<char>,
    limits: TaskLimits,
)
    ensures
        manifest.segment_result(root, limits) is Ok <==> {
            &&& crate::locations::query_present(root) == Some(false)
            &&& crate::locations::fragment_present(root) == Some(false)
            &&& crate::locations::base_impossible(root) == Some(false)
            &&& crate::locations::path_part(root) matches Some(path) && utf8(path).len() > 0
                && utf8(path).last() == 47u8
            &&& utf8(manifest.log_root) == utf8(root) + utf8("_delta_log/"@)
            &&& manifest.segment_owners() <= limits.allowance(Resource::TaskStateBytes)
            &&& manifest.segment_owners() <= limits.allowance(Resource::MetadataAllocatedBytes)
            &&& joined(root, "_delta_log/"@) matches Some(base)
            &&& base == manifest.log_root
            &&& forall|i: int|
                0 <= i < manifest.files.len() ==> {
                    let path = (#[trigger] manifest.files[i]).path@;
                    &&& exists|name: Seq<char>| path == #[trigger] (manifest.log_root + name)
                        && joined(base, name) == Some(path)
                }
        },
{
    let log = utf8(manifest.log_root);
    let name = utf8("_delta_log/"@);
    if begins(log, utf8(root)) {
        assert(log =~= utf8(root) + log.subrange(utf8(root).len() as int, log.len() as int));
    }
    if log == utf8(root) + name {
        assert(log.subrange(0, utf8(root).len() as int) =~= utf8(root));
        assert(log.subrange(utf8(root).len() as int, log.len() as int) =~= name);
    }
    if let Some(base) = joined(root, "_delta_log/"@) {
        vstd::utf8::encode_utf8_decode_utf8(base);
        vstd::utf8::encode_utf8_decode_utf8(manifest.log_root);
        assert forall|i: int| 0 <= i < manifest.files.len() implies (manifest.located(base, i)
            <==> exists|name: Seq<char>|
            (#[trigger] manifest.files[i]).path@ == #[trigger] (manifest.log_root + name) && joined(
                base,
                name,
            ) == Some(manifest.files[i].path@)) by {
            let path = manifest.files[i].path@;
            let n = manifest.log_root.len() as int;
            if manifest.located(base, i) {
                let rest = path.subrange(n, path.len() as int);
                assert(path =~= manifest.log_root + rest);
                vstd::utf8::encode_utf8_decode_utf8(joined(base, rest)->0);
                vstd::utf8::encode_utf8_decode_utf8(path);
            }
            if exists|name: Seq<char>|
                path == #[trigger] (manifest.log_root + name) && joined(base, name) == Some(path) {
                let rest = choose|name: Seq<char>|
                    path == #[trigger] (manifest.log_root + name) && joined(base, name) == Some(
                        path,
                    );
                assert((manifest.log_root + rest).subrange(n, path.len() as int) =~= rest);
                assert(manifest.log_root.is_prefix_of(path));
            }
        }
        if manifest.canonical(root) {
            assert forall|i: int| 0 <= i < manifest.files.len() implies manifest.located(
                base,
                i,
            ) by {}
        }
    }
}

/// A segment owns each of its commits, by its path and a fixed part, and one clone of the last one.
pub proof fn segments_own_their_commits(manifest: ManifestView, limits: TaskLimits, n: nat)
    requires
        n < manifest.files.len(),
    ensures
        manifest.commit_owners(n + 1) == manifest.commit_owners(n) + text_bytes(
            utf8(manifest.files[n as int].path@).len(),
        ) + 29 + vector_bytes(size_of::<&str>(), 1),
        manifest.commit_owners(0) == 0,
        manifest.segment_owners() == vector_bytes(size_of::<ParsedLogPath>(), manifest.files.len())
            + text_bytes(utf8(manifest.log_root).len()) + size_of::<LogSegment>()
            + manifest.commit_owners(manifest.files.len()) + utf8(manifest.files.last().path@).len()
            + 29,
        manifest.segment_admitted(limits) is Ok <==> {
            &&& manifest.segment_owners() <= limits.allowance(Resource::TaskStateBytes)
            &&& manifest.segment_owners() <= limits.allowance(Resource::MetadataAllocatedBytes)
        },
        manifest.segment_admitted(limits) matches Ok(bytes) ==> bytes == manifest.segment_owners(),
{
}

} // verus!
