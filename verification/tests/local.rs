use std::mem::size_of;

use operation_tasks::accounting::FooterLimits;
use operation_tasks::failure::Error;
use operation_tasks::local_index::LocalFileIndex;
use operation_tasks::local_objects::{
    check_expected, check_kernel_schema_bound, check_range, check_unchanged, decoder_exhausted,
    decoder_limits, identity, modification_time_millis, DecodedField, DecodedType, DecoderLimits,
    ObjectFacts, ObservedObject,
};
use operation_tasks::local_paths::{confined_steps, read_names, shown_root, LocalStep};
use operation_tasks::protocol::ObjectIdentity;
use operation_tasks::schema::{DataType, StructField};
use operation_tasks::storage::AdmittedListingPage;
use operation_tasks::{
    FailureKind, FileDescriptor, OperationFailure, Resource, ResourceExhausted, TaskLimits,
};

fn ok<T>(result: Result<T, OperationFailure>) -> T {
    match result {
        Ok(value) => value,
        Err(failure) => panic!("{}", failure.message()),
    }
}

fn described<T>(result: Result<T, OperationFailure>) -> String {
    let failure = result.err().unwrap();
    assert_eq!(failure.kind(), FailureKind::Engine);
    match failure.into_error() {
        Error::Generic(text) => text,
        _ => panic!("a described error was expected"),
    }
}

fn assert_exhausted<T>(
    result: Result<T, OperationFailure>,
    resource: Resource,
    limit: usize,
    observed: usize,
) {
    assert_eq!(
        result.err().unwrap().kind(),
        FailureKind::ResourceExhausted(ResourceExhausted {
            resource,
            limit,
            observed
        })
    );
}

#[test]
fn shown_roots_end_in_one_slash() {
    for (requested, shown) in [
        ("/", "/"),
        ("//", "/"),
        ("/table", "/table/"),
        ("/table///", "/table/"),
        ("/tab le/雪/", "/tab le/雪/"),
    ] {
        assert_eq!(shown_root(requested), shown);
    }
}

#[test]
fn names_leave_out_empty_pieces_and_single_dots() {
    assert_eq!(read_names("/a/./b//c..d/.."), ["a", "b", "c..d", ".."]);
    assert!(read_names("").is_empty());
    assert!(read_names("/./").is_empty());
}

#[test]
fn ways_to_confined_files_name_every_directory() {
    let directory = |name: &str| LocalStep::Directory(name.to_string());
    let file = |name: &str| LocalStep::File(name.to_string());
    assert_eq!(
        ok(confined_steps("/table/", "/table/_delta_log/0.json")),
        [directory("_delta_log"), file("0.json")]
    );
    assert_eq!(ok(confined_steps("/", "/0.json")), [file("0.json")]);
    assert_eq!(
        ok(confined_steps("/table/", "/table/./a//b")),
        [directory("a"), file("b")]
    );
    // A way that leaves the root says so where it leaves it.
    assert_eq!(
        ok(confined_steps("/table/", "/table/a/../../x")),
        [
            directory("a"),
            LocalStep::Outside,
            LocalStep::Outside,
            file("x")
        ]
    );
    assert_eq!(
        described(confined_steps("/table/", "/tables/0.json")),
        "local object is outside the admitted root"
    );
    assert_eq!(
        described(confined_steps("/table/", "table/0.json")),
        "local object is outside the admitted root"
    );
    assert_eq!(
        described(confined_steps("/table/", "/table")),
        "local object path does not name a file"
    );
    assert_eq!(
        described(confined_steps("", "/table/0.json")),
        "local task source is cancelled"
    );
}

fn facts() -> ObjectFacts {
    ObjectFacts {
        device: 1,
        inode: 0x0203,
        changed_seconds: u64::MAX,
        changed_nanos: 0,
    }
}

#[test]
fn identities_are_four_little_endian_numbers_and_tell_versions_apart() {
    let mut bytes = [0; 32];
    bytes[0] = 1;
    bytes[8] = 3;
    bytes[9] = 2;
    bytes[16..24].copy_from_slice(&[255; 8]);
    assert_eq!(identity(facts()).bytes(), bytes);
    let later = ObjectFacts {
        changed_nanos: 1,
        ..facts()
    };
    assert!(!identity(facts()).same(&identity(later)));
}

#[test]
fn modification_times_are_signed_milliseconds() {
    assert_eq!(ok(modification_time_millis(1500, false)), 1500);
    assert_eq!(ok(modification_time_millis(1500, true)), -1500);
    assert_eq!(
        ok(modification_time_millis(i64::MAX as u128, true)),
        -i64::MAX
    );
    assert_eq!(
        described(modification_time_millis(1 << 63, true)),
        "modification time overflow"
    );
    let reason = i64::try_from(1u128 << 63).unwrap_err().to_string();
    assert_eq!(
        described(modification_time_millis(1 << 63, false)),
        format!("modification time overflow: {reason}")
    );
}

#[test]
fn ranges_stay_inside_their_objects() {
    assert!(ok(check_range(3, 4, 7)));
    assert!(!ok(check_range(3, 3, 7)));
    assert_eq!(
        described(check_range(3, 5, 7)),
        "local read range exceeds object size"
    );
    assert_eq!(
        described(check_range(u64::MAX, 1, 7)),
        "local read range overflow"
    );
}

#[test]
fn changed_objects_are_refused() {
    let seen = identity(facts());
    let other = ObjectIdentity::new([9; 32]);
    ok(check_expected(seen, None));
    ok(check_expected(seen, Some(seen)));
    assert_eq!(
        described(check_expected(seen, Some(other))),
        "local object identity changed"
    );
    let before = ObservedObject {
        facts: facts(),
        size: 4,
    };
    let longer = ObservedObject { size: 5, ..before };
    ok(check_unchanged(before, before, false));
    assert_eq!(
        described(check_unchanged(before, longer, false)),
        "local object changed during exact read"
    );
    assert_eq!(
        described(check_unchanged(before, longer, true)),
        "local object changed during footer decoding"
    );
}

#[test]
fn footer_decoders_report_into_their_domains() {
    for (name, resource) in [
        ("footer bytes", Resource::FooterBytes),
        ("schema elements", Resource::SchemaNodes),
        ("schema depth", Resource::SchemaDepth),
        ("row groups", Resource::RowGroups),
        ("column chunks", Resource::ColumnChunks),
        ("column chunks per row group", Resource::ColumnChunks),
        ("page index bytes", Resource::PageIndexBytes),
        ("page index entries", Resource::PageIndexEntries),
        ("decoded bytes", Resource::MetadataAllocatedBytes),
    ] {
        assert_exhausted::<()>(Err(decoder_exhausted(name, 3, 4)), resource, 3, 4);
    }
}

#[test]
fn footer_limits_become_decoder_limits() {
    let limits = FooterLimits {
        footer_bytes: 1,
        schema_nodes: 2,
        schema_depth: 3,
        row_groups: 4,
        column_chunks: 5,
        metadata_allocated_bytes: 6,
        page_index_bytes: 7,
        page_index_entries: 8,
    };
    assert_eq!(
        ok(decoder_limits(limits)),
        DecoderLimits {
            footer_bytes: 1,
            schema_elements: 2,
            schema_depth: 3,
            row_groups: 4,
            column_chunks_per_row_group: 5,
            column_chunks: 5,
            collection_elements: 6,
            variable_width_bytes: 6,
            total_variable_width_bytes: 6,
            decoded_bytes: 6,
            page_index_bytes: 7,
            page_index_entries: 8,
        }
    );
    assert_exhausted(
        decoder_limits(FooterLimits {
            schema_depth: 0,
            ..limits
        }),
        Resource::SchemaDepth,
        0,
        1,
    );
}

fn leaf(name_bytes: usize) -> DecodedField {
    DecodedField {
        name_bytes,
        metadata_bytes: vec![],
        data_type: DecodedType::Leaf,
    }
}

#[test]
fn schema_conversions_are_bounded_before_they_start() {
    let width = 100;
    let fixed = width + size_of::<StructField>() + 8 * size_of::<usize>();
    // Two copies of the name, and the name once for each level.
    let flat = vec![leaf(10)];
    let expected = fixed + 2 * 10 + 10;
    ok(check_kernel_schema_bound(&flat, width, expected));
    assert_exhausted(
        check_kernel_schema_bound(&flat, width, expected - 1),
        Resource::MetadataAllocatedBytes,
        expected - 1,
        expected,
    );
    let nested = vec![DecodedField {
        name_bytes: 4,
        metadata_bytes: vec![3, 5],
        data_type: DecodedType::Struct(vec![
            leaf(10),
            DecodedField {
                name_bytes: 1,
                metadata_bytes: vec![],
                data_type: DecodedType::Nested(Box::new(leaf(7))),
            },
            DecodedField {
                name_bytes: 1,
                metadata_bytes: vec![],
                data_type: DecodedType::Dictionary(Box::new(DecodedType::Leaf)),
            },
        ]),
    }];
    let expected = fixed + 2 * 4 + 2 * 8 + 4
        + (fixed + 2 * 10 + 2 * 10)
        + (fixed + 2 + 2 + (fixed + 2 * 7 + 3 * 7))
        + (fixed + 2 + 2 + size_of::<DataType>());
    ok(check_kernel_schema_bound(&nested, width, expected));
    assert!(check_kernel_schema_bound(&nested, width, expected - 1).is_err());
    assert_exhausted(
        check_kernel_schema_bound(&vec![leaf(usize::MAX)], width, 1),
        Resource::MetadataAllocatedBytes,
        1,
        usize::MAX,
    );
}

fn index(paths: &[&str], limits: &TaskLimits) -> LocalFileIndex {
    let mut index = ok(LocalFileIndex::open("/table/".to_string(), limits));
    for (i, path) in paths.iter().enumerate() {
        ok(index.count_entry());
        ok(index.index_file(path, i as u64, -1, ObjectIdentity::new([i as u8; 32])));
    }
    index
}

fn paths(files: &[FileDescriptor]) -> Vec<&str> {
    files.iter().map(|file| file.path.as_str()).collect()
}

fn page(index: &LocalFileIndex, after: Option<&str>, entries: usize) -> AdmittedListingPage {
    ok(index.list("/table/", after, entries, 1 << 20, 1 << 10))
}

#[test]
fn pages_of_an_index_continue_where_they_stopped() {
    let limits = TaskLimits::qualification().with_limit(Resource::LogDescriptors, 8);
    let index = index(&["/table/c", "/table/a", "/table/b"], &limits);
    let first = page(&index, None, 2);
    assert_eq!(paths(&first.files), ["/table/a", "/table/b"]);
    assert_eq!(first.files[0].size, 1);
    assert_eq!(first.files[0].modification_time, -1);
    assert_eq!(first.files[0].identity, ObjectIdentity::new([1; 32]));
    assert_eq!(first.continuation.as_deref(), Some("/table/b"));
    assert_eq!(first.binding, first.continuation);
    let second = page(&index, first.continuation.as_deref(), 2);
    assert_eq!(paths(&second.files), ["/table/c"]);
    assert_eq!(second.continuation, None);
    assert_eq!(second.binding, None);
    // A cursor between two paths continues at the next one.
    let between = page(&index, Some("/table/aa"), 2);
    assert_eq!(paths(&between.files), ["/table/b", "/table/c"]);
    assert_eq!(between.continuation.as_deref(), Some("/table/c"));
}

#[test]
fn index_pages_are_admitted_before_they_are_copied() {
    let limits = TaskLimits::qualification().with_limit(Resource::LogDescriptors, 8);
    let index = index(&["/table/a"], &limits);
    for (root, entries) in [("/other/", 1), ("/table", 1), ("/table/", 0)] {
        let refused = index.list(root, None, entries, 1 << 20, 1 << 10);
        assert_eq!(
            refused.err().unwrap().kind(),
            FailureKind::MalformedResponse
        );
    }
    let slot = size_of::<FileDescriptor>();
    assert_exhausted(
        index.list("/table/", None, 1, slot - 1, 1 << 10),
        Resource::ListingDescriptorBytes,
        slot - 1,
        slot,
    );
    assert_exhausted(
        index.list("/table/", None, 1, slot + 7, 1 << 10),
        Resource::ListingDescriptorBytes,
        slot + 7,
        slot + 8,
    );
    assert_exhausted(
        index.list("/table/", None, 1, slot + 8, 7),
        Resource::ContinuationBytes,
        7,
        8,
    );
    ok(index.list("/table/", None, 1, slot + 8, 8));
}

#[test]
fn indexes_count_entries_and_bytes() {
    let limits = TaskLimits::qualification().with_limit(Resource::LogDescriptors, 2);
    let mut index = ok(LocalFileIndex::open("/table/".to_string(), &limits));
    ok(index.count_entry());
    ok(index.count_entry());
    assert_exhausted(index.count_entry(), Resource::LogDescriptors, 2, 3);

    let slot = size_of::<FileDescriptor>();
    let limits = limits.with_limit(Resource::DescriptorBytes, 2 * slot + 8);
    let mut index = ok(LocalFileIndex::open("/table/".to_string(), &limits));
    ok(index.index_file("/table/a", 0, 0, ObjectIdentity::new([0; 32])));
    assert_exhausted(
        index.index_file("/table/b", 0, 0, ObjectIdentity::new([0; 32])),
        Resource::DescriptorBytes,
        2 * slot + 8,
        2 * slot + 16,
    );
    assert_eq!(paths(&page(&index, None, 4).files), ["/table/a"]);
}

#[test]
fn released_indexes_serve_nothing() {
    let limits = TaskLimits::qualification().with_limit(Resource::LogDescriptors, 8);
    let mut index = index(&["/table/a"], &limits);
    index.release();
    for root in ["/table/", ""] {
        let refused = index.list(root, None, 1, 1 << 20, 1 << 10);
        assert_eq!(
            refused.err().unwrap().kind(),
            FailureKind::MalformedResponse
        );
    }
}

#[test]
fn reservations_ask_for_what_the_allowances_permit() {
    let slot = size_of::<FileDescriptor>();
    let limits = TaskLimits::qualification()
        .with_limit(Resource::LogDescriptors, 5)
        .with_limit(Resource::DescriptorBytes, 3 * slot + 1);
    assert_eq!(LocalFileIndex::room(&limits), 3);
    let wider = limits.with_limit(Resource::DescriptorBytes, 9 * slot);
    assert_eq!(LocalFileIndex::room(&wider), 5);
    // No allocator grants more than the machine can address.
    let endless = limits
        .with_limit(Resource::LogDescriptors, usize::MAX)
        .with_limit(Resource::DescriptorBytes, usize::MAX);
    let reason = Vec::<FileDescriptor>::new()
        .try_reserve_exact(usize::MAX / slot)
        .unwrap_err()
        .to_string();
    assert_eq!(
        described(LocalFileIndex::open("/table/".to_string(), &endless)),
        format!("cannot reserve local discovery index: {reason}")
    );
}

#[test]
fn granted_storage_is_measured_against_its_limits() {
    let slot = size_of::<FileDescriptor>();
    let limits = TaskLimits::qualification()
        .with_limit(Resource::LogDescriptors, 3)
        .with_limit(Resource::DescriptorBytes, 3 * slot + 20);
    let root = || "/table/".to_string();
    assert_exhausted(
        LocalFileIndex::with_slots(root(), vec![], 4, &limits),
        Resource::DescriptorBytes,
        3 * slot + 20,
        4 * slot,
    );
    let mut index = ok(LocalFileIndex::with_slots(root(), vec![], 3, &limits));
    let identity = ObjectIdentity::new([7; 32]);
    ok(index.index_copy("/table/b".to_string(), 12, 5, 6, identity));
    assert_exhausted(
        index.index_copy("/table/a".to_string(), 9, 0, 0, identity),
        Resource::DescriptorBytes,
        3 * slot + 20,
        3 * slot + 21,
    );
    ok(index.index_copy("/table/a".to_string(), 8, 0, 0, identity));
    assert_eq!(index.window(None, 1), (0, 1));
    assert_eq!(index.window(Some("/table/a"), 4), (1, 1));
    assert_eq!(index.window(Some("/table/b"), 4), (2, 0));

    let listed = page(&index, None, 2);
    assert_eq!(paths(&listed.files), ["/table/a", "/table/b"]);
    let mut files = vec![];
    let copy = || "/table/b".to_string();
    assert_exhausted(
        LocalFileIndex::put_copy(&mut files, &listed.files[1], copy(), 11, 10, 20),
        Resource::ListingDescriptorBytes,
        20,
        21,
    );
    assert!(files.is_empty());
    let used = LocalFileIndex::put_copy(&mut files, &listed.files[1], copy(), 10, 10, 20);
    assert_eq!(ok(used), 20);
    assert_eq!(paths(&files), ["/table/b"]);
    assert_eq!(files[0].size, 5);
    assert_eq!(files[0].modification_time, 6);
    assert_eq!(files[0].identity, identity);

    let again = page(&index, Some("/table/a"), 4).files;
    assert_exhausted(
        index.close_page(again, 1, 1, (copy(), 8), (copy(), 10), 9),
        Resource::ContinuationBytes,
        9,
        10,
    );
    let closed = ok(index.close_page(files, 1, 1, (copy(), 8), (copy(), 9), 9));
    assert_eq!(paths(&closed.files), ["/table/b"]);
    assert_eq!(closed.continuation.as_deref(), Some("/table/b"));
    assert_eq!(closed.binding.as_deref(), Some("/table/b"));
}
