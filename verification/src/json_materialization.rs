//! Borrowed preflight of replayed actions and schema texts, before anything is copied out of them.

use crate::accounting::{Resource, TaskAccounting, TaskLimits};
use crate::bytes::{byte_len, same_text, utf8};
use crate::checks::{allowed, check, counted, exhausted, outcome, uncountable};
use crate::evaluation::Batch;
use crate::failure::{Error, FailureKind, OperationFailure};
use crate::headroom::Headroom;
use crate::json_visitor_allocation::{
    metadata_paths, pm_columns, pm_fixed_peak, pm_owners, protocol_paths,
};
use crate::rows::{carries, outside, GetData, MapItem, PageFault, RowView, Verdict};
use crate::sizing::{fitted, hash_bytes, hash_of, plus};
use crate::table::KernelLayout;
use vstd::arithmetic::overflow::CheckedUsize;
use vstd::layout::size_of;
use vstd::prelude::*;

verus! {

/// Where a lexical scan of a schema text stands.
#[derive(Debug, Clone, Copy, PartialEq, Eq, Structural)]
pub struct Lexer {
    /// The containers that are open.
    pub depth: usize,
    /// The tokens that may become nodes: containers, strings and separators.
    pub nodes: usize,
    /// Inside a string.
    pub quoted: bool,
    /// Behind an escape inside a string.
    pub escaped: bool,
}

/// What one byte does to the scan.
pub open spec fn lexed(limits: TaskLimits, lexer: Lexer, byte: u8) -> Result<Lexer, FailureKind> {
    if lexer.quoted {
        Ok(
            if lexer.escaped {
                Lexer { escaped: false, ..lexer }
            } else if byte == 0x5c {
                Lexer { escaped: true, ..lexer }
            } else if byte == 0x22 {
                Lexer { quoted: false, ..lexer }
            } else {
                lexer
            },
        )
    } else if (byte == 0x7d || byte == 0x5d) && lexer.depth == 0 {
        Err(FailureKind::MalformedResponse)
    } else {
        let next = if byte == 0x22 {
            Lexer { quoted: true, nodes: (lexer.nodes + 1) as usize, ..lexer }
        } else if byte == 0x7b || byte == 0x5b {
            Lexer { depth: (lexer.depth + 1) as usize, nodes: (lexer.nodes + 1) as usize, ..lexer }
        } else if byte == 0x7d || byte == 0x5d {
            Lexer { depth: (lexer.depth - 1) as usize, ..lexer }
        } else if byte == 0x3a || byte == 0x2c {
            Lexer { nodes: (lexer.nodes + 1) as usize, ..lexer }
        } else {
            lexer
        };
        match allowed(limits, Resource::SchemaDepth, next.depth as int) {
            Err(kind) => Err(kind),
            Ok(()) => match allowed(limits, Resource::SchemaNodes, next.nodes as int) {
                Err(kind) => Err(kind),
                Ok(()) => Ok(next),
            },
        }
    }
}

/// Where the scan stands behind the first `n` bytes.
pub open spec fn scanned(limits: TaskLimits, json: Seq<u8>, n: nat) -> Result<Lexer, FailureKind>
    decreases n,
{
    if n == 0 {
        Ok(Lexer { depth: 0, nodes: 0, quoted: false, escaped: false })
    } else {
        match scanned(limits, json, (n - 1) as nat) {
            Err(kind) => Err(kind),
            Ok(lexer) => lexed(limits, lexer, json[n - 1]),
        }
    }
}

/// What the lexical preflight of a schema text gives: its size, its depth and its tokens are within
/// the allowances, and its containers and strings are closed.
pub open spec fn schema_text(limits: TaskLimits, json: Seq<u8>) -> Result<(), FailureKind> {
    match allowed(limits, Resource::PartialJsonBytes, json.len() as int) {
        Err(kind) => Err(kind),
        Ok(()) => match allowed(limits, Resource::WorkUnits, json.len() as int) {
            Err(kind) => Err(kind),
            Ok(()) => match scanned(limits, json, json.len()) {
                Err(kind) => Err(kind),
                Ok(lexer) => if lexer.quoted || lexer.depth != 0 {
                    Err(FailureKind::MalformedResponse)
                } else {
                    Ok(())
                },
            },
        },
    }
}

proof fn scan_failures_stay(limits: TaskLimits, json: Seq<u8>, i: nat, n: nat)
    requires
        i <= n,
    ensures
        scanned(limits, json, i) matches Err(kind) ==> scanned(limits, json, n) == Err::<
            Lexer,
            FailureKind,
        >(kind),
    decreases n,
{
    if i < n {
        scan_failures_stay(limits, json, i, (n - 1) as nat);
    }
}

impl Lexer {
    fn step(&mut self, byte: u8, limits: &TaskLimits) -> (r: Result<(), OperationFailure>)
        requires
            old(self).depth < usize::MAX,
            old(self).nodes < usize::MAX,
        ensures
            match lexed(*limits, *old(self), byte) {
                Ok(next) => r is Ok && *final(self) == next,
                Err(kind) => r matches Err(failure) && failure.is_terminal(kind),
            },
    {
        if self.quoted {
            if self.escaped {
                self.escaped = false;
            } else if byte == 0x5c {
                self.escaped = true;
            } else if byte == 0x22 {
                self.quoted = false;
            }
            return Ok(());
        }
        if byte == 0x22 {
            self.quoted = true;
            self.nodes = self.nodes + 1;
        } else if byte == 0x7b || byte == 0x5b {
            self.depth = self.depth + 1;
            self.nodes = self.nodes + 1;
        } else if byte == 0x7d || byte == 0x5d {
            if self.depth == 0 {
                return Err(OperationFailure::malformed_response());
            }
            self.depth = self.depth - 1;
        } else if byte == 0x3a || byte == 0x2c {
            self.nodes = self.nodes + 1;
        }
        check(Resource::SchemaDepth, self.depth, limits)?;
        check(Resource::SchemaNodes, self.nodes, limits)?;
        Ok(())
    }
}

/// Lexical preflight of a schema text, before a decoder sees it. Nothing is allocated.
///
/// The decoder remains responsible for full syntax and schema semantics. Counting punctuation and
/// string starts bounds decoded nodes even for unknown metadata; escaped quotes are no tokens.
pub fn preflight_schema_json(json: &str, limits: &TaskLimits) -> (r: Result<(), OperationFailure>)
    ensures
        outcome(schema_text(*limits, utf8(json@)), r),
{
    let bytes = json.as_bytes();
    match check(Resource::PartialJsonBytes, bytes.len(), limits) {
        Ok(()) => {},
        Err(failure) => return Err(failure),
    }
    match check(Resource::WorkUnits, bytes.len(), limits) {
        Ok(()) => {},
        Err(failure) => return Err(failure),
    }
    let mut lexer = Lexer { depth: 0, nodes: 0, quoted: false, escaped: false };
    let mut i: usize = 0;
    while i < bytes.len()
        invariant
            i <= bytes@.len(),
            bytes@ == utf8(json@),
            lexer.depth <= i,
            lexer.nodes <= i,
            scanned(*limits, bytes@, i as nat) == Ok::<Lexer, FailureKind>(lexer),
            allowed(*limits, Resource::PartialJsonBytes, bytes@.len() as int) is Ok,
            allowed(*limits, Resource::WorkUnits, bytes@.len() as int) is Ok,
        decreases bytes@.len() - i,
    {
        proof {
            scan_failures_stay(*limits, bytes@, (i + 1) as nat, bytes@.len());
        }
        match lexer.step(bytes[i], limits) {
            Ok(()) => {},
            Err(failure) => return Err(failure),
        }
        i += 1;
    }
    if lexer.quoted || lexer.depth != 0 {
        return Err(OperationFailure::malformed_response());
    }
    Ok(())
}

/// What the preflight says of a page of protocol actions.
///
/// A table is supported at reader version one and writer version two at most, without features.
/// Feature lists are only counted.
pub open spec fn protocol_verdict(rows: usize, getters: Seq<&dyn GetData>) -> Result<
    Verdict,
    PageFault,
> {
    let refused = Ok::<Verdict, PageFault>(
        Verdict::Unsupported("table protocol/features are outside JSON operation tasks"@),
    );
    if rows > 1 || getters.len() != 4 {
        Err(PageFault::Shape("malformed protocol page"@))
    } else if rows == 0 {
        Ok(Verdict::Pass)
    } else {
        match getters[0].int_at(0) {
            Err(error) => Err(PageFault::Cell(error)),
            Ok(None) => Ok(Verdict::Pass),
            Ok(Some(reader)) => match getters[1].int_at(0) {
                Err(error) => Err(PageFault::Cell(error)),
                Ok(writer) => if reader != 1 || (writer matches Some(version) && version > 2) {
                    refused
                } else {
                    match getters[2].list_at(0) {
                        Err(error) => Err(PageFault::Cell(error)),
                        Ok(features) => if features matches Some(count) && count > 0 {
                            refused
                        } else {
                            match getters[3].list_at(0) {
                                Err(error) => Err(PageFault::Cell(error)),
                                Ok(features) => if features matches Some(count) && count > 0 {
                                    refused
                                } else {
                                    Ok(Verdict::Pass)
                                },
                            }
                        },
                    }
                },
            },
        }
    }
}

/// Visits the protocol columns of a page.
pub struct ProtocolPreflight {
    /// Why the page is refused.
    pub failure: Option<OperationFailure>,
}

impl ProtocolPreflight {
    /// Visits the page.
    pub fn visit(&mut self, rows: usize, getters: &Vec<&dyn GetData>) -> (r: Result<(), Error>)
        requires
            old(self).failure is None,
        ensures
            match protocol_verdict(rows, getters@) {
                Ok(verdict) => r is Ok && verdict.delivered(final(self).failure),
                Err(fault) => r matches Err(error) && fault.reported(error),
            },
    {
        if rows > 1 || getters.len() != 4 {
            return Err(Error::generic("malformed protocol page"));
        }
        if rows == 0 {
            return Ok(());
        }
        let reader: i32 = match getters[0].get_int(0, "protocol.minReaderVersion") {
            Err(error) => return Err(error),
            Ok(None) => return Ok(()),
            Ok(Some(reader)) => reader,
        };
        let writer = match getters[1].get_int(0, "protocol.minWriterVersion") {
            Err(error) => return Err(error),
            Ok(writer) => writer,
        };
        let too_new = match writer {
            Some(version) => version > 2,
            None => false,
        };
        let mut refused = reader != 1 || too_new;
        if !refused {
            refused = match getters[2].get_list(0, "protocol.readerFeatures") {
                Err(error) => return Err(error),
                Ok(Some(count)) => count > 0,
                Ok(None) => false,
            };
        }
        if !refused {
            refused = match getters[3].get_list(0, "protocol.writerFeatures") {
                Err(error) => return Err(error),
                Ok(Some(count)) => count > 0,
                Ok(None) => false,
            };
        }
        if refused {
            self.failure = Some(
                outside("table protocol/features are outside JSON operation tasks"),
            );
        }
        Ok(())
    }
}

/// The bytes of a map's first `n` entries that have a value.
pub open spec fn entry_bytes(entries: Seq<(&str, Option<&str>)>, n: nat) -> nat
    decreases n,
{
    if n == 0 {
        0
    } else {
        entry_bytes(entries, (n - 1) as nat) + (match entries[n - 1] {
            (key, Some(value)) => utf8(key@).len() + utf8(value@).len(),
            _ => 0,
        })
    }
}

/// The owners of a map cell: a slot for every entry, null-valued and duplicate ones included, and
/// the bytes of every key and value.
pub open spec fn map_owners(map: Option<MapItem>) -> nat {
    match map {
        None => 0,
        Some(map) => hash_bytes(size_of::<(String, String)>(), map.entries@.len()) + entry_bytes(
            map.entries@,
            map.entries@.len(),
        ),
    }
}

/// The bytes of a text cell.
pub open spec fn cell_bytes(cell: Option<&str>) -> nat {
    match cell {
        Some(text) => utf8(text@).len(),
        None => 0,
    }
}

/// What counting the text cells at `columns` gives: their bytes, or the first that cannot be read.
pub open spec fn texts_total(getters: Seq<&dyn GetData>, columns: Seq<int>) -> Result<nat, PageFault>
    decreases columns.len(),
{
    if columns.len() == 0 {
        Ok(0)
    } else {
        match texts_total(getters, columns.drop_last()) {
            Err(fault) => Err(fault),
            Ok(total) => match getters[columns.last()].text_at(0) {
                Err(error) => Err(PageFault::Cell(error)),
                Ok(cell) => Ok(total + cell_bytes(cell)),
            },
        }
    }
}

/// The owned texts of a metadata action: its identity, name, description, provider and schema.
pub open spec fn owned_columns() -> Seq<int> {
    Seq::empty().push(0int).push(1).push(2).push(3).push(5)
}

/// What reading the owners of a metadata action gives.
pub open spec fn metadata_owners(getters: Seq<&dyn GetData>) -> Result<nat, PageFault> {
    match texts_total(getters, owned_columns()) {
        Err(fault) => Err(fault),
        Ok(texts) => match getters[8].map_at(0) {
            Err(error) => Err(PageFault::Cell(error)),
            Ok(map) => Ok(texts + map_owners(map)),
        },
    }
}

/// What the semantic part of the preflight says of a metadata action: it is not partitioned, its
/// files are Parquet and its schema text is bounded.
pub open spec fn metadata_verdict(getters: Seq<&dyn GetData>, limits: TaskLimits) -> Result<
    Verdict,
    PageFault,
> {
    match getters[6].list_at(0) {
        Err(error) => Err(PageFault::Cell(error)),
        Ok(partitions) => if partitions matches Some(count) && count > 0 {
            Ok(Verdict::Unsupported("partitioned tables are outside JSON operation tasks"@))
        } else {
            match getters[3].text_at(0) {
                Err(error) => Err(PageFault::Cell(error)),
                Ok(provider) => if provider matches Some(name) && utf8(name@) != utf8("parquet"@) {
                    Ok(Verdict::Unsupported("JSON operation tasks require Parquet data files"@))
                } else {
                    match getters[5].text_at(0) {
                        Err(error) => Err(PageFault::Cell(error)),
                        Ok(None) => Ok(Verdict::Pass),
                        Ok(Some(schema)) => match schema_text(limits, utf8(schema@)) {
                            Ok(()) => Ok(Verdict::Pass),
                            Err(kind) => Ok(Verdict::Refused(kind)),
                        },
                    }
                },
            }
        },
    }
}

/// What the preflight says of a page of metadata actions, with the bytes that reading it would own.
pub open spec fn metadata_page(rows: usize, getters: Seq<&dyn GetData>, limits: TaskLimits) -> Result<
    (Verdict, usize),
    PageFault,
> {
    if rows > 1 || getters.len() != 9 {
        Err(PageFault::Shape("malformed metadata page"@))
    } else if rows == 0 {
        Ok((Verdict::Pass, 0))
    } else {
        match getters[0].text_at(0) {
            Err(error) => Err(PageFault::Cell(error)),
            Ok(None) => Ok((Verdict::Pass, 0)),
            Ok(Some(_)) => match metadata_verdict(getters, limits) {
                Err(fault) => Err(fault),
                Ok(Verdict::Pass) => match metadata_owners(getters) {
                    Err(fault) => Err(fault),
                    Ok(total) => match fitted(total as int) {
                        Some(bytes) => Ok((Verdict::Pass, bytes)),
                        None => Ok(
                            (
                                Verdict::Refused(
                                    uncountable(limits, Resource::MetadataAllocatedBytes),
                                ),
                                0,
                            ),
                        ),
                    },
                },
                Ok(verdict) => Ok((verdict, 0)),
            },
        }
    }
}

/// Visits the metadata columns of a page.
pub struct SchemaPreflight<'a> {
    /// The allowances.
    pub limits: &'a TaskLimits,
    /// Why the page is refused.
    pub failure: Option<OperationFailure>,
    /// The bytes that reading the page would own.
    pub owned_bytes: usize,
}

impl<'a> SchemaPreflight<'a> {
    /// Visits the page.
    pub fn visit(&mut self, rows: usize, getters: &Vec<&dyn GetData>) -> (r: Result<(), Error>)
        requires
            old(self).failure is None,
            old(self).owned_bytes == 0,
        ensures
            final(self).limits == old(self).limits,
            match metadata_page(rows, getters@, *old(self).limits) {
                Ok((verdict, bytes)) => r is Ok && verdict.delivered(final(self).failure)
                    && final(self).owned_bytes == bytes,
                Err(fault) => r matches Err(error) && fault.reported(error),
            },
    {
        if rows > 1 || getters.len() != 9 {
            return Err(Error::generic("malformed metadata page"));
        }
        if rows == 0 {
            return Ok(());
        }
        match getters[0].get_str(0, "metaData.id") {
            Err(error) => return Err(error),
            Ok(None) => return Ok(()),
            Ok(Some(_)) => {},
        }
        self.judge(getters)?;
        if self.failure.is_some() {
            return Ok(());
        }
        let owned = owned_by(getters)?;
        match owned.to_option() {
            Some(bytes) => {
                self.owned_bytes = bytes;
            },
            None => {
                self.failure = Some(exhausted(Resource::MetadataAllocatedBytes, self.limits));
            },
        }
        Ok(())
    }

    fn judge(&mut self, getters: &Vec<&dyn GetData>) -> (r: Result<(), Error>)
        requires
            getters@.len() == 9,
            old(self).failure is None,
        ensures
            final(self).limits == old(self).limits,
            final(self).owned_bytes == old(self).owned_bytes,
            match metadata_verdict(getters@, *old(self).limits) {
                Ok(verdict) => r is Ok && verdict.delivered(final(self).failure),
                Err(fault) => r matches Err(error) && fault.reported(error),
            },
    {
        let partitioned = match getters[6].get_list(0, "metaData.partitionColumns") {
            Err(error) => return Err(error),
            Ok(Some(count)) => count > 0,
            Ok(None) => false,
        };
        if partitioned {
            self.failure = Some(outside("partitioned tables are outside JSON operation tasks"));
            return Ok(());
        }
        let foreign = match getters[3].get_str(0, "metaData.format.provider") {
            Err(error) => return Err(error),
            Ok(Some(provider)) => !same_text(provider, "parquet"),
            Ok(None) => false,
        };
        if foreign {
            self.failure = Some(outside("JSON operation tasks require Parquet data files"));
            return Ok(());
        }
        match getters[5].get_str(0, "metaData.schemaString") {
            Err(error) => Err(error),
            Ok(None) => Ok(()),
            Ok(Some(schema)) => {
                match preflight_schema_json(schema, self.limits) {
                    Ok(()) => {},
                    Err(failure) => {
                        self.failure = Some(failure);
                    },
                }
                Ok(())
            },
        }
    }
}

fn add_text(
    getters: &Vec<&dyn GetData>,
    column: usize,
    total: CheckedUsize,
    Ghost(before): Ghost<Seq<int>>,
) -> (r: Result<CheckedUsize, Error>)
    requires
        column < getters@.len(),
        texts_total(getters@, before) == Ok::<nat, PageFault>(total@),
    ensures
        match texts_total(getters@, before.push(column as int)) {
            Ok(sum) => r matches Ok(total) && total@ == sum,
            Err(fault) => r matches Err(error) && fault.reported(error),
        },
{
    assert(before.push(column as int).drop_last() =~= before);
    match getters[column].get_str(0, "metaData string") {
        Err(error) => Err(error),
        Ok(None) => Ok(total),
        Ok(Some(text)) => Ok(total.add_value(byte_len(text))),
    }
}

proof fn text_failures_stay(getters: Seq<&dyn GetData>, columns: Seq<int>, more: Seq<int>)
    ensures
        texts_total(getters, columns) matches Err(fault) ==> texts_total(getters, columns + more)
            == Err::<nat, PageFault>(fault),
    decreases more.len(),
{
    if more.len() == 0 {
        assert(columns + more =~= columns);
    } else {
        text_failures_stay(getters, columns, more.drop_last());
        assert((columns + more).drop_last() =~= columns + more.drop_last());
    }
}

fn owned_by(getters: &Vec<&dyn GetData>) -> (r: Result<CheckedUsize, Error>)
    requires
        getters@.len() == 9,
    ensures
        match metadata_owners(getters@) {
            Ok(sum) => r matches Ok(total) && total@ == sum,
            Err(fault) => r matches Err(error) && fault.reported(error),
        },
{
    let ghost none = Seq::<int>::empty();
    let ghost c0 = none.push(0int);
    let ghost c1 = c0.push(1int);
    let ghost c2 = c1.push(2int);
    let ghost c3 = c2.push(3int);
    proof {
        text_failures_stay(getters@, c0, Seq::empty().push(1int).push(2).push(3).push(5));
        text_failures_stay(getters@, c1, Seq::empty().push(2int).push(3).push(5));
        text_failures_stay(getters@, c2, Seq::empty().push(3int).push(5));
        text_failures_stay(getters@, c3, Seq::empty().push(5int));
        assert(c0 + Seq::empty().push(1int).push(2).push(3).push(5) =~= owned_columns());
        assert(c1 + Seq::empty().push(2int).push(3).push(5) =~= owned_columns());
        assert(c2 + Seq::empty().push(3int).push(5) =~= owned_columns());
        assert(c3 + Seq::empty().push(5int) =~= owned_columns());
    }
    let total = add_text(getters, 0, CheckedUsize::new(0), Ghost(none))?;
    let total = add_text(getters, 1, total, Ghost(c0))?;
    let total = add_text(getters, 2, total, Ghost(c1))?;
    let total = add_text(getters, 3, total, Ghost(c2))?;
    let total = add_text(getters, 5, total, Ghost(c3))?;
    match getters[8].get_map(0, "metaData.configuration") {
        Err(error) => Err(error),
        Ok(None) => Ok(total),
        Ok(Some(map)) => Ok(plus(&total, &map_total(&map))),
    }
}

fn map_total(map: &MapItem) -> (total: CheckedUsize)
    ensures
        total@ == map_owners(Some(*map)),
{
    let mut total = hash_of::<(String, String)>(map.entries.len());
    let mut i: usize = 0;
    while i < map.entries.len()
        invariant
            i <= map.entries@.len(),
            total@ == hash_bytes(size_of::<(String, String)>(), map.entries@.len()) + entry_bytes(
                map.entries@,
                i as nat,
            ),
        decreases map.entries@.len() - i,
    {
        let (key, value) = map.entries[i];
        if let Some(value) = value {
            total = total.add_value(byte_len(key)).add_value(byte_len(value));
        }
        i += 1;
    }
    total
}

/// What a preflight is given: the allowances, the ledger, what the task holds and the sizes of
/// outside owners.
pub struct Admission<'a> {
    /// The allowances.
    pub limits: &'a TaskLimits,
    /// The ledger.
    pub accounting: &'a TaskAccounting,
    /// What the task holds.
    pub headroom: Headroom,
    /// The sizes of outside owners.
    pub layout: &'a KernelLayout,
}

impl<'a> Admission<'a> {
    /// What owning `bytes` bytes of metadata gives.
    pub open spec fn metadata(self, bytes: usize) -> Result<(), FailureKind> {
        match allowed(*self.limits, Resource::MetadataAllocatedBytes, bytes as int) {
            Err(kind) => Err(kind),
            Ok(()) => match allowed(*self.limits, Resource::TaskStateBytes, bytes as int) {
                Err(kind) => Err(kind),
                Ok(()) => self.headroom.considered(
                    self.accounting.allowances(),
                    *self.limits,
                    bytes,
                ),
            },
        }
    }

    fn admit_metadata(&self, bytes: usize) -> (r: Result<(), OperationFailure>)
        ensures
            outcome(self.metadata(bytes), r),
    {
        match check(Resource::MetadataAllocatedBytes, bytes, self.limits) {
            Ok(()) => {},
            Err(failure) => return Err(failure),
        }
        match check(Resource::TaskStateBytes, bytes, self.limits) {
            Ok(()) => {},
            Err(failure) => return Err(failure),
        }
        self.headroom.consider(self.accounting, self.limits, bytes)
    }

    /// What opening a batch of replayed actions gives: the fixed owners of reading it.
    pub open spec fn opened(self, rows: usize) -> Result<usize, FailureKind> {
        if rows > 1 {
            Err(FailureKind::MalformedResponse)
        } else {
            match fitted(pm_owners(*self.layout) as int) {
                None => Err(uncountable(*self.limits, Resource::MetadataAllocatedBytes)),
                Some(fixed) => match self.metadata(fixed) {
                    Err(kind) => Err(kind),
                    Ok(()) => Ok(fixed),
                },
            }
        }
    }

    /// What adding the owners of the actions themselves gives.
    pub open spec fn settled(self, fixed: usize, owned: usize) -> Result<usize, FailureKind> {
        match fitted(fixed + owned) {
            None => Err(uncountable(*self.limits, Resource::MetadataAllocatedBytes)),
            Some(bytes) => match self.metadata(bytes) {
                Err(kind) => Err(kind),
                Ok(()) => Ok(bytes),
            },
        }
    }

    /// Opens a batch of replayed actions.
    pub fn open_batch(&self, rows: usize) -> (r: Result<usize, OperationFailure>)
        ensures
            outcome(self.opened(rows), r),
    {
        if rows > 1 {
            return Err(OperationFailure::malformed_response());
        }
        let fixed: usize = counted(
            pm_fixed_peak(self.layout),
            Resource::MetadataAllocatedBytes,
            self.limits,
        )?;
        match self.admit_metadata(fixed) {
            Ok(()) => Ok(fixed),
            Err(failure) => Err(failure),
        }
    }

    /// Adds the owners of the actions themselves.
    pub fn settle(&self, fixed: usize, owned: usize) -> (r: Result<usize, OperationFailure>)
        ensures
            outcome(self.settled(fixed, owned), r),
    {
        let bytes: usize = match fixed.checked_add(owned) {
            Some(bytes) => bytes,
            None => return Err(exhausted(Resource::MetadataAllocatedBytes, self.limits)),
        };
        match self.admit_metadata(bytes) {
            Ok(()) => Ok(bytes),
            Err(failure) => Err(failure),
        }
    }
}

/// `r` is what the protocol columns of a batch are judged to be.
pub open spec fn protocol_judged(view: Result<RowView, Error>, r: Result<(), OperationFailure>) -> bool {
    match view {
        Err(error) => r matches Err(failure) && carries(failure, error),
        Ok(page) => match protocol_verdict(page.rows, page.getters@) {
            Err(fault) => r matches Err(failure) && fault.carried(failure),
            Ok(verdict) => match r {
                Ok(()) => verdict is Pass,
                Err(failure) => !(verdict is Pass) && verdict.delivered(Some(failure)),
            },
        },
    }
}

/// Judges the protocol columns of a batch.
pub fn judge_protocol(view: Result<RowView, Error>) -> (r: Result<(), OperationFailure>)
    ensures
        protocol_judged(view, r),
{
    match view {
        Err(error) => Err(OperationFailure::engine(error)),
        Ok(page) => {
            let mut visitor = ProtocolPreflight { failure: None };
            match visitor.visit(page.rows, &page.getters) {
                Err(error) => return Err(OperationFailure::engine(error)),
                Ok(()) => {},
            }
            match visitor.failure {
                Some(failure) => Err(failure),
                None => Ok(()),
            }
        },
    }
}

/// `r` is what the metadata columns of a batch are judged to own.
pub open spec fn metadata_judged(
    view: Result<RowView, Error>,
    limits: TaskLimits,
    r: Result<usize, OperationFailure>,
) -> bool {
    match view {
        Err(error) => r matches Err(failure) && carries(failure, error),
        Ok(page) => match metadata_page(page.rows, page.getters@, limits) {
            Err(fault) => r matches Err(failure) && fault.carried(failure),
            Ok((verdict, bytes)) => match r {
                Ok(owned) => verdict is Pass && owned == bytes,
                Err(failure) => !(verdict is Pass) && verdict.delivered(Some(failure)),
            },
        },
    }
}

/// Judges the metadata columns of a batch.
pub fn judge_metadata(view: Result<RowView, Error>, limits: &TaskLimits) -> (r: Result<
    usize,
    OperationFailure,
>)
    ensures
        metadata_judged(view, *limits, r),
{
    match view {
        Err(error) => Err(OperationFailure::engine(error)),
        Ok(page) => {
            let mut visitor = SchemaPreflight { limits, failure: None, owned_bytes: 0 };
            match visitor.visit(page.rows, &page.getters) {
                Err(error) => return Err(OperationFailure::engine(error)),
                Ok(()) => {},
            }
            match visitor.failure {
                Some(failure) => Err(failure),
                None => Ok(visitor.owned_bytes),
            }
        },
    }
}

/// `r` follows from judging the protocol columns, and where they pass the metadata columns.
pub open spec fn actions_judged(
    admission: Admission,
    fixed: usize,
    protocol: Result<RowView, Error>,
    metadata: Result<RowView, Error>,
    r: Result<usize, OperationFailure>,
) -> bool {
    exists|first: Result<(), OperationFailure>|
        {
            &&& #[trigger] protocol_judged(protocol, first)
            &&& match first {
                Err(failure) => r == Err::<usize, OperationFailure>(failure),
                Ok(()) => owners_judged(admission, fixed, metadata, r),
            }
        }
}

/// `r` follows from judging the metadata columns.
pub open spec fn owners_judged(
    admission: Admission,
    fixed: usize,
    metadata: Result<RowView, Error>,
    r: Result<usize, OperationFailure>,
) -> bool {
    exists|second: Result<usize, OperationFailure>|
        {
            &&& #[trigger] metadata_judged(metadata, *admission.limits, second)
            &&& match second {
                Err(failure) => r == Err::<usize, OperationFailure>(failure),
                Ok(owned) => outcome(admission.settled(fixed, owned), r),
            }
        }
}

/// `r` is what the preflight of a batch of `rows` rows gives, where it shows its columns so.
pub open spec fn preflighted(
    admission: Admission,
    rows: usize,
    protocol: Result<RowView, Error>,
    metadata: Result<RowView, Error>,
    r: Result<usize, OperationFailure>,
) -> bool {
    match admission.opened(rows) {
        Err(kind) => r matches Err(failure) && failure.is_terminal(kind),
        Ok(fixed) => actions_judged(admission, fixed, protocol, metadata, r),
    }
}

/// The columns of protocol actions.
pub open spec fn protocol_columns() -> Seq<Seq<Seq<char>>> {
    pm_columns().subrange(0, 4)
}

/// The columns of metadata actions.
pub open spec fn metadata_columns() -> Seq<Seq<Seq<char>>> {
    pm_columns().subrange(4, 13)
}

/// The protocol columns pass, so that the metadata columns are looked at.
pub open spec fn protocol_passes(view: Result<RowView, Error>) -> bool {
    protocol_judged(view, Ok::<(), OperationFailure>(()))
}

/// Bounds what reading replayed actions out of a batch would own.
///
/// Borrowed views refuse features and partitions before anything copies them. The fixed owners are
/// admitted before the first view, and the whole before any action is read.
pub fn preflight_pm(batch: &Batch, admission: Admission) -> (r: Result<usize, OperationFailure>)
    ensures
        exists|protocol: Result<RowView, Error>, metadata: Result<RowView, Error>|
            {
                &&& admission.opened(batch.row_count()) is Ok ==> batch.shows(
                    protocol_columns(),
                    protocol,
                )
                &&& admission.opened(batch.row_count()) is Ok && protocol_passes(protocol)
                    ==> batch.shows(metadata_columns(), metadata)
                &&& #[trigger] preflighted(admission, batch.row_count(), protocol, metadata, r)
            },
{
    let fixed: usize = match admission.open_batch(batch.len()) {
        Ok(fixed) => fixed,
        Err(failure) => {
            let r = Err(failure);
            let ghost nothing: Result<RowView, Error> = Err(Error::Cancelled);
            assert(preflighted(admission, batch.row_count(), nothing, nothing, r));
            return r;
        },
    };
    let view = batch.visit_rows(&protocol_paths());
    let ghost protocol = view;
    let first = judge_protocol(view);
    let ghost judged = first;
    match first {
        Ok(()) => {},
        Err(failure) => {
            let r = Err(failure);
            assert(protocol_judged(protocol, judged));
            assert(!protocol_passes(protocol));
            assert(preflighted(admission, batch.row_count(), protocol, protocol, r));
            return r;
        },
    }
    let view = batch.visit_rows(&metadata_paths());
    let ghost metadata = view;
    let second = judge_metadata(view, admission.limits);
    let ghost counted = second;
    let r = match second {
        Ok(owned) => admission.settle(fixed, owned),
        Err(failure) => Err(failure),
    };
    assert(protocol_judged(protocol, judged));
    assert(metadata_judged(metadata, *admission.limits, counted));
    assert(preflighted(admission, batch.row_count(), protocol, metadata, r));
    r
}

/// Whether the byte at `n` stands inside a string, and whether it is escaped there.
pub open spec fn in_string(json: Seq<u8>, n: nat) -> (bool, bool)
    decreases n,
{
    if n == 0 {
        (false, false)
    } else {
        let (quoted, escaped) = in_string(json, (n - 1) as nat);
        let quote = json[n - 1] == 34u8;
        let backslash = json[n - 1] == 92u8;
        (
            if quoted {
                escaped || !quote
            } else {
                quote
            },
            quoted && !escaped && backslash,
        )
    }
}

/// How many containers are open in front of the byte at `n`.
pub open spec fn nesting(json: Seq<u8>, n: nat) -> int
    decreases n,
{
    if n == 0 {
        0
    } else {
        let (quoted, _) = in_string(json, (n - 1) as nat);
        nesting(json, (n - 1) as nat) + (if quoted {
            0int
        } else if json[n - 1] == 123u8 || json[n - 1] == 91u8 {
            1
        } else if json[n - 1] == 125u8 || json[n - 1] == 93u8 {
            -1
        } else {
            0
        })
    }
}

/// How many strings and containers begin, and how many separators stand, in front of the byte at `n`.
pub open spec fn marks(json: Seq<u8>, n: nat) -> int
    decreases n,
{
    if n == 0 {
        0
    } else {
        let (quoted, _) = in_string(json, (n - 1) as nat);
        marks(json, (n - 1) as nat) + (if !quoted && (json[n - 1] == 34u8 || json[n - 1] == 123u8
            || json[n - 1] == 91u8 || json[n - 1] == 58u8 || json[n - 1] == 44u8) {
            1int
        } else {
            0
        })
    }
}

/// A container that was not opened is not closed, and neither the depth nor the marks exceed their
/// allowances, as far as the byte at `n`.
pub open spec fn in_bounds(limits: TaskLimits, json: Seq<u8>, n: nat) -> bool {
    forall|k: nat|
        k <= n ==> {
            &&& 0 <= #[trigger] nesting(json, k) <= limits.allowance(Resource::SchemaDepth)
            &&& marks(json, k) <= limits.allowance(Resource::SchemaNodes)
        }
}

proof fn scans_count_what_is_open(limits: TaskLimits, json: Seq<u8>, n: nat)
    requires
        n <= json.len(),
        json.len() < usize::MAX,
    ensures
        nesting(json, n) <= n,
        0 <= marks(json, n) <= n,
        scanned(limits, json, n) is Ok <==> in_bounds(limits, json, n),
        scanned(limits, json, n) matches Ok(lexer) ==> {
            &&& lexer.depth == nesting(json, n)
            &&& lexer.nodes == marks(json, n)
            &&& (lexer.quoted, lexer.escaped) == in_string(json, n)
        },
    decreases n,
{
    if n > 0 {
        let m = (n - 1) as nat;
        scans_count_what_is_open(limits, json, m);
        if in_bounds(limits, json, n) {
            assert(in_bounds(limits, json, m));
            assert(0 <= nesting(json, n) <= limits.allowance(Resource::SchemaDepth));
        }
        if scanned(limits, json, n) is Ok {
            assert forall|k: nat| k <= n implies {
                &&& 0 <= #[trigger] nesting(json, k) <= limits.allowance(Resource::SchemaDepth)
                &&& marks(json, k) <= limits.allowance(Resource::SchemaNodes)
            } by {
                assert(0 <= nesting(json, m) <= limits.allowance(Resource::SchemaDepth));
                if k < n {
                    assert(k <= m);
                }
            }
        }
    } else {
        assert(0 <= nesting(json, 0) <= limits.allowance(Resource::SchemaDepth));
    }
}

/// A schema text is taken exactly where its length is within the allowances of text and work, every
/// container and every string in it is closed, none is closed that was not opened, and at no byte its
/// depth or its marks exceed their allowances.
pub proof fn balanced_texts_are_taken(limits: TaskLimits, json: Seq<u8>)
    requires
        json.len() < usize::MAX,
    ensures
        schema_text(limits, json) is Ok <==> {
            &&& json.len() <= limits.allowance(Resource::PartialJsonBytes)
            &&& json.len() <= limits.allowance(Resource::WorkUnits)
            &&& in_bounds(limits, json, json.len())
            &&& nesting(json, json.len()) == 0
            &&& !in_string(json, json.len()).0
        },
{
    scans_count_what_is_open(limits, json, json.len());
}

/// A protocol passes exactly where there is none, or it asks for reader version one, for no writer
/// version beyond two, and for no feature.
pub proof fn plain_protocols_pass(rows: usize, getters: Seq<&dyn GetData>)
    ensures
        protocol_verdict(rows, getters) == Ok::<Verdict, PageFault>(Verdict::Pass) <==> {
            &&& rows <= 1
            &&& getters.len() == 4
            &&& rows == 1 ==> {
                &&& getters[0].int_at(0) matches Ok(reader)
                &&& reader matches Some(reader) ==> {
                    &&& reader == 1
                    &&& getters[1].int_at(0) matches Ok(writer)
                    &&& writer matches Some(writer) ==> writer <= 2
                    &&& getters[2].list_at(0) matches Ok(readers)
                    &&& readers matches Some(count) ==> count == 0
                    &&& getters[3].list_at(0) matches Ok(writers)
                    &&& writers matches Some(count) ==> count == 0
                }
            }
        },
{
}

/// Metadata passes exactly where there is none, or where it has no partitions, a provider that is
/// Parquet if one is named, a schema text that is taken if there is one, and cells that can be read
/// and counted. What it owns is then the bytes of its texts and of its map.
pub proof fn plain_metadata_passes(rows: usize, getters: Seq<&dyn GetData>, limits: TaskLimits)
    ensures
        ({
            let page = metadata_page(rows, getters, limits);
            &&& (page matches Ok((Verdict::Pass, _))) <==> {
                &&& rows <= 1
                &&& getters.len() == 9
                &&& rows == 1 ==> {
                    &&& getters[0].text_at(0) matches Ok(id)
                    &&& id is Some ==> {
                        &&& getters[6].list_at(0) matches Ok(partitions)
                        &&& partitions matches Some(count) ==> count == 0
                        &&& getters[3].text_at(0) matches Ok(provider)
                        &&& provider matches Some(name) ==> utf8(name@) == utf8("parquet"@)
                        &&& getters[5].text_at(0) matches Ok(schema)
                        &&& schema matches Some(text) ==> schema_text(limits, utf8(text@)) is Ok
                        &&& getters[1].text_at(0) matches Ok(name)
                        &&& getters[2].text_at(0) matches Ok(description)
                        &&& getters[8].map_at(0) matches Ok(map)
                        &&& cell_bytes(id) + cell_bytes(name) + cell_bytes(description) + cell_bytes(
                            provider,
                        ) + cell_bytes(schema) + map_owners(map) <= usize::MAX
                    }
                }
            }
            &&& page matches Ok((Verdict::Pass, owned)) ==> {
                if rows == 1 && getters[0].text_at(0)->Ok_0 is Some {
                    owned == cell_bytes(getters[0].text_at(0)->Ok_0) + cell_bytes(
                        getters[1].text_at(0)->Ok_0,
                    ) + cell_bytes(getters[2].text_at(0)->Ok_0) + cell_bytes(
                        getters[3].text_at(0)->Ok_0,
                    ) + cell_bytes(getters[5].text_at(0)->Ok_0) + map_owners(
                        getters[8].map_at(0)->Ok_0,
                    )
                } else {
                    owned == 0
                }
            }
        }),
{
    let columns = owned_columns();
    let c4 = columns.drop_last();
    let c3 = c4.drop_last();
    let c2 = c3.drop_last();
    let c1 = c2.drop_last();
    let c0 = c1.drop_last();
    assert(columns.last() == 5 && c4.last() == 3 && c3.last() == 2 && c2.last() == 1 && c1.last()
        == 0 && c0.len() == 0);
    assert(texts_total(getters, c0) == Ok::<nat, PageFault>(0));
    reveal_with_fuel(texts_total, 7);
}

/// Owned texts are counted by their bytes, and a map by its table and every entry that has a value.
pub proof fn entries_add_their_bytes(entries: Seq<(&str, Option<&str>)>, n: nat)
    requires
        n < entries.len(),
    ensures
        entry_bytes(entries, n + 1) == entry_bytes(entries, n) + (match entries[n as int] {
            (key, Some(value)) => utf8(key@).len() + utf8(value@).len(),
            (_, None) => 0,
        }),
        entry_bytes(entries, 0) == 0,
{
}

/// Metadata is admitted exactly where it is within the allowances of metadata and of storage, and has
/// room beside what is held.
pub proof fn metadata_is_admitted_where_there_is_room(
    admission: Admission,
    rows: usize,
    fixed: usize,
    owned: usize,
)
    ensures
        admission.settled(fixed, owned) is Ok <==> {
            &&& fixed + owned <= admission.limits.allowance(Resource::MetadataAllocatedBytes)
            &&& fixed + owned <= admission.limits.allowance(Resource::TaskStateBytes)
            &&& admission.headroom.considered(
                admission.accounting.allowances(),
                *admission.limits,
                (fixed + owned) as usize,
            ) is Ok
        },
        admission.settled(fixed, owned) matches Ok(bytes) ==> bytes == fixed + owned,
        admission.opened(rows) is Ok <==> {
            let owners = pm_owners(*admission.layout);
            &&& rows <= 1
            &&& owners <= admission.limits.allowance(Resource::MetadataAllocatedBytes)
            &&& owners <= admission.limits.allowance(Resource::TaskStateBytes)
            &&& admission.headroom.considered(
                admission.accounting.allowances(),
                *admission.limits,
                owners as usize,
            ) is Ok
        },
        admission.opened(rows) matches Ok(bytes) ==> bytes == pm_owners(*admission.layout),
{
}

} // verus!
