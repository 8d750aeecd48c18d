//! Temporary owners and work of resolving a path against a table root, rejected authority forms
//! included.
//!
//! The URL parser remains authoritative for normalization and confinement. These bounds follow
//! its branches: a plain relative path only appends to the base, while any other form may reach
//! host parsing with its Unicode normalization.

use crate::bytes::utf8;
use crate::sizing::{fitted, plus, text_bytes, text_total, vector_bytes, vector_of, vector_total};
use vstd::arithmetic::overflow::CheckedUsize;
use vstd::layout::size_of;
use vstd::prelude::*;

verus! {

/// The walks over a serialized URL: scheme, authority, host and port, whitespace, percent
/// decoding, address parts, address numbers, path, query, fragment, serialization, path clone, base
/// copy and confinement.
pub const URL_WALKS: usize = 14;

/// The walks over the scalars of a host: prefix, labels, mapping, normalization, encoded form,
/// normalized equality, validity, hyphens, directions, joiners, label output, rejected labels and
/// rejected output.
pub const LABEL_WALKS: usize = 13;

/// A path that only appends to its base: it names no scheme, authority or host.
///
/// This is sufficient, not necessary.
pub open spec fn plain_relative(path: Seq<u8>) -> bool {
    &&& path.len() > 0 ==> path[0] != 0x2f
    &&& forall|i: int|
        0 <= i < path.len() ==> (#[trigger] path[i]) != 0x3a && path[i] != 0x5c && path[i] > 0x20
            && path[i] != 0x7f
}

/// The scalars that a host of so many bytes may decompose to.
pub open spec fn host_scalars(bytes: nat) -> nat {
    18 * bytes
}

/// The bytes of a host's encoded form: ten digits for each scalar, and a prefix and separator for
/// each label.
pub open spec fn host_bytes(bytes: nat) -> nat {
    10 * host_scalars(bytes) + 5 * (host_scalars(bytes) + 1)
}

/// The larger of two counts.
pub open spec fn larger(left: nat, right: nat) -> nat {
    if left >= right {
        left
    } else {
        right
    }
}

/// The owners of resolving any form of path.
pub open spec fn general_join_bytes(root: nat, bytes: nat) -> nat {
    let scalars = host_scalars(bytes);
    let labels = scalars + 1;
    let encoded = host_bytes(bytes);
    let text = text_bytes(root + 3 * bytes + encoded + 47) + 2 * text_bytes(bytes) + text_bytes(
        encoded,
    );
    let names = vector_bytes(size_of::<char>(), larger(scalars, 253)) + vector_bytes(
        size_of::<[usize; 3]>(),
        larger(labels, 8),
    ) + 2 * vector_bytes(size_of::<char>(), larger(bytes, 59)) + vector_bytes(
        size_of::<(usize, char)>(),
        larger(bytes, 59),
    );
    let normalization = vector_bytes(size_of::<u32>(), larger(scalars, 17)) + vector_bytes(
        size_of::<u32>(),
        scalars,
    );
    let address = vector_bytes(size_of::<&str>(), encoded + 1) + vector_bytes(size_of::<u32>(), 4);
    text + names + normalization + address
}

/// The owners of resolving a path against a root of `root` bytes.
pub open spec fn join_bytes(root: nat, path: Seq<u8>) -> nat {
    if plain_relative(path) {
        text_bytes(root + 3 * path.len())
    } else {
        general_join_bytes(root, path.len())
    }
}

/// The work of resolving a path against a root of `root` bytes, with the caller's clone of the path
/// and its confinement comparison.
///
/// A plain relative path is walked seven times and its root three times. Any other form is charged
/// every walk of the parser, every pair of scalars that normalization and encoding may compare, and
/// every digit that encoding may emit.
pub open spec fn join_steps(root: nat, path: Seq<u8>) -> nat {
    let bytes = path.len();
    if plain_relative(path) {
        7 * bytes + 3 * root
    } else {
        let scalars = host_scalars(bytes);
        let serialized = root + 3 * bytes + host_bytes(bytes);
        URL_WALKS as nat * serialized + LABEL_WALKS as nat * scalars + 6 * (scalars * scalars) + 2 * (bytes
            * bytes) + 42 * scalars
    }
}

fn is_plain_relative(path: &str) -> (r: bool)
    ensures
        r == plain_relative(utf8(path@)),
{
    let bytes = path.as_bytes();
    if bytes.len() > 0 && bytes[0] == 0x2f {
        return false;
    }
    let mut i: usize = 0;
    while i < bytes.len()
        invariant
            i <= bytes@.len(),
            bytes@ == utf8(path@),
            forall|j: int|
                0 <= j < i ==> (#[trigger] bytes@[j]) != 0x3a && bytes@[j] != 0x5c && bytes@[j]
                    > 0x20 && bytes@[j] != 0x7f,
        decreases bytes@.len() - i,
    {
        let byte: u8 = bytes[i];
        if byte == 0x3a || byte == 0x5c || byte <= 0x20 || byte == 0x7f {
            assert(bytes@[i as int] == byte);
            return false;
        }
        i += 1;
    }
    true
}

fn at_least(items: &CheckedUsize, minimum: usize) -> (r: CheckedUsize)
    ensures
        r@ == larger(items@, minimum as nat),
{
    match items.to_option() {
        Some(count) => if count >= minimum {
            CheckedUsize::new(count)
        } else {
            CheckedUsize::new(minimum)
        },
        None => items.add_value(0),
    }
}

fn general_join_total(root_bytes: usize, bytes: usize) -> (total: CheckedUsize)
    ensures
        total@ == general_join_bytes(root_bytes as nat, bytes as nat),
{
    let length = CheckedUsize::new(bytes);
    let scalars = length.mul_value(18);
    let labels = scalars.add_value(1);
    let encoded = plus(&scalars.mul_value(10), &labels.mul_value(5));
    let serialization = plus(
        &plus(&CheckedUsize::new(root_bytes), &length.mul_value(3)),
        &encoded,
    ).add_value(47);
    let text = plus(
        &plus(&text_total(&serialization), &text_total(&length).mul_value(2)),
        &text_total(&encoded),
    );
    let domain = vector_total(core::mem::size_of::<char>(), &at_least(&scalars, 253));
    let kinds = vector_total(core::mem::size_of::<[usize; 3]>(), &at_least(&labels, 8));
    let label = vector_total(core::mem::size_of::<char>(), &at_least(&length, 59));
    let insertions = vector_total(core::mem::size_of::<(usize, char)>(), &at_least(&length, 59));
    let names = plus(&plus(&plus(&domain, &kinds), &label.mul_value(2)), &insertions);
    let buffer = vector_total(core::mem::size_of::<u32>(), &at_least(&scalars, 17));
    let sorting = vector_total(core::mem::size_of::<u32>(), &scalars);
    let normalization = plus(&buffer, &sorting);
    let parts = vector_total(core::mem::size_of::<&str>(), &encoded.add_value(1));
    let address = plus(&parts, &vector_of::<u32>(4));
    plus(&plus(&plus(&text, &names), &normalization), &address)
}

/// Bounds the owners of resolving any form of path.
pub fn general_join_peak(root_bytes: usize, bytes: usize) -> (r: Option<usize>)
    ensures
        r == fitted(general_join_bytes(root_bytes as nat, bytes as nat) as int),
{
    general_join_total(root_bytes, bytes).to_option()
}

/// Bounds the owners of resolving a path against a root of `root_bytes` bytes.
pub fn join_peak(root_bytes: usize, path: &str) -> (r: Option<usize>)
    ensures
        r == fitted(join_bytes(root_bytes as nat, utf8(path@)) as int),
{
    let bytes: usize = path.as_bytes().len();
    if is_plain_relative(path) {
        let serialization = plus(
            &CheckedUsize::new(root_bytes),
            &CheckedUsize::new(bytes).mul_value(3),
        );
        return text_total(&serialization).to_option();
    }
    general_join_peak(root_bytes, bytes)
}

/// Bounds the work of resolving a path against a root of `root_bytes` bytes, with the caller's
/// clone of the path and its confinement comparison.
///
/// Callers prepay the path's own bytes before this classification.
pub fn join_work(root_bytes: usize, path: &str) -> (r: Option<usize>)
    ensures
        r == fitted(join_steps(root_bytes as nat, utf8(path@)) as int),
{
    let length = CheckedUsize::new(path.as_bytes().len());
    let root = CheckedUsize::new(root_bytes);
    if is_plain_relative(path) {
        return plus(&length.mul_value(7), &root.mul_value(3)).to_option();
    }
    let scalars = length.mul_value(18);
    let encoded = plus(&scalars.mul_value(10), &scalars.add_value(1).mul_value(5));
    let serialized = plus(&plus(&root, &length.mul_value(3)), &encoded);
    let linear = plus(&serialized.mul_value(URL_WALKS), &scalars.mul_value(LABEL_WALKS));
    let scalar_pairs = scalars.mul_checked(&scalars).mul_value(6);
    let byte_pairs = length.mul_checked(&length).mul_value(2);
    let digits = scalars.mul_value(42);
    plus(&plus(&plus(&linear, &scalar_pairs), &byte_pairs), &digits).to_option()
}

/// A plain relative path costs less to resolve than a host would.
pub proof fn plain_paths_are_cheaper(root: nat, path: Seq<u8>)
    requires
        plain_relative(path),
    ensures
        join_bytes(root, path) <= general_join_bytes(root, path.len()),
{
    crate::sizing::vectors_need_more_for_more(
        1,
        root + 3 * path.len(),
        root + 3 * path.len() + host_bytes(path.len()) + 47,
    );
}

/// A join of a plain path holds the root and every byte of the path in its longest form, and looks at
/// each byte of the path seven times and at each of the root three times.
pub proof fn plain_joins_hold_their_text(root: nat, path: Seq<u8>, byte: u8)
    requires
        plain_relative(path),
        plain_relative(path.push(byte)),
    ensures
        join_bytes(root, path) >= 2 * (root + 3 * path.len()),
        join_steps(root, path.push(byte)) == join_steps(root, path) + 7,
        join_steps(root + 1, path) == join_steps(root, path) + 3,
{
}

/// A join of any other path is bounded by its host's longest form: eighteen scalars for each byte, and
/// work that grows with the square of the path.
pub proof fn general_joins_are_bounded_by_their_host(root: nat, path: Seq<u8>)
    requires
        !plain_relative(path),
    ensures
        ({
            let n = path.len();
            &&& join_steps(root, path) == 14 * root + 4812 * n + 1946 * (n * n) + 70
            &&& join_bytes(root, path) >= text_bytes(root + 273 * n + 52) + 2 * text_bytes(n)
                + text_bytes(270 * n + 5)
        }),
{
    let n = path.len();
    assert((18 * n) * (18 * n) == 324 * (n * n)) by (nonlinear_arith);
    assert(URL_WALKS == 14 && LABEL_WALKS == 13);
}

} // verus!
