//! Measurements of the storage behind owned values.
//!
//! What an allocator gave is a fact about the machine, not about a value. These functions say
//! only what holds of every outcome; the rules that use a measurement take it as an argument.

use crate::bytes::utf8;
use vstd::prelude::*;

verus! {

/// Calls `String::capacity`: the bytes that the text can hold without growing, at least the bytes
/// that it holds.
#[verifier::external_body]
pub(crate) fn text_capacity(text: &String) -> (bytes: usize)
    ensures
        bytes >= utf8(text@).len(),
{
    text.capacity()
}

/// Calls `Vec::capacity`: the items that the vector can hold without growing, at least the items
/// that it holds.
#[verifier::external_body]
pub(crate) fn vec_capacity<T>(items: &Vec<T>) -> (slots: usize)
    ensures
        slots >= items@.len(),
{
    items.capacity()
}

/// Calls `Vec::try_reserve_exact`, which leaves the items as they are. Whether the allocator grants
/// the room is not stated, nor how it describes a refusal.
#[verifier::external_body]
pub(crate) fn reserve_exact<T>(items: &mut Vec<T>, additional: usize) -> (r: Result<(), String>)
    ensures
        final(items)@ == old(items)@,
{
    items.try_reserve_exact(additional).map_err(|error| error.to_string())
}

/// Calls `String::try_reserve_exact`, which leaves the text as it is. Whether the allocator grants
/// the room is not stated, nor how it describes a refusal.
#[verifier::external_body]
pub(crate) fn reserve_text(text: &mut String, additional: usize) -> (r: Result<(), String>)
    ensures
        final(text)@ == old(text)@,
{
    text.try_reserve_exact(additional).map_err(|error| error.to_string())
}

/// Calls `str::strip_prefix`: what follows a prefix, or none where the text does not begin with it.
#[verifier::external_body]
pub(crate) fn strip_prefix<'a>(text: &'a str, prefix: &str) -> (r: Option<&'a str>)
    ensures
        match r {
            Some(rest) => text@ == prefix@ + rest@,
            None => !prefix@.is_prefix_of(text@),
        },
{
    text.strip_prefix(prefix)
}

/// The capacity of an optional text, zero where there is none.
pub(crate) fn optional_text_capacity(text: &Option<String>) -> (bytes: usize)
    ensures
        text matches Some(t) ==> bytes >= utf8(t@).len(),
        text is None ==> bytes == 0,
{
    match text {
        Some(text) => text_capacity(text),
        None => 0,
    }
}

} // verus!
