//! Features that a table must declare for the types of its columns.

use crate::bytes::{same_text, utf8};
use crate::failure::Error;
use crate::schema::{schema_contains_timestamp_nanos, struct_uses_nanos};
use crate::table::{Protocol, TableConfiguration};
use vstd::prelude::*;

verus! {

/// A feature is in a list.
pub open spec fn listed(features: Option<Vec<String>>, name: Seq<char>) -> bool {
    features matches Some(list) && exists|i: int|
        0 <= i < list@.len() && utf8((#[trigger] list@[i])@) == utf8(name)
}

fn is_listed(features: &Option<Vec<String>>, name: &str) -> (r: bool)
    ensures
        r == listed(*features, name@),
{
    let list = match features {
        Some(list) => list,
        None => return false,
    };
    let mut i: usize = 0;
    while i < list.len()
        invariant
            i <= list@.len(),
            features matches Some(found) && found@ == list@,
            forall|j: int| 0 <= j < i ==> utf8((#[trigger] list@[j])@) != utf8(name@),
        decreases list@.len() - i,
    {
        if same_text(list[i].as_str(), name) {
            assert(utf8(list@[i as int]@) == utf8(name@));
            return true;
        }
        i += 1;
    }
    false
}

impl Protocol {
    /// The feature is required of readers and of writers.
    pub open spec fn declares(self, name: Seq<char>) -> bool {
        listed(self.reader_features, name) && listed(self.writer_features, name)
    }

    /// Whether a feature is required of readers and of writers.
    pub fn has_table_feature(&self, name: &str) -> (r: bool)
        ensures
            r == self.declares(name@),
    {
        is_listed(&self.reader_features, name) && is_listed(&self.writer_features, name)
    }
}

/// Validates that a table whose schema contains TIMESTAMP_NANOS columns declares the feature in
/// both reader and writer features.
pub fn validate_timestamp_nanos_feature_support(tc: &TableConfiguration) -> (r: Result<(), Error>)
    ensures
        if struct_uses_nanos(tc.schema) && !tc.protocol.declares("timestampNanos"@) {
            r matches Err(Error::Unsupported(message)) && message@
                == "Table contains TIMESTAMP_NANOS columns but does not have the required 'timestampNanos' feature in reader and writer features"@
        } else {
            r is Ok
        },
{
    if !tc.protocol.has_table_feature("timestampNanos") {
        if schema_contains_timestamp_nanos(&tc.schema) {
            return Err(
                Error::unsupported(
                    "Table contains TIMESTAMP_NANOS columns but does not have the required 'timestampNanos' feature in reader and writer features",
                ),
            );
        }
    }
    Ok(())
}

/// A protocol declares a feature exactly where both its readers and its writers must support it.
pub proof fn declared_features_are_in_both_lists(protocol: Protocol, name: Seq<char>)
    ensures
        protocol.declares(name) <==> {
            &&& protocol.reader_features matches Some(readers)
            &&& protocol.writer_features matches Some(writers)
            &&& exists|i: int| 0 <= i < readers@.len() && (#[trigger] readers@[i])@ == name
            &&& exists|i: int| 0 <= i < writers@.len() && (#[trigger] writers@[i])@ == name
        },
{
    assert forall|text: Seq<char>| (#[trigger] utf8(text) == utf8(name)) <==> text == name by {
        vstd::utf8::encode_utf8_decode_utf8(text);
        vstd::utf8::encode_utf8_decode_utf8(name);
    }
    if protocol.declares(name) {
        let readers = protocol.reader_features->0@;
        let writers = protocol.writer_features->0@;
        let i = choose|i: int| 0 <= i < readers.len() && utf8((#[trigger] readers[i])@) == utf8(name);
        let j = choose|j: int| 0 <= j < writers.len() && utf8((#[trigger] writers[j])@) == utf8(name);
        assert(readers[i]@ == name);
        assert(writers[j]@ == name);
    }
}

} // verus!
