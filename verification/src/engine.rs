//! Decisions of the expression engine and of the synchronous engine, apart from the arrays and
//! stores that they work on.

use crate::bytes::{same_text, utf8};
use crate::failure::Error;
use crate::locations::{
    editable, is_editable, path_of, path_part, scheme, scheme_of, set_path, with_path,
};
use crate::plan::{Expression, Predicate, Scalar, StructPatch};
use crate::schema::{ColumnName, DataType, StructType};
use crate::text::{decimal, decimal_text};
use std::sync::Arc;
use vstd::prelude::*;

verus! {

/// Makes evaluators of expressions and predicates.
#[derive(Debug, Clone, Copy, PartialEq, Eq, Structural)]
pub struct ArrowEvaluationHandler;

/// How an expression is evaluated.
pub enum EvaluationPath<'a> {
    /// The rows, or a column of them, only get a new schema.
    Relabel(Option<&'a ColumnName>),
    /// The value is a structure whose fields are the columns.
    Columns,
    /// The value is one column, named `output`.
    Output,
}

impl StructPatch {
    /// The patch changes nothing.
    pub open spec fn changes_nothing(self) -> bool {
        self.field_patches@.len() == 0 && self.prepended_fields@.len() == 0
            && self.appended_fields@.len() == 0
    }

    /// Whether the patch changes nothing.
    pub fn is_empty(&self) -> (r: bool)
        ensures
            r == self.changes_nothing(),
    {
        self.field_patches.len() == 0 && self.prepended_fields.len() == 0
            && self.appended_fields.len() == 0
    }
}

/// Evaluates one expression over batches of one schema.
pub struct DefaultExpressionEvaluator {
    input_schema: Arc<StructType>,
    expression: Arc<Expression>,
    output_type: DataType,
}

/// Evaluates one predicate over batches of one schema.
pub struct DefaultPredicateEvaluator {
    input_schema: Arc<StructType>,
    predicate: Arc<Predicate>,
}

impl DefaultExpressionEvaluator {
    /// The schema of the batches.
    pub closed spec fn input(self) -> StructType {
        *self.input_schema
    }

    /// The expression.
    pub closed spec fn subject(self) -> Expression {
        *self.expression
    }

    /// The type of its values.
    pub closed spec fn result(self) -> DataType {
        self.output_type
    }

    /// Returns the expression.
    pub fn expression(&self) -> (expression: &Expression)
        ensures
            *expression == self.subject(),
    {
        &self.expression
    }

    /// Returns the type of the expression's values.
    pub fn output_type(&self) -> (ty: &DataType)
        ensures
            *ty == self.result(),
    {
        &self.output_type
    }

    /// Returns how the expression is evaluated. An empty patch only applies the new schema.
    pub fn path(&self) -> (path: EvaluationPath<'_>)
        ensures
            match (self.subject(), self.result()) {
                (Expression::StructPatch(patch), DataType::Struct(_)) if patch.changes_nothing() => {
                    path matches EvaluationPath::Relabel(column) && match (
                        column,
                        patch.input_path,
                    ) {
                        (Some(found), Some(expected)) => *found == expected,
                        (None, None) => true,
                        _ => false,
                    }
                },
                (_, DataType::Struct(_)) => path is Columns,
                _ => path is Output,
            },
    {
        if let DataType::Struct(_) = &self.output_type {
            if let Expression::StructPatch(patch) = &*self.expression {
                if patch.is_empty() {
                    return EvaluationPath::Relabel(patch.input_path.as_ref());
                }
            }
            return EvaluationPath::Columns;
        }
        EvaluationPath::Output
    }
}

impl DefaultPredicateEvaluator {
    /// The schema of the batches.
    pub closed spec fn input(self) -> StructType {
        *self.input_schema
    }

    /// The predicate.
    pub closed spec fn subject(self) -> Predicate {
        *self.predicate
    }

    /// Returns the predicate.
    pub fn predicate(&self) -> (predicate: &Predicate)
        ensures
            *predicate == self.subject(),
    {
        &self.predicate
    }
}

/// The first row from `i` on whose width is not that of the schema.
pub open spec fn first_ragged(rows: Seq<Vec<Scalar>>, fields: nat, i: int) -> Option<int>
    decreases rows.len() - i,
{
    if i >= rows.len() {
        None
    } else if rows[i]@.len() != fields {
        Some(i)
    } else {
        first_ragged(rows, fields, i + 1)
    }
}

/// The text of a row of another width.
pub open spec fn ragged_text(row: nat, scalars: nat, fields: nat) -> Seq<char> {
    "Row "@ + decimal_text(row) + " has "@ + decimal_text(scalars) + " scalars but schema has "@
        + decimal_text(fields) + " fields"@
}

impl ArrowEvaluationHandler {
    /// Makes an evaluator of an expression.
    pub fn new_expression_evaluator(
        &self,
        schema: Arc<StructType>,
        expression: Arc<Expression>,
        output_type: DataType,
    ) -> (evaluator: DefaultExpressionEvaluator)
        ensures
            evaluator.input() == *schema,
            evaluator.subject() == *expression,
            evaluator.result() == output_type,
    {
        DefaultExpressionEvaluator { input_schema: schema, expression, output_type }
    }

    /// Makes an evaluator of a predicate.
    pub fn new_predicate_evaluator(&self, schema: Arc<StructType>, predicate: Arc<Predicate>) -> (evaluator:
        DefaultPredicateEvaluator)
        ensures
            evaluator.input() == *schema,
            evaluator.subject() == *predicate,
    {
        DefaultPredicateEvaluator { input_schema: schema, predicate }
    }

    /// Checks that every row has one literal for each field, before any array is built.
    pub fn check_rows(&self, schema: &StructType, rows: &Vec<Vec<Scalar>>) -> (r: Result<(), Error>)
        ensures
            match first_ragged(rows@, schema.fields@.len(), 0) {
                None => r is Ok,
                Some(row) => r matches Err(Error::Generic(message)) && message@ == ragged_text(
                    row as nat,
                    rows@[row]@.len(),
                    schema.fields@.len(),
                ),
            },
    {
        let fields: usize = schema.fields.len();
        let mut i: usize = 0;
        while i < rows.len()
            invariant
                i <= rows@.len(),
                fields == schema.fields@.len(),
                first_ragged(rows@, fields as nat, 0) == first_ragged(
                    rows@,
                    fields as nat,
                    i as int,
                ),
            decreases rows@.len() - i,
        {
            if rows[i].len() != fields {
                let mut message = "Row ".to_owned();
                message.append(decimal(i).as_str());
                message.append(" has ");
                message.append(decimal(rows[i].len()).as_str());
                message.append(" scalars but schema has ");
                message.append(decimal(fields).as_str());
                message.append(" fields");
                return Err(Error::Generic(message));
            }
            i += 1;
        }
        Ok(())
    }
}

/// The text of an operation that was not ready at once.
pub open spec fn pending_text(operation: Seq<char>) -> Seq<char> {
    "SyncEngine "@ + operation
        + " yielded Pending on wasm32-unknown-unknown; browser handlers require an asynchronously prefetched, immediately-ready store"@
}

/// Takes what an operation gave when it was polled once. An operation that was not ready fails, and
/// never parks the only thread.
pub fn immediate<T>(polled: Option<T>, operation: &str) -> (r: Result<T, Error>)
    ensures
        match polled {
            Some(value) => r == Ok::<T, Error>(value),
            None => r matches Err(Error::Generic(message)) && message@ == pending_text(operation@),
        },
{
    match polled {
        Some(value) => Ok(value),
        None => {
            let mut message = "SyncEngine ".to_owned();
            message.append(operation);
            message.append(
                " yielded Pending on wasm32-unknown-unknown; browser handlers require an asynchronously prefetched, immediately-ready store",
            );
            Err(Error::Generic(message))
        },
    }
}

/// Where the synchronous engine finds an object.
#[derive(Debug, PartialEq, Eq)]
pub enum Scope {
    /// In the supplied store.
    Store {
        /// The URL that listed paths are joined to.
        base: String,
        /// The path of the object, still encoded.
        path: String,
    },
    /// In the local file system.
    File,
}

/// What resolving a location gives: the supplied store serves every location, and without one only
/// local files are accessible. A location whose path the parser cannot change is no valid one.
pub open spec fn scope_of(supplied: bool, location: Seq<char>) -> Result<
    Option<(Seq<char>, Seq<char>)>,
    Seq<char>,
> {
    if supplied {
        match (with_path(location, "/"@), path_part(location)) {
            (Some(base), Some(path)) if editable(location, "/"@) => Ok(Some((base, path))),
            _ => Err("Invalid URL: "@ + location),
        }
    } else if scheme(location) matches Some(name) && utf8(name) == utf8("file"@) {
        Ok(None)
    } else {
        Err("SyncEngine without an explicit store can only access file:// URLs, got: "@ + location)
    }
}

/// Resolves a location.
pub fn resolve_scope(supplied: bool, location: &str) -> (r: Result<Scope, Error>)
    ensures
        match scope_of(supplied, location@) {
            Ok(Some((base_text, path_text))) => r matches Ok(Scope::Store { base, path }) && base@
                == base_text && path@ == path_text,
            Ok(None) => r matches Ok(Scope::File),
            Err(text) => r matches Err(Error::Generic(message)) && message@ == text,
        },
{
    if supplied {
        let base = if is_editable(location, "/") {
            set_path(location, "/")
        } else {
            None
        };
        let path = path_of(location);
        return match (base, path) {
            (Some(base), Some(path)) => Ok(Scope::Store { base, path }),
            _ => {
                let mut message = "Invalid URL: ".to_owned();
                message.append(location);
                Err(Error::Generic(message))
            },
        };
    }
    let local = match scheme_of(location) {
        Some(name) => same_text(name.as_str(), "file"),
        None => false,
    };
    if local {
        return Ok(Scope::File);
    }
    let mut message =
        "SyncEngine without an explicit store can only access file:// URLs, got: ".to_owned();
    message.append(location);
    Err(Error::Generic(message))
}

/// The error of a write that a store refused: an existing target is told apart.
pub fn put_failure(already_exists: bool, location: &str, description: &str) -> (error: Error)
    ensures
        if already_exists {
            error matches Error::FileAlreadyExists(text) && text@ == location@
        } else {
            error matches Error::Generic(text) && text@ == description@
        },
{
    if already_exists {
        Error::FileAlreadyExists(location.to_owned())
    } else {
        Error::generic(description)
    }
}

/// The first ragged row has another length than the schema, and every row in front of it has the
/// schema's; where there is none, all have it.
pub proof fn ragged_rows_are_found(rows: Seq<Vec<Scalar>>, fields: nat, i: int)
    requires
        0 <= i <= rows.len(),
    ensures
        match first_ragged(rows, fields, i) {
            Some(at) => {
                &&& i <= at < rows.len()
                &&& rows[at]@.len() != fields
                &&& forall|j: int| i <= j < at ==> (#[trigger] rows[j])@.len() == fields
            },
            None => forall|j: int| i <= j < rows.len() ==> (#[trigger] rows[j])@.len() == fields,
        },
    decreases rows.len() - i,
{
    if i < rows.len() {
        ragged_rows_are_found(rows, fields, i + 1);
    }
}

/// A supplied store is used wherever its location has a path to replace; without one only a file
/// location is taken.
pub proof fn scopes_follow_their_store(supplied: bool, location: Seq<char>)
    ensures
        supplied ==> (scope_of(supplied, location) is Ok <==> {
            &&& with_path(location, "/"@) is Some
            &&& path_part(location) is Some
            &&& editable(location, "/"@)
        }),
        supplied ==> (scope_of(supplied, location) matches Ok(scope) ==> {
            &&& scope matches Some((base, path))
            &&& with_path(location, "/"@) == Some(base)
            &&& path_part(location) == Some(path)
        }),
        !supplied ==> (scope_of(supplied, location) is Ok <==> scheme(location) == Some("file"@)),
        !supplied ==> (scope_of(supplied, location) matches Ok(scope) ==> scope is None),
{
    if let Some(name) = scheme(location) {
        vstd::utf8::encode_utf8_decode_utf8(name);
        vstd::utf8::encode_utf8_decode_utf8("file"@);
    }
}

} // verus!
