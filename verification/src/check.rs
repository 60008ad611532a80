//! What is answered when a schema file is checked.

use crate::errors::{
    error_views, format_validation_errors, parse_failure, read_failure, report_text, ErrorView,
};
use crate::expressions::{all_compilable, compile_sites, outcome_views, site_views};
use crate::model::Schema;
use vstd::prelude::*;
use vstd::string::*;

verus! {

/// The answer for a schema with the given errors: nothing, or the whole report.
pub open spec fn schema_answer(
    file_name: Option<Seq<char>>,
    path: Seq<char>,
    errors: Seq<ErrorView>,
) -> Option<Seq<char>> {
    if errors.len() == 0 {
        None
    } else {
        Some(report_text(file_name, path, errors))
    }
}

/// The answer for a file, given what reading and then parsing it has led to.
pub open spec fn file_answer(
    file_name: Option<Seq<char>>,
    path: Seq<char>,
    read: Result<Result<Schema, String>, String>,
) -> Option<Seq<char>> {
    match read {
        Err(reason) => Some("error: cannot read schema file "@ + path + ": "@ + reason@),
        Ok(Err(reason)) => Some("error: TOML parse failed in "@ + path + "\n  "@ + reason@),
        Ok(Ok(schema)) => schema_answer(file_name, path, schema.all_errors()),
    }
}

/// What an answer says, if anything is wrong.
pub open spec fn answer_view(answer: Result<(), String>) -> Option<Seq<char>> {
    match answer {
        Ok(()) => None,
        Err(text) => Some(text@),
    }
}

/// Checks a schema, where compiling the expressions that [`Schema::cel_sites`] lists
/// has had the given outcomes.
pub fn check_schema_with(
    file_name: Option<&str>,
    path: &str,
    schema: &Schema,
    outcomes: &Vec<Result<(), String>>,
) -> (r: Result<(), String>)
    requires
        outcomes.len() == schema.all_sites().len(),
    ensures
        answer_view(r) == schema_answer(
            match file_name {
                Some(name) => Some(name@),
                None => None,
            },
            path@,
            schema.errors_given(outcome_views(outcomes@)),
        ),
{
    match schema.validate_with(outcomes) {
        Ok(()) => Ok(()),
        Err(errors) => {
            assert(errors@.len() == error_views(errors@).len());
            Err(format_validation_errors(file_name, path, errors.as_slice()))
        },
    }
}

/// Checks a schema file, given what reading and then parsing it has led to: each
/// failure comes with its reason. `file_name` is the last component of the file's path
/// and `path` the path as it is shown.
pub fn check_schema(
    file_name: Option<&str>,
    path: &str,
    read: Result<Result<Schema, String>, String>,
) -> (r: Result<(), String>)
    requires
        read matches Ok(Ok(schema)) ==> all_compilable(schema.all_sites()),
    ensures
        answer_view(r) == file_answer(
            match file_name {
                Some(name) => Some(name@),
                None => None,
            },
            path@,
            read,
        ),
{
    match read {
        Err(reason) => Err(read_failure(path, reason.as_str())),
        Ok(Err(reason)) => Err(parse_failure(path, reason.as_str())),
        Ok(Ok(schema)) => {
            let sites = schema.cel_sites();
            let outcomes = compile_sites(&sites);
            assert(outcomes@.len() == outcome_views(outcomes@).len());
            assert(sites@.len() == site_views(sites@).len());
            check_schema_with(file_name, path, &schema, &outcomes)
        },
    }
}

/// A file passes exactly when it was read, was parsed and holds a schema without
/// errors.
pub proof fn only_valid_schemas_pass(
    file_name: Option<Seq<char>>,
    path: Seq<char>,
    read: Result<Result<Schema, String>, String>,
)
    ensures
        file_answer(file_name, path, read) is None <==> (read matches Ok(Ok(schema))
            && schema.all_errors().len() == 0),
{
}

/// A file that cannot be read, or cannot be parsed, is answered with that, its path and the
/// reason; a schema with errors is answered with the report of all of them.
pub proof fn failures_are_answered_with_their_reason(
    file_name: Option<Seq<char>>,
    path: Seq<char>,
    read: Result<Result<Schema, String>, String>,
)
    ensures
        match read {
            Err(reason) => file_answer(file_name, path, read) == Some(
                "error: cannot read schema file "@ + path + ": "@ + reason@,
            ),
            Ok(Err(reason)) => file_answer(file_name, path, read) == Some(
                "error: TOML parse failed in "@ + path + "\n  "@ + reason@,
            ),
            Ok(Ok(schema)) => schema.all_errors().len() > 0 ==> file_answer(file_name, path, read)
                == Some(report_text(file_name, path, schema.all_errors())),
        },
{
}

/// A schema is answered with nothing exactly when it has no errors, and otherwise with the
/// report of all of them; an answer says what its text says.
pub proof fn schemas_are_answered_with_their_report(
    file_name: Option<Seq<char>>,
    path: Seq<char>,
    errors: Seq<ErrorView>,
    answer: Result<(), String>,
)
    ensures
        errors.len() == 0 ==> schema_answer(file_name, path, errors) is None,
        errors.len() > 0 ==> schema_answer(file_name, path, errors) == Some(
            report_text(file_name, path, errors),
        ),
        answer is Ok <==> answer_view(answer) is None,
        answer matches Err(text) ==> answer_view(answer) == Some(text@),
{
}

} // verus!
