//! The query pipeline once the document is at hand: locate the endpoint's
//! items, check their shape, project the fields, render the table.
use crate::json::{lookup, lookup_key, Json};
use crate::path::strings_view;
use crate::project::{grid_view, project, projection};
use crate::table::{body_lines, cells_lines, clean_table_text, render, renderable};
use vstd::prelude::*;

verus! {

/// Why a query produced no table.
#[derive(Debug)]
pub enum QueryError {
    /// The remote call at `path` failed, or its body was not the expected envelope.
    FetchFailed { path: String, message: String },
    /// The document's `data` has no entry for the endpoint.
    UnknownEndpoint { endpoint: String },
    /// The endpoint's entry exists but is not an array.
    UnexpectedShape { endpoint: String },
    /// A field name or a selected value holds an escape character (U+001B),
    /// whose width the table layout cannot measure.
    UnrenderableText { endpoint: String },
}

/// The entry for `endpoint` under the document's `data`, if `data` is a mapping that has one.
pub open spec fn endpoint_node(data: Json, endpoint: Seq<char>) -> Option<Json> {
    match data {
        Json::Object(entries) => lookup(entries@, endpoint),
        _ => None,
    }
}

/// Locates the endpoint's items in `data` and projects `fields` over them.
pub fn get_fields(data: &Json, endpoint: &str, fields: &Vec<String>) -> (r: Result<
    Vec<Vec<Option<String>>>,
    QueryError,
>)
    ensures
        match endpoint_node(*data, endpoint@) {
            None => r matches Err(QueryError::UnknownEndpoint { endpoint: e }) && e@ == endpoint@,
            Some(Json::Array(items)) => r matches Ok(g) && grid_view(g@) == projection(
                items@,
                strings_view(fields@),
            ),
            Some(_) => r matches Err(QueryError::UnexpectedShape { endpoint: e }) && e@
                == endpoint@,
        },
{
    let key = endpoint.to_owned();
    let node = match data {
        Json::Object(entries) => lookup_key(entries, &key),
        _ => None,
    };
    match node {
        None => Err(QueryError::UnknownEndpoint { endpoint: key }),
        Some(Json::Array(items)) => Ok(project(items, fields)),
        Some(_) => Err(QueryError::UnexpectedShape { endpoint: key }),
    }
}

/// Locates the endpoint's items in `data`, projects `fields` over them and
/// renders the result with the fields as headers.
pub fn run(data: &Json, endpoint: &str, fields: &Vec<String>) -> (r: Result<String, QueryError>)
    ensures
        match endpoint_node(*data, endpoint@) {
            None => r matches Err(QueryError::UnknownEndpoint { endpoint: e }) && e@ == endpoint@,
            Some(Json::Array(items)) => if renderable(
                strings_view(fields@),
                projection(items@, strings_view(fields@)),
            ) {
                r matches Ok(text) && text@ == clean_table_text(
                    cells_lines(strings_view(fields@)),
                    body_lines(projection(items@, strings_view(fields@))),
                )
            } else {
                r matches Err(QueryError::UnrenderableText { endpoint: e }) && e@ == endpoint@
            },
            Some(_) => r matches Err(QueryError::UnexpectedShape { endpoint: e }) && e@
                == endpoint@,
        },
{
    match get_fields(data, endpoint, fields) {
        Ok(grid) => match render(fields, &grid) {
            Some(text) => Ok(text),
            None => Err(QueryError::UnrenderableText { endpoint: endpoint.to_owned() }),
        },
        Err(e) => Err(e),
    }
}

} // verus!
