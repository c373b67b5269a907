//! Reading response bodies.  The JSON grammar itself is serde_json's work;
//! this module holds the trusted boundary around it — two wrappers from body
//! text to plain values, whose results are named so that contracts can speak
//! of them — and the verified code that turns those values into
//! [`CommentRecord`]s and the authenticated user's login.

use vstd::prelude::*;

use crate::errors::AnalyzerError;
use crate::records::{records_have_authors, CommentRecord};

verus! {

/// Holds exactly of the texts that serde_json parses as a JSON array.
pub uninterp spec fn json_array_parses(s: Seq<char>) -> bool;

/// The author logins of a JSON array body's records, in order: one entry
/// per record, carrying the string under its `user.login` where the record
/// has one.
pub uninterp spec fn page_authors_of(s: Seq<char>) -> Seq<Option<Seq<char>>>;

/// Relies on serde_json::from_str::<Vec<Value>>, Value::get and
/// Value::as_str: parsing succeeds exactly when the text is one well-formed
/// JSON array, and the extracted logins depend on the text alone.
#[verifier::external_body]
fn parse_page_authors(body: &str) -> (r: Option<Vec<CommentRecord>>)
    ensures
        r is Some <==> json_array_parses(body@),
        r matches Some(records) ==> records_have_authors(records@, page_authors_of(body@)),
{
    let values: Vec<serde_json::Value> = match serde_json::from_str(body) {
        Ok(v) => v,
        Err(_) => return None,
    };
    let records = values.iter().map(
        |v| CommentRecord {
            author: v.get("user").and_then(|u| u.get("login")).and_then(|l| l.as_str()).map(
                |s| s.to_owned(),
            ),
        },
    ).collect();
    Some(records)
}

/// Holds exactly of the texts that serde_json parses as a single JSON value.
pub uninterp spec fn json_value_parses(s: Seq<char>) -> bool;

/// The login a user body carries: the string under its `login`, if any.
pub uninterp spec fn login_of(s: Seq<char>) -> Option<Seq<char>>;

/// Relies on serde_json::from_str::<Value>, Value::get and Value::as_str:
/// parsing succeeds exactly when the text is one well-formed JSON value,
/// and the extracted login depends on the text alone.
#[verifier::external_body]
fn parse_user_login(body: &str) -> (r: Option<Option<String>>)
    ensures
        r is Some <==> json_value_parses(body@),
        r matches Some(login) ==> login.deep_view() == login_of(body@),
{
    let v: serde_json::Value = match serde_json::from_str(body) {
        Ok(v) => v,
        Err(_) => return None,
    };
    Some(v.get("login").and_then(|l| l.as_str()).map(|s| s.to_owned()))
}

/// Reads a comment-page body: a JSON array of records, each contributing its
/// `user.login` author string where it carries one.  Any other body is
/// malformed.
pub fn parse_comment_page(body: &str) -> (r: Result<Vec<CommentRecord>, AnalyzerError>)
    ensures
        r is Ok <==> json_array_parses(body@),
        r matches Ok(records) ==> records_have_authors(records@, page_authors_of(body@)),
        r matches Err(e) ==> e == AnalyzerError::MalformedResponseBody,
{
    match parse_page_authors(body) {
        Some(records) => Ok(records),
        None => Err(AnalyzerError::MalformedResponseBody),
    }
}

/// Success statuses of the wire protocol.
pub open spec fn is_success_status(status: u16) -> bool {
    200 <= status < 300
}

/// Checks a page-fetch status: any non-success status fails the fetch.
pub fn check_status(status: u16) -> (r: Result<(), AnalyzerError>)
    ensures
        r is Ok <==> is_success_status(status),
        r matches Err(e) ==> e == (AnalyzerError::RemoteRequestFailed { status }),
{
    if status >= 200 && status < 300 {
        Ok(())
    } else {
        Err(AnalyzerError::RemoteRequestFailed { status })
    }
}

/// Decides the authentication outcome for an already-extracted login: a
/// present login authenticates, an absent one fails.
pub fn login_or_auth_error(login: Option<String>) -> (r: Result<String, AnalyzerError>)
    ensures
        match login {
            Some(s) => r == Ok::<String, AnalyzerError>(s),
            None => r == Err::<String, AnalyzerError>(AnalyzerError::AuthenticationFailed),
        },
{
    match login {
        Some(s) => Ok(s),
        None => Err(AnalyzerError::AuthenticationFailed),
    }
}

/// Reads the authenticated-user response: on a success status whose body is
/// a JSON value carrying a string `login`, exactly that login; on anything
/// else, authentication has failed.
pub fn parse_user_response(status: u16, body: &str) -> (r: Result<String, AnalyzerError>)
    ensures
        r is Ok ==> is_success_status(status) && json_value_parses(body@),
        !is_success_status(status) ==> r is Err,
        !json_value_parses(body@) ==> r is Err,
        is_success_status(status) && json_value_parses(body@) ==> (r is Ok <==> login_of(body@)
            is Some),
        r matches Ok(l) ==> Some(l@) == login_of(body@),
        r matches Err(e) ==> e == AnalyzerError::AuthenticationFailed,
{
    if status < 200 || status >= 300 {
        return Err(AnalyzerError::AuthenticationFailed);
    }
    match parse_user_login(body) {
        None => Err(AnalyzerError::AuthenticationFailed),
        Some(login) => login_or_auth_error(login),
    }
}

} // verus!
