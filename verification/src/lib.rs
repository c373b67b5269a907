//! Counts the comments an authenticated user authored across a set of pull
//! requests on a GitHub-shaped REST API and relates the count to a time
//! budget.
//!
//! The crate holds the logic of the tool: parsing the `Link` pagination
//! header, resolving a repository argument or a git remote URL to an
//! owner/repo pair, reading comment records out of response bodies, driving
//! the pagination state, filtering records by author, and building the final
//! report.  The surrounding program supplies what the library cannot do
//! itself: command-line handling and the HTTP and subprocess calls.

pub mod errors;
pub mod json;
pub mod link;
pub mod pagination;
pub mod records;
pub mod repo;
pub mod report;
pub mod text;
pub mod urls;
