//! Navigation: which page a path names, and what a rendered page becomes on
//! the wire.
use crate::query::QueryParams;
use crate::text::{chars_of, find_char, split_once, substring};
use vstd::prelude::*;
use vstd::string::*;

verus! {

/// Whether a page is rendered whole or as the in-page application region.
#[derive(Debug, Clone, Copy, PartialEq, Eq, Structural)]
pub enum UiMode {
    FullPage,
    Patch,
}

/// What rendering a path gave.
#[derive(Debug)]
pub enum NavResult {
    FullHtml(Vec<u8>),
    Patch(String),
    NotFound(Vec<u8>),
    Redirect(String),
}

/// The page a path names.
#[derive(Debug)]
pub enum Route {
    Landing,
    Settings,
    /// The service page, for the service named by the `name` parameter.
    Service(String),
    NotFound,
}

/// The path and the query of a navigation target: split at the first `?`,
/// with an empty query where there is none.
pub open spec fn split_path_query_spec(s: Seq<char>) -> (Seq<char>, Seq<char>) {
    match split_once(s, '?') {
        Some((p, q)) => (p, q),
        None => (s, Seq::empty()),
    }
}

/// Splits a navigation target into its path and its query.
pub fn split_path_query(path: &str) -> (r: (&str, &str))
    ensures
        (r.0@, r.1@) == split_path_query_spec(path@),
{
    let chars = chars_of(path);
    let n = chars.len();
    match find_char(&chars, '?') {
        Some(i) => (path.substring_char(0, i), path.substring_char(i + 1, n)),
        None => {
            proof {
                reveal_strlit("");
            }
            assert(path@.subrange(0, n as int) =~= path@);
            (path.substring_char(0, n), path.substring_char(n, n))
        },
    }
}

/// The service named when the `name` parameter is missing.
pub open spec fn unknown_service() -> Seq<char> {
    "unknown"@
}

/// Picks the page for a path: `/`, `/settings` and `/service` (named by
/// the `name` parameter) exist; every other path is not found.
pub fn route(path: &str, query: &QueryParams) -> (r: Route)
    ensures
        path@ == "/"@ ==> r is Landing,
        path@ == "/settings"@ ==> r is Settings,
        path@ == "/service"@ ==> (r matches Route::Service(name) && name@ == (
            if query@.contains_key("name"@) {
                query@["name"@]
            } else {
                unknown_service()
            })),
        path@ != "/"@ && path@ != "/settings"@ && path@ != "/service"@ ==> r is NotFound,
{
    proof {
        reveal_strlit("/");
        reveal_strlit("/settings");
        reveal_strlit("/service");
        assert("/"@.len() == 1 && "/settings"@.len() == 9 && "/service"@.len() == 8);
    }
    let p = String::from_str(path);
    if p == String::from_str("/") {
        Route::Landing
    } else if p == String::from_str("/settings") {
        Route::Settings
    } else if p == String::from_str("/service") {
        match query.get("name") {
            Some(name) => Route::Service(name.clone()),
            None => Route::Service(String::from_str("unknown")),
        }
    } else {
        Route::NotFound
    }
}

} // verus!
