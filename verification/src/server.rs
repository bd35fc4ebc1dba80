//! What the reader sends to the progress service.

use vstd::prelude::*;
use vstd::string::*;

use crate::text::{decimal, decimal_text};

verus! {

broadcast use vstd::string::group_string_axioms;

/// Address of the progress service.
pub const SERVER_URL: &'static str = "http://localhost:3001";

/// A request to add or remove the highlight of a line.
pub struct HighlightRequest {
    pub file_path: String,
    pub document_hash: String,
    pub line_number: usize,
    pub user_id: String,
}

/// The request about a line of a document for a user; the document's hash is
/// sent in decimal.
pub fn highlight_request(file_path: &str, document_hash: u64, line_number: usize, user_id: &str) -> (r:
    HighlightRequest)
    ensures
        r.file_path@ == file_path@,
        r.document_hash@ == decimal_text(document_hash as nat),
        r.line_number == line_number,
        r.user_id@ == user_id@,
{
    HighlightRequest {
        file_path: file_path.to_owned(),
        document_hash: decimal(document_hash),
        line_number,
        user_id: user_id.to_owned(),
    }
}

/// `<server>/<route>/<document hash>/<user>`.
pub open spec fn document_url(route: Seq<char>, document_hash: u64, user_id: Seq<char>) -> Seq<
    char,
> {
    SERVER_URL@ + route + "/"@ + decimal_text(document_hash as nat) + "/"@ + user_id
}

fn document_route_url(route: &str, document_hash: u64, user_id: &str) -> (r: String)
    ensures
        r@ == document_url(route@, document_hash, user_id@),
{
    let mut url = String::new();
    url.append(SERVER_URL);
    url.append(route);
    url.append("/");
    url.append(decimal(document_hash).as_str());
    url.append("/");
    url.append(user_id);
    url
}

/// Where a user's highlights of a document are listed.
pub fn highlights_url(document_hash: u64, user_id: &str) -> (r: String)
    ensures
        r@ == document_url("/highlights"@, document_hash, user_id@),
{
    document_route_url("/highlights", document_hash, user_id)
}

/// Where a user's highlights of a document are cleared.
pub fn clear_highlights_url(document_hash: u64, user_id: &str) -> (r: String)
    ensures
        r@ == document_url("/highlights/clear"@, document_hash, user_id@),
{
    document_route_url("/highlights/clear", document_hash, user_id)
}

/// Where a user's last highlight of a document is undone.
pub fn undo_highlight_url(document_hash: u64, user_id: &str) -> (r: String)
    ensures
        r@ == document_url("/highlights/undo"@, document_hash, user_id@),
{
    document_route_url("/highlights/undo", document_hash, user_id)
}

/// `<server><route>`.
pub fn service_url(route: &str) -> (r: String)
    ensures
        r@ == SERVER_URL@ + route@,
{
    let mut url = String::new();
    url.append(SERVER_URL);
    url.append(route);
    url
}

/// Name for what `Path::file_name` gives for a path: its last component, as
/// the platform the crate is built for splits paths.
pub uninterp spec fn path_file_name(path: Seq<char>) -> Option<Seq<char>>;

/// `Path::new(path).file_name()` and `OsStr::to_str`: the final component of
/// a path, if there is one and it is valid text.
#[verifier::external_body]
fn file_name_of(path: &str) -> (r: Option<String>)
    ensures
        match r {
            Some(name) => path_file_name(path@) == Some(name@),
            None => path_file_name(path@) is None,
        },
{
    match std::path::Path::new(path).file_name() {
        Some(name) => match name.to_str() {
            Some(text) => Some(text.to_string()),
            None => None,
        },
        None => None,
    }
}

/// Where a file is downloaded from: the path's file name, or `sample.txt`
/// when the path has none.
pub fn file_url(file_path: &str) -> (r: String)
    ensures
        r@ == SERVER_URL@ + "/file/"@ + match path_file_name(file_path@) {
            Some(name) => name,
            None => "sample.txt"@,
        },
{
    let mut url = String::new();
    url.append(SERVER_URL);
    url.append("/file/");
    match file_name_of(file_path) {
        Some(name) => url.append(name.as_str()),
        None => url.append("sample.txt"),
    }
    url
}

} // verus!
