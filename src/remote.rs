use vstd::prelude::*;

use crate::index::{byte_views, index_records, parse_index};
use crate::render::{listing, Theme};

verus! {

#[verifier::external_type_specification]
#[verifier::external_body]
pub struct ExParseError(url::ParseError);

/// Why a listing of the remote index failed.
#[derive(Debug, Clone, PartialEq, Eq)]
pub enum ListError {
    /// The endpoint and the index file name do not make an address.
    Address { endpoint: String },
    /// The request to `address` did not complete.
    Retrieval { address: String },
    /// `address` answered with a status outside 200..=299.
    HttpStatus { address: String, status: u16 },
    /// The body of the answer could not be read or decoded.
    Body,
}

/// The address that `url` makes of `input` relative to the base `base`,
/// where both can be read.
pub uninterp spec fn url_join(base: Seq<char>, input: Seq<char>) -> Option<Seq<char>>;

/// Relies on `url::Url::join`: the address of `input` relative to `base`
/// (read with `url::Url::parse`), or an error where either cannot be read.
/// The outcome depends on the two texts alone.
#[verifier::external_body]
fn join_url(base: &str, input: &str) -> (r: Result<String, url::ParseError>)
    ensures
        match url_join(base@, input@) {
            Some(a) => r is Ok && r->Ok_0@ == a,
            None => r is Err,
        },
{
    match url::Url::parse(base) {
        Ok(b) => b.join(input).map(String::from),
        Err(e) => Err(e),
    }
}

/// The name of the index file under the remote endpoint.
pub open spec fn index_file() -> Seq<char> {
    seq!['p', 'a', 'c', 'k', 'a', 'g', 'e', 's', '.', 'g', 'z']
}

/// Whether an HTTP status reports success.
pub open spec fn is_success(status: u16) -> bool {
    200 <= status < 300
}

/// The address of the index file under the endpoint `endpoint`.
pub fn index_address(endpoint: &str) -> (r: Result<String, ListError>)
    ensures
        match url_join(endpoint@, index_file()) {
            Some(a) => r is Ok && r->Ok_0@ == a,
            None => r matches Err(ListError::Address { endpoint: e }) && e@ == endpoint@,
        },
{
    let file = "packages.gz";
    proof {
        reveal_strlit("packages.gz");
    }
    assert(file@ =~= index_file());
    match join_url(endpoint, file) {
        Ok(a) => Ok(a),
        Err(_) => Err(ListError::Address { endpoint: endpoint.to_string() }),
    }
}

/// Whether an HTTP status reports success.
pub fn status_is_success(status: u16) -> (r: bool)
    ensures
        r == is_success(status),
{
    200 <= status && status < 300
}

/// Accepts a success status; any other is an error that names the address
/// and the status.
pub fn check_status(address: &String, status: u16) -> (r: Result<(), ListError>)
    ensures
        r is Ok <==> is_success(status),
        r matches Err(e) ==> e matches ListError::HttpStatus { address: a, status: s } && a@
            == address@ && s == status,
{
    if status_is_success(status) {
        Ok(())
    } else {
        Err(ListError::HttpStatus { address: address.clone(), status })
    }
}

/// The package names of the remote index, from the answer to the request
/// of `address`: with a success status, the names that `body` (decoded)
/// holds; otherwise an error that names the address and the status, and no
/// names at all.
pub fn list_aur(address: &String, status: u16, body: &Vec<u8>) -> (r: Result<Vec<Vec<u8>>, ListError>)
    ensures
        r is Ok <==> is_success(status),
        r matches Ok(recs) ==> byte_views(recs@) == index_records(body@),
        r matches Err(e) ==> e matches ListError::HttpStatus { address: a, status: s } && a@
            == address@ && s == status,
{
    match check_status(address, status) {
        Ok(()) => Ok(parse_index(body)),
        Err(e) => Err(e),
    }
}

/// Listing an unchanged index twice, with the same installed packages and
/// display settings, gives the same bytes both times.
pub proof fn lemma_listing_repeatable(
    first: Seq<u8>,
    second: Seq<u8>,
    quiet: bool,
    installed: Seq<bool>,
    theme: Theme,
)
    requires
        first == second,
    ensures
        listing(index_records(first), quiet, installed, theme) == listing(
            index_records(second),
            quiet,
            installed,
            theme,
        ),
{
}

} // verus!
