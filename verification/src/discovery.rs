//! How a client finds the address of the server.

use regex::Regex;
use vstd::prelude::*;

use crate::text::{append, has_infix, opt_text};

verus! {

/// The error of `regex::Regex::new`.
#[verifier::external_type_specification]
#[verifier::external_body]
pub struct ExRegexError(regex::Error);

/// What `Regex::find` gives for a pattern and a text: the first match, where there is one.
pub uninterp spec fn first_match(pattern: Seq<char>, text: Seq<char>) -> Option<Seq<char>>;

/// What an address looks like: four groups of one to three digits, with dots between them.
pub open spec fn address_pattern() -> Seq<char> {
    "\\d{1,3}\\.\\d{1,3}\\.\\d{1,3}\\.\\d{1,3}"@
}

/// `Regex::new` and `Regex::find` of the crate `regex`. A match is a part of the text. The pattern
/// of an address is a valid one; of other patterns it is not said whether they are.
#[verifier::external_body]
fn find_pattern(pattern: &str, text: &str) -> (r: Result<Option<String>, regex::Error>)
    ensures
        pattern@ == address_pattern() ==> r is Ok,
        r is Ok ==> opt_text(r->Ok_0) == first_match(pattern@, text@),
        r is Ok && r->Ok_0 is Some ==> has_infix(text@, r->Ok_0->Some_0@),
{
    let re = Regex::new(pattern)?;
    Ok(re.find(text).map(|m| m.as_str().to_string()))
}

/// What is to be done to find the server.
pub enum Discovery {
    /// Nothing: this is its name.
    Known(String),
    /// Fetch the page at this address, in which the address of the server stands.
    Fetch(String),
}

/// Begins to look for the server. `url` is the address of the page, where one is set.
pub fn begin_discovery(url: Option<String>) -> (r: Discovery)
    ensures
        match r {
            Discovery::Known(name) => url is None && name@ == "w4090"@,
            Discovery::Fetch(u) => opt_text(url) == Some(u@),
        },
{
    match url {
        Some(u) => Discovery::Fetch(u),
        None => Discovery::Known("w4090".to_owned()),
    }
}

/// Why a page could not be fetched.
pub enum FetchFailure {
    /// The request failed, for this reason.
    Request(String),
    /// The text of the page could not be read, for this reason.
    Body(String),
}

/// Says why a page could not be fetched.
pub fn describe_failure(failure: &FetchFailure) -> (r: String)
    ensures
        r@ == match failure {
            FetchFailure::Request(e) => "失敗: "@ + e@,
            FetchFailure::Body(e) => "テキスト失敗: "@ + e@,
        },
{
    match failure {
        FetchFailure::Request(e) => append("失敗: ", e.as_str()),
        FetchFailure::Body(e) => append("テキスト失敗: ", e.as_str()),
    }
}

/// The address of the server is the first one in the page.
pub fn address_in_page(html: &str) -> (r: Result<String, &'static str>)
    ensures
        match r {
            Ok(ip) => first_match(address_pattern(), html@) == Some(ip@) && has_infix(html@, ip@),
            Err(e) => first_match(address_pattern(), html@) is None && e@ == "err regex"@,
        },
{
    match find_pattern("\\d{1,3}\\.\\d{1,3}\\.\\d{1,3}\\.\\d{1,3}", html) {
        Ok(found) => address_found(found),
        Err(_) => Err("err regex"),
    }
}

/// Takes the address that was found in a page, if one was.
pub fn address_found(found: Option<String>) -> (r: Result<String, &'static str>)
    ensures
        match r {
            Ok(ip) => opt_text(found) == Some(ip@),
            Err(e) => found is None && e@ == "err regex"@,
        },
{
    match found {
        Some(ip) => Ok(ip),
        None => Err("err regex"),
    }
}

} // verus!
