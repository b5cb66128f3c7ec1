//! The addresses that discovery asks the listing service for.
use crate::text::decimal;
use crate::text::decimal_text;
use vstd::prelude::*;
use vstd::string::StringExecFns;

verus! {

/// Why a query could not be followed to its end.
#[derive(Debug, Clone, Copy, PartialEq, Eq, Structural)]
pub enum ScrapeError {
    /// The address of a request could not be parsed.
    Address,
    /// The address of a request did not decode to valid text.
    Encoding,
    /// A post id of zero has no predecessor to start a lookup from.
    ZeroId,
    /// The lookup of a single post returned no post.
    EmptyPage,
    /// The listing of pools did not hold the pool asked for.
    NoPool,
}

/// The error of `url::Url::parse_with_params`, carried through unread.
#[verifier::external_type_specification]
#[verifier::external_body]
pub struct ExParseError(url::ParseError);

/// The error of `urlencoding::decode`, carried through unread.
#[verifier::external_type_specification]
#[verifier::external_body]
pub struct ExFromUtf8Error(std::string::FromUtf8Error);

/// The serialization of the address that `url::Url::parse_with_params` makes
/// of an input and a list of query pairs, or `None` where it rejects the input.
pub uninterp spec fn url_with_params(input: Seq<char>, params: Seq<(Seq<char>, Seq<char>)>) -> Option<
    Seq<char>,
>;

/// The text that `urlencoding::decode` makes of a percent-encoded text, or
/// `None` where the decoded bytes are not valid UTF-8.
pub uninterp spec fn percent_decoded(data: Seq<char>) -> Option<Seq<char>>;

/// The texts of a list of query pairs.
pub open spec fn pairs_text(params: Seq<(String, String)>) -> Seq<(Seq<char>, Seq<char>)> {
    Seq::new(params.len(), |i: int| (params[i].0@, params[i].1@))
}

/// Calls `url::Url::parse_with_params` and returns the serialization of the
/// address it built. The result is a function of the two arguments alone,
/// and goes by the name [`url_with_params`].
#[verifier::external_body]
fn parse_with_params(input: &str, params: &Vec<(String, String)>) -> (r: Result<
    String,
    url::ParseError,
>)
    ensures
        match r {
            Ok(s) => url_with_params(input@, pairs_text(params@)) == Some(s@),
            Err(_) => url_with_params(input@, pairs_text(params@)) is None,
        },
{
    match url::Url::parse_with_params(input, params.iter()) {
        Ok(address) => Ok(String::from(address)),
        Err(e) => Err(e),
    }
}

/// Calls `urlencoding::decode`. The result is a function of the argument
/// alone, and goes by the name [`percent_decoded`].
#[verifier::external_body]
fn percent_decode(data: &str) -> (r: Result<String, std::string::FromUtf8Error>)
    ensures
        match r {
            Ok(s) => percent_decoded(data@) == Some(s@),
            Err(_) => percent_decoded(data@) is None,
        },
{
    match urlencoding::decode(data) {
        Ok(text) => Ok(text.into_owned()),
        Err(e) => Err(e),
    }
}

/// The address of a request: the endpoint with the query pairs added, then
/// percent-decoded.
pub open spec fn located(base: Seq<char>, params: Seq<(Seq<char>, Seq<char>)>) -> Result<
    Seq<char>,
    ScrapeError,
> {
    match url_with_params(base, params) {
        None => Err(ScrapeError::Address),
        Some(address) => match percent_decoded(address) {
            None => Err(ScrapeError::Encoding),
            Some(text) => Ok(text),
        },
    }
}

/// The text of an address, or the error in its place.
pub open spec fn address_text(r: Result<String, ScrapeError>) -> Result<Seq<char>, ScrapeError> {
    match r {
        Ok(s) => Ok(s@),
        Err(e) => Err(e),
    }
}

/// Builds the address of a request from an endpoint and its query pairs.
pub fn locate(base: &str, params: &Vec<(String, String)>) -> (r: Result<String, ScrapeError>)
    ensures
        address_text(r) == located(base@, pairs_text(params@)),
{
    match parse_with_params(base, params) {
        Err(_) => Err(ScrapeError::Address),
        Ok(address) => match percent_decode(address.as_str()) {
            Err(_) => Err(ScrapeError::Encoding),
            Ok(text) => Ok(text),
        },
    }
}

/// Listing of posts on the unrestricted host.
pub const POSTS_URL: &'static str = "https://e621.net/posts.json";

/// Listing of posts on the host for safe mode.
pub const SFW_POSTS_URL: &'static str = "https://e926.net/posts.json";

/// Listing of pools on the unrestricted host.
pub const POOLS_URL: &'static str = "https://e621.net/pools.json";

/// Listing of pools on the host for safe mode.
pub const SFW_POOLS_URL: &'static str = "https://e926.net/pools.json";

/// Number of posts asked for per page of a tag, as the query writes it.
pub const PAGE_LIMIT: &'static str = "320";

/// The endpoint that lists posts.
pub open spec fn posts_endpoint(sfw: bool) -> Seq<char> {
    if sfw {
        SFW_POSTS_URL@
    } else {
        POSTS_URL@
    }
}

/// The endpoint that lists pools.
pub open spec fn pools_endpoint(sfw: bool) -> Seq<char> {
    if sfw {
        SFW_POOLS_URL@
    } else {
        POOLS_URL@
    }
}

/// The page cursor that asks for what comes after the post `id`: the letter
/// `a` and the id in decimal.
pub open spec fn cursor_text(id: nat) -> Seq<char> {
    seq!['a'] + decimal_text(id)
}

/// The address of the page of a tag that follows the post `head`.
pub open spec fn tag_page_address(tag: Seq<char>, head: nat, sfw: bool) -> Result<
    Seq<char>,
    ScrapeError,
> {
    located(
        posts_endpoint(sfw),
        seq![("limit"@, PAGE_LIMIT@), ("tags"@, tag), ("page"@, cursor_text(head))],
    )
}

/// The address that looks one post up: a page of one post that starts right
/// after the post's predecessor. The id zero has none.
pub open spec fn post_lookup_address(post_id: nat, sfw: bool) -> Result<Seq<char>, ScrapeError> {
    if post_id == 0 {
        Err(ScrapeError::ZeroId)
    } else {
        located(
            posts_endpoint(sfw),
            seq![("limit"@, "1"@), ("page"@, cursor_text((post_id - 1) as nat))],
        )
    }
}

/// The address that asks for one pool.
pub open spec fn pool_address(pool_id: nat, sfw: bool) -> Result<Seq<char>, ScrapeError> {
    located(pools_endpoint(sfw), seq![("search[id]"@, decimal_text(pool_id))])
}

/// Writes the page cursor for what comes after the post `id`.
pub fn cursor(id: u64) -> (s: String)
    ensures
        s@ == cursor_text(id as nat),
{
    proof {
        reveal_strlit("a");
    }
    let mut s = String::from_str("a");
    s.append(decimal(id).as_str());
    assert(s@ =~= cursor_text(id as nat));
    s
}

fn posts_url(sfw: bool) -> (s: &'static str)
    ensures
        s@ == posts_endpoint(sfw),
{
    if sfw {
        SFW_POSTS_URL
    } else {
        POSTS_URL
    }
}

fn pair(key: &str, value: &str) -> (p: (String, String))
    ensures
        p.0@ == key@,
        p.1@ == value@,
{
    (String::from_str(key), String::from_str(value))
}

/// Builds the address of the page of `tag` that follows the post `head`.
pub fn tag_page_url(tag: &str, head: u64, sfw: bool) -> (r: Result<String, ScrapeError>)
    ensures
        address_text(r) == tag_page_address(tag@, head as nat, sfw),
{
    let page = cursor(head);
    let mut params: Vec<(String, String)> = Vec::new();
    params.push(pair("limit", PAGE_LIMIT));
    params.push(pair("tags", tag));
    params.push(pair("page", page.as_str()));
    assert(pairs_text(params@) =~= seq![
        ("limit"@, PAGE_LIMIT@),
        ("tags"@, tag@),
        ("page"@, cursor_text(head as nat)),
    ]);
    locate(posts_url(sfw), &params)
}

/// Builds the address that looks the post `post_id` up.
pub fn post_lookup_url(post_id: u64, sfw: bool) -> (r: Result<String, ScrapeError>)
    ensures
        address_text(r) == post_lookup_address(post_id as nat, sfw),
{
    if post_id == 0 {
        return Err(ScrapeError::ZeroId);
    }
    let page = cursor(post_id - 1);
    let mut params: Vec<(String, String)> = Vec::new();
    params.push(pair("limit", "1"));
    params.push(pair("page", page.as_str()));
    assert(pairs_text(params@) =~= seq![
        ("limit"@, "1"@),
        ("page"@, cursor_text((post_id - 1) as nat)),
    ]);
    locate(posts_url(sfw), &params)
}

/// Builds the address that asks for the pool `pool_id`.
pub fn pool_url(pool_id: u64, sfw: bool) -> (r: Result<String, ScrapeError>)
    ensures
        address_text(r) == pool_address(pool_id as nat, sfw),
{
    let id = decimal(pool_id);
    let mut params: Vec<(String, String)> = Vec::new();
    params.push(pair("search[id]", id.as_str()));
    assert(pairs_text(params@) =~= seq![("search[id]"@, decimal_text(pool_id as nat))]);
    let base = if sfw {
        SFW_POOLS_URL
    } else {
        POOLS_URL
    };
    locate(base, &params)
}

} // verus!
