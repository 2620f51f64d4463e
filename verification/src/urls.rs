//! The addresses of the upstream API and the rules that derive one URL or
//! name from another.

use vstd::prelude::*;
use vstd::string::StringExecFns;
use crate::text::{
    decimal, decimal_string, final_segment, has_prefix, last_segment, nth_segment, segment,
    strip_prefix, stripped,
};

verus! {

/// Base address of the listing endpoint; a topic path and `/` follow it.
pub const API_URL: &'static str = "https://api.svt.se/nss-api/page/";

/// What every URL of the API begins with. A listing URL in the failure queue
/// is told from an article URL by it.
pub const API_PREFIX: &'static str = "https://api.svt.se/nss-api/page";

/// The host that listing entries may carry in front of an article's path.
pub const SITE_PREFIX: &'static str = "https://www.svt.se";

/// The query of a listing request, up to the page number.
pub const LISTING_QUERY: &'static str = "?q=auto&limit=50&page=";

/// The query of an article request.
pub const ARTICLE_QUERY: &'static str = "?q=articles";

/// Number of entries that one listing page holds.
pub const LIMIT: u32 = 50;

/// The URL of page `page` of the listing of `topic`.
pub open spec fn listing_url_of(topic: Seq<char>, page: nat) -> Seq<char> {
    API_URL@ + topic + seq!['/'] + LISTING_QUERY@ + decimal(page)
}

/// The URL under which the API serves the article with the short URL `short`.
pub open spec fn article_url_of(short: Seq<char>) -> Seq<char> {
    API_PREFIX@ + short + ARTICLE_QUERY@
}

/// Whether `url` addresses a listing page rather than an article.
pub open spec fn is_listing(url: Seq<char>) -> bool {
    API_PREFIX@.is_prefix_of(url)
}

/// The site-relative path of an article: `url` without the site's host.
pub open spec fn short_url_of(url: Seq<char>) -> Seq<char> {
    stripped(url, SITE_PREFIX@)
}

/// The name under which the articles of `topic` are stored: its last path
/// segment.
pub open spec fn topic_name_of(topic: Seq<char>) -> Seq<char> {
    final_segment(topic)
}

/// The topic name that a queued URL is retried under. Local news nest one
/// level deeper than the other sections of `nyheter`, which nest one level
/// deeper than the rest.
pub open spec fn retry_topic_of(url: Seq<char>) -> Option<Seq<char>> {
    let path = stripped(url, API_PREFIX@);
    if "/nyheter/lokalt"@.is_prefix_of(path) {
        nth_segment(path, 3)
    } else if "/nyheter"@.is_prefix_of(path) {
        nth_segment(path, 2)
    } else {
        nth_segment(path, 1)
    }
}

/// Number of listing pages that are walked for `total` available items. A
/// last page that is not full is left out.
pub open spec fn page_count_of(total: nat) -> nat {
    total / (LIMIT as nat)
}

/// The address of a listing page is told as such: a listing page that a
/// crawl puts into the failure queue is retried as a listing.
pub proof fn lemma_listing_url_is_listing(topic: Seq<char>, page: nat)
    ensures
        is_listing(listing_url_of(topic, page)),
{
    reveal_strlit("https://api.svt.se/nss-api/page/");
    reveal_strlit("https://api.svt.se/nss-api/page");
    let url = listing_url_of(topic, page);
    assert(API_PREFIX@.len() == 31);
    assert(API_URL@.len() == 32);
    assert(API_PREFIX@ =~= url.subrange(0, 31));
}

/// Builds the URL of page `page` of the listing of `topic`.
pub fn listing_url(topic: &str, page: u32) -> (r: String)
    ensures
        r@ == listing_url_of(topic@, page as nat),
{
    proof {
        reveal_strlit("/");
    }
    let mut r = String::from_str(API_URL);
    r.append(topic);
    r.append("/");
    r.append(LISTING_QUERY);
    let number = decimal_string(page);
    r.append(number.as_str());
    assert("/"@ =~= seq!['/']);
    r
}

/// Builds the URL under which the API serves the article at `short`.
pub fn article_url(short: &str) -> (r: String)
    ensures
        r@ == article_url_of(short@),
{
    let mut r = String::from_str(API_PREFIX);
    r.append(short);
    r.append(ARTICLE_QUERY);
    r
}

/// Tells a listing URL from an article URL.
pub fn is_listing_url(url: &str) -> (b: bool)
    ensures
        b == is_listing(url@),
{
    has_prefix(url, API_PREFIX)
}

/// Takes the site's host off an article URL.
pub fn short_url(url: &str) -> (r: String)
    ensures
        r@ == short_url_of(url@),
{
    strip_prefix(url, SITE_PREFIX)
}

/// Derives the storage name of a topic from its path.
pub fn topic_name(topic: &str) -> (r: String)
    ensures
        r@ == topic_name_of(topic@),
{
    last_segment(topic)
}

/// Reads the topic name that a queued URL is retried under. `None` when
/// the URL has no path segment at the place where its section keeps the name.
pub fn retry_topic(url: &str) -> (r: Option<String>)
    ensures
        r.deep_view() == retry_topic_of(url@),
{
    let path = strip_prefix(url, API_PREFIX);
    if has_prefix(path.as_str(), "/nyheter/lokalt") {
        segment(path.as_str(), 3)
    } else if has_prefix(path.as_str(), "/nyheter") {
        segment(path.as_str(), 2)
    } else {
        segment(path.as_str(), 1)
    }
}

/// Computes the number of listing pages that are walked for `total`
/// available items.
pub fn page_count(total: u32) -> (r: u32)
    ensures
        r == page_count_of(total as nat),
{
    total / LIMIT
}

} // verus!
