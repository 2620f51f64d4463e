//! The article fetcher's decisions: whether an article has to be requested,
//! and what a stored article changes.

use vstd::prelude::*;
use crate::article::{ArticleRecord, RecordModel};
use crate::failures::{queue_remove, FailureQueue};
use crate::ledger::{ledger_has, ledger_put, EntryRecord, Ledger};
use crate::urls::{article_url, article_url_of, short_url, short_url_of};

verus! {

/// The request that fetching `url` takes: none when the ledger has the
/// article and the fetch is not forced, else the article's address.
pub open spec fn fetch_request_of(ledger: Seq<EntryRecord>, url: Seq<char>, force: bool) -> Option<
    Seq<char>,
> {
    let key = short_url_of(url);
    if ledger_has(ledger, key) && !force {
        None
    } else {
        Some(article_url_of(key))
    }
}

/// The ledger after the article of `url` was stored with `record`.
pub open spec fn ledger_after_store(ledger: Seq<EntryRecord>, url: Seq<char>, record: RecordModel)
    -> Seq<EntryRecord> {
    ledger_put(ledger, short_url_of(url), record)
}

/// The failure queue after the article of `url` was stored.
pub open spec fn queue_after_store(failed: Seq<Seq<char>>, url: Seq<char>) -> Seq<Seq<char>> {
    queue_remove(failed, short_url_of(url))
}

/// Decides whether the article of `url` has to be requested. `None` means
/// that the ledger satisfies the fetch; nothing is requested then.
pub fn fetch_request(ledger: &Ledger, url: &str, force: bool) -> (r: Option<String>)
    ensures
        r.deep_view() == fetch_request_of(ledger@, url@, force),
{
    let key = short_url(url);
    if !force && ledger.contains(key.as_str()) {
        None
    } else {
        Some(article_url(key.as_str()))
    }
}

/// Records that the article of `url` was stored with `record`: the ledger
/// gets the record, and the URL leaves the failure queue. Returns whether
/// the ledger grew.
pub fn record_stored(
    ledger: &mut Ledger,
    failed: &mut FailureQueue,
    url: &str,
    record: ArticleRecord,
) -> (grew: bool)
    ensures
        final(ledger)@ == ledger_after_store(old(ledger)@, url@, record@),
        final(failed)@ == queue_after_store(old(failed)@, url@),
        grew == !ledger_has(old(ledger)@, short_url_of(url@)),
        old(ledger).wf() ==> final(ledger).wf(),
        old(failed).wf() ==> final(failed).wf(),
{
    let key = short_url(url);
    failed.remove(key.as_str());
    ledger.insert(key, record)
}

} // verus!
