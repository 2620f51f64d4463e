//! What holds of every move of the crawl engine.
//!
//! The laws are stated over the transition system of `model`, which the
//! parser is proved to follow, and over the decisions of `fetcher`.

use vstd::prelude::*;
use crate::article::{storage_path_of, RecordModel};
use crate::failures::{
    lemma_queue_add, lemma_queue_remove, queue_add, queue_add_all, queue_remove, queue_remove_all,
};
use crate::fetcher::{fetch_request_of, ledger_after_store, queue_after_store};
use crate::ledger::{ledger_distinct, ledger_has, lemma_ledger_put, EntryRecord};
use crate::model::{
    begin_crawl, begin_retry, book_item, end_page, reconcile, request_article, retry_entries,
    retry_items, settle, start_topic, step, stored, walk_entries, wf, ActionModel, EventModel,
    Mode, Phase, State,
};
use crate::urls::short_url_of;

verus! {

/// No URL stands in the ledger and in the failure queue at once.
pub open spec fn exclusive(ledger: Seq<EntryRecord>, failed: Seq<Seq<char>>) -> bool {
    forall|url: Seq<char>| !(ledger_has(ledger, url) && #[trigger] failed.contains(url))
}

/// The article in flight is not in the ledger.
pub open spec fn in_flight_is_new(s: State) -> bool {
    (s.phase == Phase::Article || s.phase == Phase::Write) ==> !ledger_has(s.ledger, s.target)
}

/// What an unforced crawl keeps true from move to move.
pub open spec fn crawl_invariant(s: State) -> bool {
    &&& wf(s)
    &&& s.mode == Mode::Crawl
    &&& !s.force
    &&& exclusive(s.ledger, s.failed)
    &&& in_flight_is_new(s)
}

/// Whether `a` asks for a request or a write that belongs to the page
/// under way, or for the flush that ends it.
pub open spec fn stays_on_page(a: ActionModel) -> bool {
    a is FetchArticle || a is WriteArticle || a is Flush
}

/// Taking a URL out of the failure queue keeps ledger and queue apart.
proof fn lemma_remove_keeps_apart(ledger: Seq<EntryRecord>, failed: Seq<Seq<char>>, url: Seq<char>)
    requires
        failed.no_duplicates(),
        exclusive(ledger, failed),
    ensures
        exclusive(ledger, queue_remove(failed, url)),
        queue_remove(failed, url).no_duplicates(),
{
    lemma_queue_remove(failed, url);
}

/// Putting a URL that the ledger lacks into the failure queue keeps ledger
/// and queue apart.
proof fn lemma_add_keeps_apart(ledger: Seq<EntryRecord>, failed: Seq<Seq<char>>, url: Seq<char>)
    requires
        failed.no_duplicates(),
        exclusive(ledger, failed),
        !ledger_has(ledger, url),
    ensures
        exclusive(ledger, queue_add(failed, url)),
        queue_add(failed, url).no_duplicates(),
{
    lemma_queue_add(failed, url);
}

/// Storing an article keeps ledger and queue apart.
proof fn lemma_store_keeps_apart(
    ledger: Seq<EntryRecord>,
    failed: Seq<Seq<char>>,
    url: Seq<char>,
    record: RecordModel,
)
    requires
        failed.no_duplicates(),
        ledger_distinct(ledger),
        exclusive(ledger, failed),
    ensures
        exclusive(ledger_after_store(ledger, url, record), queue_after_store(failed, url)),
        queue_after_store(failed, url).no_duplicates(),
        ledger_distinct(ledger_after_store(ledger, url, record)),
{
    let key = short_url_of(url);
    lemma_queue_remove(failed, key);
    lemma_ledger_put(ledger, key, record);
}

/// The walk over the entries of a page, in an unforced crawl, keeps the
/// crawl's invariant, leaves the ledger as it is, and ends in an article
/// request or in the flush of the page.
proof fn lemma_unforced_walk(s: State)
    requires
        wf(s),
        s.mode == Mode::Crawl,
        !s.force,
        exclusive(s.ledger, s.failed),
    ensures
        crawl_invariant(walk_entries(s).0),
        walk_entries(s).0.ledger == s.ledger,
        walk_entries(s).1 is FetchArticle || walk_entries(s).1 is Flush,
    decreases s.entries.len() - s.cursor,
{
    if s.cursor < s.entries.len() {
        let candidate = short_url_of(s.entries[s.cursor as int].url);
        let next = State { cursor: s.cursor + 1, ..s };
        if candidate.len() == 0 {
            lemma_unforced_walk(next);
        } else if ledger_has(s.ledger, candidate) {
        } else {
            match fetch_request_of(s.ledger, candidate, s.force) {
                None => {
                    lemma_remove_keeps_apart(s.ledger, s.failed, candidate);
                    lemma_unforced_walk(State { failed: queue_remove(s.failed, candidate), ..next });
                },
                Some(url) => {},
            }
        }
    }
}

/// Taking up the next topic keeps the invariant of an unforced crawl.
proof fn lemma_start_topic(s: State)
    requires
        wf(s),
        s.mode == Mode::Crawl,
        !s.force,
        exclusive(s.ledger, s.failed),
    ensures
        crawl_invariant(start_topic(s).0),
        start_topic(s).0.ledger == s.ledger,
        start_topic(s).0.failed == s.failed,
{
}

/// *Mutual exclusion, at the start of a crawl.* A crawl that starts from a
/// sound state with ledger and failure queue apart starts with them apart,
/// and an unforced one with its invariant.
pub proof fn lemma_crawl_starts_apart(s: State, force: bool)
    requires
        wf(s),
        exclusive(s.ledger, s.failed),
    ensures
        wf(begin_crawl(s, force).0),
        exclusive(begin_crawl(s, force).0.ledger, begin_crawl(s, force).0.failed),
        !force ==> crawl_invariant(begin_crawl(s, false).0),
{
    if !force {
        lemma_start_topic(
            State { mode: Mode::Crawl, force, topic: 0, stop: false, grew: false, ..s },
        );
    }
}

/// *Mutual exclusion, in an unforced crawl.* Every move of an unforced
/// crawl keeps the ledger and the failure queue apart, and keeps the
/// article in flight out of the ledger, so that no failure of an article
/// can put a stored URL into the queue. The one move left out is the
/// failure of a listing page whose own address is a key of the ledger.
pub proof fn lemma_unforced_crawl_keeps_apart(s: State, e: EventModel)
    requires
        crawl_invariant(s),
        !(s.phase == Phase::Listing && !(e is Listing) && ledger_has(s.ledger, s.listing)),
    ensures
        crawl_invariant(step(s, e).0),
        exclusive(step(s, e).0.ledger, step(s, e).0.failed),
{
    match s.phase {
        Phase::Listing => {
            match e {
                EventModel::Listing(page) => {
                    let pages = if s.page == 1 {
                        crate::urls::page_count_of(page.total)
                    } else {
                        s.pages
                    };
                    if s.page > pages {
                        lemma_start_topic(State { pages, ..s });
                    } else {
                        lemma_remove_keeps_apart(s.ledger, s.failed, s.listing);
                        lemma_unforced_walk(
                            State {
                                pages,
                                failed: queue_remove(s.failed, s.listing),
                                entries: page.entries,
                                cursor: 0,
                                ..s
                            },
                        );
                    }
                },
                _ => {
                    lemma_add_keeps_apart(s.ledger, s.failed, s.listing);
                },
            }
        },
        Phase::Article => {
            lemma_add_keeps_apart(s.ledger, s.failed, s.target);
            lemma_unforced_walk(State { failed: queue_add(s.failed, s.target), ..s });
        },
        Phase::Write => {
            match e {
                EventModel::Written => {
                    let t = stored(s);
                    lemma_store_keeps_apart(s.ledger, s.failed, s.target, s.record);
                    lemma_remove_keeps_apart(t.ledger, t.failed, t.target);
                    lemma_unforced_walk(State { failed: queue_remove(t.failed, t.target), ..t });
                },
                _ => {
                    lemma_add_keeps_apart(s.ledger, s.failed, s.target);
                    lemma_unforced_walk(State { failed: queue_add(s.failed, s.target), ..s });
                },
            }
        },
        Phase::Flush => {
            match e {
                EventModel::Written => {
                    if s.stop || s.page >= s.pages {
                        lemma_start_topic(State { grew: false, ..s });
                    }
                },
                _ => {},
            }
        },
        _ => {},
    }
}

/// The walk over the entries of a page keeps ledger and queue apart.
proof fn lemma_walk_keeps_apart(s: State)
    requires
        s.failed.no_duplicates(),
        exclusive(s.ledger, s.failed),
    ensures
        exclusive(walk_entries(s).0.ledger, walk_entries(s).0.failed),
    decreases s.entries.len() - s.cursor,
{
    if s.cursor < s.entries.len() {
        let candidate = short_url_of(s.entries[s.cursor as int].url);
        let next = State { cursor: s.cursor + 1, ..s };
        if candidate.len() == 0 {
            lemma_walk_keeps_apart(next);
        } else if !s.force && ledger_has(s.ledger, candidate) {
        } else {
            match fetch_request_of(s.ledger, candidate, s.force) {
                None => {
                    lemma_remove_keeps_apart(s.ledger, s.failed, candidate);
                    lemma_walk_keeps_apart(
                        State { failed: queue_remove(s.failed, candidate), ..next },
                    );
                },
                Some(url) => {},
            }
        }
    }
}

/// *Mutual exclusion, during a crawl.* Every move of a crawl, forced or
/// not, keeps the ledger and the failure queue apart: no URL is in both.
/// Two moves are left out, those that put a key of the ledger into the
/// queue: the failure of a listing page whose own address is a key of the
/// ledger, and the failure of an article that the ledger has, which only a
/// forced crawl fetches.
pub proof fn lemma_crawl_keeps_apart(s: State, e: EventModel)
    requires
        wf(s),
        s.mode == Mode::Crawl,
        exclusive(s.ledger, s.failed),
        !(s.phase == Phase::Listing && !(e is Listing) && ledger_has(s.ledger, s.listing)),
        !(article_fails(s, e) && ledger_has(s.ledger, s.target)),
    ensures
        wf(step(s, e).0),
        exclusive(step(s, e).0.ledger, step(s, e).0.failed),
{
    lemma_step_keeps_sound(s, e);
    match s.phase {
        Phase::Listing => {
            match e {
                EventModel::Listing(page) => {
                    let pages = if s.page == 1 {
                        crate::urls::page_count_of(page.total)
                    } else {
                        s.pages
                    };
                    if s.page <= pages {
                        lemma_remove_keeps_apart(s.ledger, s.failed, s.listing);
                        lemma_walk_keeps_apart(
                            State {
                                pages,
                                failed: queue_remove(s.failed, s.listing),
                                entries: page.entries,
                                cursor: 0,
                                ..s
                            },
                        );
                    }
                },
                _ => {
                    lemma_add_keeps_apart(s.ledger, s.failed, s.listing);
                },
            }
        },
        Phase::Article => {
            if article_fails(s, e) {
                lemma_add_keeps_apart(s.ledger, s.failed, s.target);
                lemma_walk_keeps_apart(State { failed: queue_add(s.failed, s.target), ..s });
            }
        },
        Phase::Write => {
            match e {
                EventModel::Written => {
                    let t = stored(s);
                    lemma_store_keeps_apart(s.ledger, s.failed, s.target, s.record);
                    lemma_remove_keeps_apart(t.ledger, t.failed, t.target);
                    lemma_walk_keeps_apart(State { failed: queue_remove(t.failed, t.target), ..t });
                },
                _ => {
                    lemma_add_keeps_apart(s.ledger, s.failed, s.target);
                    lemma_walk_keeps_apart(State { failed: queue_add(s.failed, s.target), ..s });
                },
            }
        },
        _ => {},
    }
}

/// Whether `a` is one of the actions that a retry pass goes on with.
pub open spec fn retry_goes_on(a: ActionModel) -> bool {
    a is FetchListing || a is FetchArticle || a is Flush
}

/// Whether `b` begins with all of `a`.
pub open spec fn extends(a: Seq<Seq<char>>, b: Seq<Seq<char>>) -> bool {
    a.len() <= b.len() && forall|i: int| 0 <= i < a.len() ==> a[i] == #[trigger] b[i]
}

/// The walk over the entries of a page never touches the ledger, keeps a
/// sound state sound, and ends in an article request or in the flush of the
/// page.
pub proof fn lemma_walk_shape(s: State)
    ensures
        walk_entries(s).0.ledger == s.ledger,
        walk_entries(s).0.mode == s.mode,
        walk_entries(s).1 is FetchArticle || walk_entries(s).1 is Flush,
        walk_entries(s).0.grew == s.grew,
        walk_entries(s).1 is Flush <==> walk_entries(s).0.phase == Phase::Flush,
        walk_entries(s).1 is Flush ==> walk_entries(s).1 == (ActionModel::Flush {
            ledger: s.grew,
        }),
        wf(s) ==> wf(walk_entries(s).0),
    decreases s.entries.len() - s.cursor,
{
    if s.cursor < s.entries.len() {
        let candidate = short_url_of(s.entries[s.cursor as int].url);
        let next = State { cursor: s.cursor + 1, ..s };
        if candidate.len() == 0 {
            lemma_walk_shape(next);
        } else if !s.force && ledger_has(s.ledger, candidate) {
        } else {
            match fetch_request_of(s.ledger, candidate, s.force) {
                None => {
                    if s.failed.no_duplicates() {
                        lemma_queue_remove(s.failed, candidate);
                    }
                    lemma_walk_shape(State { failed: queue_remove(s.failed, candidate), ..next });
                },
                Some(url) => {},
            }
        }
    }
}

/// Taking URLs out of a queue leaves a queue without repetitions that
/// holds nothing new.
pub proof fn lemma_queue_remove_all(queue: Seq<Seq<char>>, urls: Seq<Seq<char>>)
    requires
        queue.no_duplicates(),
    ensures
        queue_remove_all(queue, urls).no_duplicates(),
        forall|u: Seq<char>| #[trigger]
            queue_remove_all(queue, urls).contains(u) ==> queue.contains(u) && !urls.contains(u),
    decreases urls.len(),
{
    if urls.len() > 0 {
        let rest = urls.drop_last();
        lemma_queue_remove_all(queue, rest);
        lemma_queue_remove(queue_remove_all(queue, rest), urls.last());
        assert forall|u: Seq<char>| #[trigger]
            queue_remove_all(queue, urls).contains(u) implies queue.contains(u) && !urls.contains(
            u,
        ) by {
            assert(queue_remove_all(queue, rest).contains(u));
            if urls.contains(u) {
                let k = choose|k: int| 0 <= k < urls.len() && urls[k] == u;
                if k < urls.len() - 1 {
                    assert(rest[k] == u);
                }
            }
        }
    }
}

/// Adding URLs to a queue leaves a queue without repetitions that holds
/// what it held and what was added.
pub proof fn lemma_queue_add_all(queue: Seq<Seq<char>>, urls: Seq<Seq<char>>)
    requires
        queue.no_duplicates(),
    ensures
        queue_add_all(queue, urls).no_duplicates(),
        forall|u: Seq<char>| #[trigger]
            queue_add_all(queue, urls).contains(u) <==> (queue.contains(u) || urls.contains(u)),
    decreases urls.len(),
{
    if urls.len() > 0 {
        let rest = urls.drop_last();
        lemma_queue_add_all(queue, rest);
        lemma_queue_add(queue_add_all(queue, rest), urls.last());
        assert forall|u: Seq<char>| #[trigger]
            queue_add_all(queue, urls).contains(u) <==> (queue.contains(u) || urls.contains(
            u,
        )) by {
            if urls.contains(u) {
                let k = choose|k: int| 0 <= k < urls.len() && urls[k] == u;
                if k < urls.len() - 1 {
                    assert(rest[k] == u);
                }
            }
            if rest.contains(u) {
                let k = choose|k: int| 0 <= k < rest.len() && rest[k] == u;
                assert(urls[k] == u);
            }
            assert(urls[urls.len() - 1] == urls.last());
        }
    } else {
        assert forall|u: Seq<char>| !urls.contains(u) by {}
    }
}

/// Closing a retry pass keeps a sound state sound and leaves the ledger
/// and the books as they are.
proof fn lemma_reconcile_shape(s: State)
    ensures
        reconcile(s).0.ledger == s.ledger,
        reconcile(s).0.succeeded == s.succeeded,
        reconcile(s).0.newly_failed == s.newly_failed,
        reconcile(s).0.item == s.item,
        reconcile(s).0.phase == Phase::Closing,
        reconcile(s).1 == (ActionModel::Flush { ledger: true }),
        wf(s) ==> wf(reconcile(s).0),
{
    if s.failed.no_duplicates() {
        lemma_queue_remove_all(s.failed, s.succeeded);
        lemma_queue_add_all(queue_remove_all(s.failed, s.succeeded), s.newly_failed);
    }
}

/// Taking up the queued URLs never touches the ledger, keeps a sound state
/// sound, only adds to the books, and ends in a request or in the flush
/// that closes the pass. Until that flush the failure queue stays as it is.
pub proof fn lemma_retry_items_shape(s: State)
    ensures
        retry_items(s).0.ledger == s.ledger,
        retry_items(s).0.mode == s.mode,
        retry_goes_on(retry_items(s).1),
        retry_items(s).1 is Flush <==> retry_items(s).0.phase == Phase::Closing,
        retry_items(s).0.phase != Phase::Closing ==> retry_items(s).0.failed == s.failed,
        retry_items(s).0.phase == Phase::Closing ==> retry_items(s).0.failed == queue_add_all(
            queue_remove_all(s.failed, retry_items(s).0.succeeded),
            retry_items(s).0.newly_failed,
        ),
        extends(s.succeeded, retry_items(s).0.succeeded),
        extends(s.newly_failed, retry_items(s).0.newly_failed),
        retry_items(s).0.item >= s.item,
        wf(s) ==> wf(retry_items(s).0),
    decreases s.queue.len() - s.item,
{
    if s.item >= s.queue.len() {
        lemma_reconcile_shape(s);
    } else {
        let url = s.queue[s.item as int];
        let next = State { item: s.item + 1, item_url: url, ..s };
        match crate::urls::retry_topic_of(url) {
            None => {
                lemma_retry_items_shape(book_item(next, false));
            },
            Some(name) => {
                let named = State { topic_name: name, ..next };
                if crate::urls::is_listing(url) {
                } else {
                    match fetch_request_of(s.ledger, url, false) {
                        None => {
                            lemma_retry_items_shape(book_item(named, true));
                        },
                        Some(article) => {},
                    }
                }
            },
        }
    }
}

/// Retrying the entries of a queued listing never touches the ledger,
/// keeps a sound state sound, only adds to the books, and ends in a request
/// or in the flush that closes the pass.
pub proof fn lemma_retry_entries_shape(s: State)
    ensures
        retry_entries(s).0.ledger == s.ledger,
        retry_entries(s).0.mode == s.mode,
        retry_goes_on(retry_entries(s).1),
        retry_entries(s).1 is Flush <==> retry_entries(s).0.phase == Phase::Closing,
        retry_entries(s).0.phase != Phase::Closing ==> retry_entries(s).0.failed == s.failed,
        retry_entries(s).0.phase == Phase::Closing ==> retry_entries(s).0.failed == queue_add_all(
            queue_remove_all(s.failed, retry_entries(s).0.succeeded),
            retry_entries(s).0.newly_failed,
        ),
        extends(s.succeeded, retry_entries(s).0.succeeded),
        extends(s.newly_failed, retry_entries(s).0.newly_failed),
        retry_entries(s).0.item >= s.item,
        wf(s) ==> wf(retry_entries(s).0),
    decreases s.entries.len() - s.cursor,
{
    if s.cursor >= s.entries.len() {
        lemma_retry_items_shape(book_item(s, !s.item_failed));
    } else {
        let candidate = s.entries[s.cursor as int].url;
        let next = State { cursor: s.cursor + 1, ..s };
        if candidate.len() == 0 {
            lemma_retry_entries_shape(next);
        } else {
            match fetch_request_of(s.ledger, candidate, false) {
                None => {
                    lemma_retry_entries_shape(next);
                },
                Some(url) => {},
            }
        }
    }
}

/// What settling the article in flight keeps: the ledger, and the
/// soundness of the state.
proof fn lemma_settle_shape(s: State, ok: bool)
    ensures
        settle(s, ok).0.ledger == s.ledger,
        settle(s, ok).0.mode == s.mode,
        !(settle(s, ok).1 is WriteArticle),
        s.mode == Mode::Crawl ==> settle(s, ok).0.grew == s.grew,
        s.mode == Mode::Crawl && settle(s, ok).0.phase == Phase::Flush ==> settle(s, ok).1 == (
        ActionModel::Flush { ledger: s.grew }),
        s.mode == Mode::Crawl ==> stays_on_page(settle(s, ok).1),
        wf(s) ==> wf(settle(s, ok).0),
{
    match s.mode {
        Mode::Crawl => {
            if s.failed.no_duplicates() {
                lemma_queue_remove(s.failed, s.target);
                lemma_queue_add(s.failed, s.target);
            }
            let failed = if ok {
                queue_remove(s.failed, s.target)
            } else {
                queue_add(s.failed, s.target)
            };
            lemma_walk_shape(State { failed, ..s });
        },
        Mode::Retry => {
            if s.in_listing {
                lemma_retry_entries_shape(State { item_failed: s.item_failed || !ok, ..s });
            } else {
                lemma_retry_items_shape(book_item(s, ok));
            }
        },
    }
}

/// What every move has in common: it keeps a sound state sound, touches
/// the ledger only to enter the article whose write was reported, asks for
/// a write only in answer to an article, and stays on the page under way
/// until the page is flushed.
proof fn lemma_step_shape(s: State, e: EventModel)
    ensures
        wf(s) ==> wf(step(s, e).0),
        step(s, e).0.ledger == s.ledger || (s.phase == Phase::Write && e is Written && step(
            s,
            e,
        ).0.ledger == ledger_after_store(s.ledger, s.target, s.record)),
        step(s, e).1 is WriteArticle ==> {
            &&& s.phase == Phase::Article
            &&& e is Article
            &&& step(s, e).0 == State { phase: Phase::Write, record: step(s, e).0.record, ..s }
            &&& crate::article::record_of(e->Article_0, s.topic_name, s.this_year) == Some(
                step(s, e).0.record,
            )
            &&& step(s, e).1 == (ActionModel::WriteArticle {
                path: storage_path_of(step(s, e).0.record),
                content: e->Article_0.body,
            })
        },
        s.mode == Mode::Crawl && (s.phase == Phase::Listing || s.phase == Phase::Article || s.phase
            == Phase::Write) ==> stays_on_page(step(s, e).1) || (s.phase == Phase::Listing && e is Listing
            && step(s, e).0.ledger == s.ledger && step(s, e).0.failed == s.failed),
        s.mode == Mode::Crawl && (s.phase == Phase::Listing || s.phase == Phase::Article || s.phase
            == Phase::Write) ==> {
            &&& step(s, e).0.grew == (s.grew || step(s, e).0.ledger.len() > s.ledger.len())
            &&& step(s, e).0.phase == Phase::Flush ==> step(s, e).1 == (ActionModel::Flush {
                ledger: step(s, e).0.grew,
            })
        },
        s.mode == Mode::Crawl && step(s, e).1 is FetchListing && step(s, e).0.page > 1 ==> {
            &&& s.phase == Phase::Flush
            &&& e is Written
            &&& !s.stop
            &&& step(s, e).0.page == s.page + 1
            &&& step(s, e).0.ledger == s.ledger
            &&& step(s, e).0.failed == s.failed
        },
{
    match s.phase {
        Phase::Listing => {
            if s.failed.no_duplicates() {
                lemma_queue_remove(s.failed, s.listing);
                lemma_queue_add(s.failed, s.listing);
            }
            match s.mode {
                Mode::Crawl => match e {
                    EventModel::Listing(page) => {
                        let pages = if s.page == 1 {
                            crate::urls::page_count_of(page.total)
                        } else {
                            s.pages
                        };
                        if s.page <= pages {
                            lemma_walk_shape(
                                State {
                                    pages,
                                    failed: queue_remove(s.failed, s.listing),
                                    entries: page.entries,
                                    cursor: 0,
                                    ..s
                                },
                            );
                        }
                    },
                    _ => {},
                },
                Mode::Retry => match e {
                    EventModel::Listing(page) => {
                        lemma_retry_entries_shape(State { entries: page.entries, cursor: 0, ..s });
                    },
                    _ => {
                        lemma_retry_items_shape(book_item(s, false));
                    },
                },
            }
        },
        Phase::Article => {
            lemma_settle_shape(s, false);
        },
        Phase::Write => {
            lemma_ledger_put(s.ledger, short_url_of(s.target), s.record);
            if wf(s) {
                lemma_queue_remove(s.failed, short_url_of(s.target));
            }
            lemma_settle_shape(stored(s), true);
            lemma_settle_shape(s, false);
        },
        _ => {},
    }
}

/// *Set semantics.* Every move keeps the state sound: neither the ledger
/// nor the failure queue ever holds a URL twice.
pub proof fn lemma_step_keeps_sound(s: State, e: EventModel)
    requires
        wf(s),
    ensures
        wf(step(s, e).0),
{
    lemma_step_shape(s, e);
}

/// Starting a pass from a sound state gives a sound state.
pub proof fn lemma_start_keeps_sound(s: State, force: bool)
    requires
        wf(s),
    ensures
        wf(begin_crawl(s, force).0),
        wf(begin_retry(s).0),
{
    if s.failed.len() > 0 {
        lemma_retry_items_shape(
            State {
                mode: Mode::Retry,
                force: false,
                queue: s.failed,
                item: 0,
                succeeded: Seq::empty(),
                newly_failed: Seq::empty(),
                grew: false,
                ..s
            },
        );
    }
}

/// *Idempotence.* Once the article of a URL was stored, an unforced fetch
/// of the same URL takes no request: the ledger answers it.
pub proof fn lemma_fetch_is_idempotent(ledger: Seq<EntryRecord>, url: Seq<char>, record: RecordModel)
    ensures
        fetch_request_of(ledger_after_store(ledger, url, record), url, false) is None,
{
    lemma_ledger_put(ledger, short_url_of(url), record);
}

/// *Idempotence, in the engine.* After the move that follows a successful
/// write, an unforced fetch of the article that was in flight takes no
/// request.
pub proof fn lemma_written_article_is_not_requested_again(s: State)
    requires
        s.phase == Phase::Write,
    ensures
        fetch_request_of(step(s, EventModel::Written).0.ledger, s.target, false) is None,
{
    lemma_ledger_put(s.ledger, short_url_of(s.target), s.record);
    lemma_settle_shape(stored(s), true);
}

/// *Ledger and storage.* The ledger changes in one move only: the one that
/// follows the report that the article in flight was written. It then gets
/// the record that was announced with the write.
pub proof fn lemma_ledger_changes_only_after_write(s: State, e: EventModel)
    ensures
        step(s, e).0.ledger == s.ledger || (s.phase == Phase::Write && e is Written && step(
            s,
            e,
        ).0.ledger == ledger_after_store(s.ledger, s.target, s.record)),
{
    lemma_step_shape(s, e);
}

/// *Ledger and storage.* A write is asked for only in answer to an article
/// response, and then for the path that belongs to the record which the
/// ledger gets once the write is reported: the record of that response,
/// under the topic name of the state.
pub proof fn lemma_write_goes_to_the_record_path(s: State, e: EventModel)
    requires
        step(s, e).1 is WriteArticle,
    ensures
        s.phase == Phase::Article,
        e is Article,
        step(s, e).0.phase == Phase::Write,
        step(s, e).0.target == s.target,
        step(s, e).0.ledger == s.ledger,
        crate::article::record_of(e->Article_0, s.topic_name, s.this_year) == Some(
            step(s, e).0.record,
        ),
        step(s, e).1 == (ActionModel::WriteArticle {
            path: storage_path_of(step(s, e).0.record),
            content: e->Article_0.body,
        }),
{
    lemma_step_shape(s, e);
}

/// Whether every entry of `entries` from `from` up to `to` is without a URL
/// once the site's host is taken off.
pub open spec fn no_urls_between(entries: Seq<crate::page::EntryModel>, from: nat, to: nat) -> bool {
    forall|i: int| from <= i < to ==> short_url_of((#[trigger] entries[i]).url).len() == 0
}

/// *Early stop.* In an unforced crawl, when the first entry with a URL at
/// or after the cursor is one that the ledger has, the walk asks for no
/// article: it marks the topic as done and flushes the page. Neither this
/// entry nor any after it is taken up.
pub proof fn lemma_early_stop(s: State, n: nat)
    requires
        !s.force,
        s.cursor <= n < s.entries.len(),
        no_urls_between(s.entries, s.cursor, n),
        short_url_of(s.entries[n as int].url).len() > 0,
        ledger_has(s.ledger, short_url_of(s.entries[n as int].url)),
    ensures
        walk_entries(s) == end_page(State { stop: true, cursor: n, ..s }),
        walk_entries(s).1 == (ActionModel::Flush { ledger: s.grew }),
    decreases n - s.cursor,
{
    if s.cursor < n {
        assert(short_url_of(s.entries[s.cursor as int].url).len() == 0);
        lemma_early_stop(State { cursor: s.cursor + 1, ..s }, n);
    }
}

/// *Early stop.* Once a page was left early, the flush that follows it
/// leads to the next topic: no later page of the topic is asked for.
pub proof fn lemma_stop_leaves_topic(s: State)
    requires
        s.phase == Phase::Flush,
        s.stop,
    ensures
        step(s, EventModel::Written) == start_topic(State { grew: false, ..s }),
        s.topic < s.topics.len() ==> step(s, EventModel::Written).1 == (ActionModel::FetchListing {
            url: crate::urls::listing_url_of(s.topics[s.topic as int], 1),
        }),
        s.topic >= s.topics.len() ==> step(s, EventModel::Written).1 == (ActionModel::Flush {
            ledger: true,
        }),
{
}

/// *Early stop.* The first entry with a URL at or after the cursor is
/// requested when the ledger has neither the URL nor what the fetcher makes
/// of it, and whenever the crawl is forced. The cursor then passes it.
pub proof fn lemma_new_entry_is_requested(s: State, n: nat)
    requires
        s.cursor <= n < s.entries.len(),
        no_urls_between(s.entries, s.cursor, n),
        short_url_of(s.entries[n as int].url).len() > 0,
        s.force || (!ledger_has(s.ledger, short_url_of(s.entries[n as int].url)) && !ledger_has(
            s.ledger,
            short_url_of(short_url_of(s.entries[n as int].url)),
        )),
    ensures
        walk_entries(s) == request_article(
            State { cursor: n + 1, ..s },
            short_url_of(s.entries[n as int].url),
            crate::urls::article_url_of(short_url_of(short_url_of(s.entries[n as int].url))),
        ),
    decreases n - s.cursor,
{
    if s.cursor < n {
        assert(short_url_of(s.entries[s.cursor as int].url).len() == 0);
        lemma_new_entry_is_requested(State { cursor: s.cursor + 1, ..s }, n);
    }
}

/// *Flush after every page.* From the request of a listing page to the
/// flush that follows it, a crawl asks for nothing but the page's own
/// articles and their files. The one other move is the answer to a first
/// page that shows the topic to have no full page: nothing of the topic is
/// walked then, and ledger and failure queue stay as they are.
pub proof fn lemma_page_ends_in_flush(s: State, e: EventModel)
    requires
        s.mode == Mode::Crawl,
        s.phase == Phase::Listing || s.phase == Phase::Article || s.phase == Phase::Write,
    ensures
        stays_on_page(step(s, e).1) || (s.phase == Phase::Listing && e is Listing && step(
            s,
            e,
        ).0.ledger == s.ledger && step(s, e).0.failed == s.failed),
{
    lemma_step_shape(s, e);
}

/// *Flush after every page.* The flush of a page takes the ledger along
/// exactly when the ledger got a new entry since it was last flushed.
pub proof fn lemma_page_flush_takes_the_grown_ledger(s: State, e: EventModel)
    requires
        s.mode == Mode::Crawl,
        s.phase == Phase::Listing || s.phase == Phase::Article || s.phase == Phase::Write,
    ensures
        step(s, e).0.grew == (s.grew || step(s, e).0.ledger.len() > s.ledger.len()),
        step(s, e).0.phase == Phase::Flush ==> step(s, e).1 == (ActionModel::Flush {
            ledger: step(s, e).0.grew,
        }),
{
    lemma_step_shape(s, e);
}

/// *Flush after every page.* The next page of a topic is asked for only
/// once the flush of the page before it is reported, and that move leaves
/// the ledger and the failure queue as they were flushed.
pub proof fn lemma_next_page_follows_flush(s: State, e: EventModel)
    requires
        s.mode == Mode::Crawl,
        step(s, e).1 is FetchListing,
        step(s, e).0.page > 1,
    ensures
        s.phase == Phase::Flush,
        e is Written,
        !s.stop,
        step(s, e).0.page == s.page + 1,
        step(s, e).0.ledger == s.ledger,
        step(s, e).0.failed == s.failed,
{
    lemma_step_shape(s, e);
}

/// Whether the move from `s` on `e` settles the article in flight as
/// failed.
pub open spec fn article_fails(s: State, e: EventModel) -> bool {
    match s.phase {
        Phase::Article => !(e is Article) || crate::article::record_of(
            e->Article_0,
            s.topic_name,
            s.this_year,
        ) is None,
        Phase::Write => !(e is Written),
        _ => false,
    }
}

/// Whether the retry of the queued URL of `s` was booked as failed in `t`.
pub open spec fn booked_as_failed(s: State, t: State) -> bool {
    &&& t.newly_failed.len() > s.newly_failed.len()
    &&& t.newly_failed[s.newly_failed.len() as int] == s.item_url
    &&& extends(s.newly_failed, t.newly_failed)
    &&& extends(s.succeeded, t.succeeded)
    &&& t.item >= s.item
}

/// A listing of which an article failed is booked as failed when its
/// entries run out, or goes on with the failure remembered.
proof fn lemma_failed_listing(s: State)
    requires
        s.item_failed,
        s.in_listing,
    ensures
        ({
            let t = retry_entries(s).0;
            if t.phase == Phase::Article && t.in_listing {
                t.item_failed && t.item == s.item && t.item_url == s.item_url
                    && t.succeeded == s.succeeded && t.newly_failed == s.newly_failed
            } else {
                booked_as_failed(s, t)
            }
        }),
        retry_entries(s).0.phase != Phase::Write,
    decreases s.entries.len() - s.cursor,
{
    if s.cursor >= s.entries.len() {
        let booked = book_item(s, false);
        lemma_retry_items_shape(booked);
        let t = retry_items(booked).0;
        let k = s.newly_failed.len() as int;
        assert(booked.newly_failed[k] == s.item_url);
        assert(t.newly_failed[k] == booked.newly_failed[k]);
        assert forall|i: int| 0 <= i < k implies s.newly_failed[i] == #[trigger] t.newly_failed[i] by {
            assert(booked.newly_failed[i] == s.newly_failed[i]);
        }
        lemma_retry_items_phase(booked);
    } else {
        let candidate = s.entries[s.cursor as int].url;
        let next = State { cursor: s.cursor + 1, ..s };
        if candidate.len() == 0 {
            lemma_failed_listing(next);
        } else {
            match fetch_request_of(s.ledger, candidate, false) {
                None => {
                    lemma_failed_listing(next);
                },
                Some(url) => {},
            }
        }
    }
}

/// Where the taking up of queued URLs ends in an article request, the
/// article is the queued URL itself, not an entry of a listing.
proof fn lemma_retry_items_phase(s: State)
    ensures
        retry_items(s).0.phase == Phase::Article ==> !retry_items(s).0.in_listing
            && retry_items(s).0.item > s.item,
        retry_items(s).0.phase != Phase::Write,
    decreases s.queue.len() - s.item,
{
    if s.item < s.queue.len() {
        let url = s.queue[s.item as int];
        let next = State { item: s.item + 1, item_url: url, ..s };
        match crate::urls::retry_topic_of(url) {
            None => {
                lemma_retry_items_phase(book_item(next, false));
            },
            Some(name) => {
                let named = State { topic_name: name, ..next };
                if !crate::urls::is_listing(url) {
                    match fetch_request_of(s.ledger, url, false) {
                        None => {
                            lemma_retry_items_phase(book_item(named, true));
                        },
                        Some(article) => {},
                    }
                }
            },
        }
    }
}

/// *Retry accounting.* A queued listing of which one article failed is
/// never booked as succeeded. The move that settles an article of the
/// listing as failed, and every later move on the listing, either goes on
/// with an article of it, the failure remembered, or books the listing as
/// failed.
pub proof fn lemma_failed_article_fails_listing(s: State, e: EventModel)
    requires
        s.mode == Mode::Retry,
        s.in_listing,
        s.phase == Phase::Article || s.phase == Phase::Write,
        s.item_failed || article_fails(s, e),
    ensures
        ({
            let t = step(s, e).0;
            if (t.phase == Phase::Article || t.phase == Phase::Write) && t.in_listing {
                t.item_failed && t.item == s.item && t.item_url == s.item_url
                    && t.succeeded == s.succeeded && t.newly_failed == s.newly_failed
            } else {
                booked_as_failed(s, t)
            }
        }),
{
    let failed = State { item_failed: true, ..s };
    lemma_failed_listing(failed);
    lemma_retry_entries_shape(failed);
    if s.phase == Phase::Write && e is Written {
        let t = stored(s);
        lemma_failed_listing(State { item_failed: true, ..t });
        lemma_retry_entries_shape(State { item_failed: true, ..t });
    }
}

/// *Mutual exclusion, at the start of a retry pass.* The pass starts with
/// ledger and failure queue apart if they were, unless it ends at once by
/// putting a URL back that the ledger has.
pub proof fn lemma_retry_starts_apart(s: State)
    requires
        wf(s),
        exclusive(s.ledger, s.failed),
        begin_retry(s).0.phase == Phase::Closing ==> forall|u: Seq<char>| #[trigger]
            begin_retry(s).0.newly_failed.contains(u) ==> !ledger_has(s.ledger, u),
    ensures
        wf(begin_retry(s).0),
        exclusive(begin_retry(s).0.ledger, begin_retry(s).0.failed),
{
    if s.failed.len() > 0 {
        let start = State {
            mode: Mode::Retry,
            force: false,
            queue: s.failed,
            item: 0,
            succeeded: Seq::empty(),
            newly_failed: Seq::empty(),
            grew: false,
            ..s
        };
        lemma_retry_items_shape(start);
        lemma_closing_keeps_apart(start, retry_items(start).0);
    }
}

/// A pass that reaches its closing flush from a state with ledger and
/// queue apart has them apart, if no URL that it puts back is in the
/// ledger.
proof fn lemma_closing_keeps_apart(s: State, t: State)
    requires
        s.failed.no_duplicates(),
        exclusive(s.ledger, s.failed),
        t.ledger == s.ledger,
        t.phase != Phase::Closing ==> t.failed == s.failed,
        t.phase == Phase::Closing ==> t.failed == queue_add_all(
            queue_remove_all(s.failed, t.succeeded),
            t.newly_failed,
        ),
        t.phase == Phase::Closing ==> forall|u: Seq<char>| #[trigger]
            t.newly_failed.contains(u) ==> !ledger_has(t.ledger, u),
    ensures
        exclusive(t.ledger, t.failed),
{
    if t.phase == Phase::Closing {
        lemma_queue_remove_all(s.failed, t.succeeded);
        lemma_queue_add_all(queue_remove_all(s.failed, t.succeeded), t.newly_failed);
        assert forall|u: Seq<char>| !(ledger_has(t.ledger, u) && #[trigger] t.failed.contains(
            u,
        )) by {
            if t.failed.contains(u) {
                if queue_remove_all(s.failed, t.succeeded).contains(u) {
                    assert(s.failed.contains(u));
                }
            }
        }
    }
}

/// *Mutual exclusion, during a retry pass.* Every move of a retry pass
/// keeps the ledger and the failure queue apart. The one move left out is
/// the one that closes the pass by putting back a URL that the ledger has
/// by then: a URL whose own retry failed and whose article was stored as
/// an entry of a retried listing.
pub proof fn lemma_retry_keeps_apart(s: State, e: EventModel)
    requires
        wf(s),
        s.mode == Mode::Retry,
        exclusive(s.ledger, s.failed),
        s.phase != Phase::Closing && step(s, e).0.phase == Phase::Closing ==> forall|
            u: Seq<char>,
        | #[trigger]
            step(s, e).0.newly_failed.contains(u) ==> !ledger_has(step(s, e).0.ledger, u),
    ensures
        wf(step(s, e).0),
        exclusive(step(s, e).0.ledger, step(s, e).0.failed),
{
    lemma_step_keeps_sound(s, e);
    let t = step(s, e).0;
    match s.phase {
        Phase::Listing => {
            match e {
                EventModel::Listing(page) => {
                    lemma_retry_entries_shape(State { entries: page.entries, cursor: 0, ..s });
                },
                _ => {
                    lemma_retry_items_shape(book_item(s, false));
                },
            }
            lemma_closing_keeps_apart(s, t);
        },
        Phase::Article => {
            match e {
                EventModel::Article(response) => {
                    if crate::article::record_of(response, s.topic_name, s.this_year) is None {
                        lemma_retry_settle_shape(s, false);
                        lemma_closing_keeps_apart(s, t);
                    }
                },
                _ => {
                    lemma_retry_settle_shape(s, false);
                    lemma_closing_keeps_apart(s, t);
                },
            }
        },
        Phase::Write => {
            match e {
                EventModel::Written => {
                    let w = stored(s);
                    lemma_store_keeps_apart(s.ledger, s.failed, s.target, s.record);
                    lemma_retry_settle_shape(w, true);
                    lemma_closing_keeps_apart(w, t);
                },
                _ => {
                    lemma_retry_settle_shape(s, false);
                    lemma_closing_keeps_apart(s, t);
                },
            }
        },
        _ => {},
    }
}

/// What settling an article keeps in a retry pass.
proof fn lemma_retry_settle_shape(s: State, ok: bool)
    requires
        s.mode == Mode::Retry,
    ensures
        settle(s, ok).0.ledger == s.ledger,
        settle(s, ok).0.phase != Phase::Closing ==> settle(s, ok).0.failed == s.failed,
        settle(s, ok).0.phase == Phase::Closing ==> settle(s, ok).0.failed == queue_add_all(
            queue_remove_all(s.failed, settle(s, ok).0.succeeded),
            settle(s, ok).0.newly_failed,
        ),
{
    if s.in_listing {
        lemma_retry_entries_shape(State { item_failed: s.item_failed || !ok, ..s });
    } else {
        lemma_retry_items_shape(book_item(s, ok));
    }
}

} // verus!
