//! The crawl engine as a transition system over plain values.
//!
//! A state holds the ledger, the failure queue and the place that a crawl
//! or a retry pass has reached. `step` takes the state and the outcome of
//! the action last asked for, and gives the next state with the next action.
//! Nothing here runs: the parser is proved to move as `step` says.

use vstd::prelude::*;
use crate::article::{record_of, storage_path_of, RecordModel, ResponseModel};
use crate::failures::{queue_add, queue_add_all, queue_remove, queue_remove_all};
use crate::fetcher::{fetch_request_of, ledger_after_store, queue_after_store};
use crate::ledger::{ledger_distinct, ledger_has, EntryRecord};
use crate::page::{EntryModel, PageModel};
use crate::urls::{
    is_listing, listing_url_of, page_count_of, retry_topic_of, short_url_of, topic_name_of,
};

verus! {

/// Which pass is under way.
#[derive(Clone, Copy, PartialEq, Eq, Structural, Debug)]
pub enum Mode {
    /// The walk over the topics' listings.
    Crawl,
    /// The replay of the failure queue.
    Retry,
}

/// What the engine waits for.
#[derive(Clone, Copy, PartialEq, Eq, Structural, Debug)]
pub enum Phase {
    /// No pass was started.
    Idle,
    /// A listing page was asked for.
    Listing,
    /// An article was asked for.
    Article,
    /// An article file is being written.
    Write,
    /// The flush after a listing page is being made.
    Flush,
    /// The flush that ends a pass is being made.
    Closing,
    /// The pass is over.
    Done,
    /// A flush failed; the pass was given up.
    Aborted,
}

/// What the engine asks its driver to do next, as plain values.
pub enum ActionModel {
    FetchListing { url: Seq<char> },
    FetchArticle { url: Seq<char> },
    WriteArticle { path: Seq<char>, content: Seq<char> },
    Flush { ledger: bool },
    NothingToRetry,
    Done,
    Abort,
}

/// What the driver reports of the action last asked for, as plain values.
pub enum EventModel {
    Listing(PageModel),
    Article(ResponseModel),
    Written,
    Failed,
}

/// The engine's state as plain values.
pub struct State {
    /// Whether errors are to be reported to the user.
    pub debug: bool,
    /// The current year; no article is filed under a later one.
    pub this_year: nat,
    /// The topics of a crawl, in order.
    pub topics: Seq<Seq<char>>,
    pub ledger: Seq<EntryRecord>,
    pub failed: Seq<Seq<char>>,
    pub mode: Mode,
    pub phase: Phase,
    /// Whether stored articles are fetched again.
    pub force: bool,
    /// Number of topics taken up so far.
    pub topic: nat,
    /// Path of the topic that is walked.
    pub topic_path: Seq<char>,
    /// Name under which fetched articles are stored.
    pub topic_name: Seq<char>,
    /// Number of the listing page that is walked.
    pub page: nat,
    /// Number of listing pages that the topic is walked for.
    pub pages: nat,
    /// Address of the listing page that is walked.
    pub listing: Seq<char>,
    /// Entries of the listing page that is walked.
    pub entries: Seq<EntryModel>,
    /// Number of entries taken up so far.
    pub cursor: nat,
    /// Whether the walk of the topic ends with this page.
    pub stop: bool,
    /// Whether the ledger got a new entry since it was last flushed.
    pub grew: bool,
    /// The failure queue as it stood when the retry pass began.
    pub queue: Seq<Seq<char>>,
    /// Number of queued URLs taken up so far.
    pub item: nat,
    /// The queued URL that is retried.
    pub item_url: Seq<char>,
    /// Whether the article in flight is an entry of a retried listing.
    pub in_listing: bool,
    /// Whether an article of the retried listing failed.
    pub item_failed: bool,
    /// The queued URLs whose retry succeeded.
    pub succeeded: Seq<Seq<char>>,
    /// The queued URLs whose retry failed.
    pub newly_failed: Seq<Seq<char>>,
    /// The URL that was handed to the fetcher.
    pub target: Seq<char>,
    /// The record of the article that is being written.
    pub record: RecordModel,
}

/// The state is sound: ledger and failure queue hold no URL twice, and the
/// counters lie within what they count.
pub open spec fn wf(s: State) -> bool {
    &&& ledger_distinct(s.ledger)
    &&& s.failed.no_duplicates()
    &&& s.cursor <= s.entries.len()
    &&& s.item <= s.queue.len()
    &&& s.topic <= s.topics.len()
}

/// The state of an engine that waits to be started.
pub open spec fn initial(
    debug: bool,
    this_year: nat,
    topics: Seq<Seq<char>>,
    ledger: Seq<EntryRecord>,
    failed: Seq<Seq<char>>,
) -> State {
    State {
        debug,
        this_year,
        topics,
        ledger,
        failed,
        mode: Mode::Crawl,
        phase: Phase::Idle,
        force: false,
        topic: 0,
        topic_path: Seq::empty(),
        topic_name: Seq::empty(),
        page: 0,
        pages: 0,
        listing: Seq::empty(),
        entries: Seq::empty(),
        cursor: 0,
        stop: false,
        grew: false,
        queue: Seq::empty(),
        item: 0,
        item_url: Seq::empty(),
        in_listing: false,
        item_failed: false,
        succeeded: Seq::empty(),
        newly_failed: Seq::empty(),
        target: Seq::empty(),
        record: RecordModel {
            article_id: Seq::empty(),
            year: Seq::empty(),
            topic: Seq::empty(),
        },
    }
}

/// Ends the walk of a listing page: the failure queue is flushed, and the
/// ledger when it grew.
pub open spec fn end_page(s: State) -> (State, ActionModel) {
    (State { phase: Phase::Flush, ..s }, ActionModel::Flush { ledger: s.grew })
}

/// Ends a pass: ledger and failure queue are flushed a last time.
pub open spec fn close(s: State) -> (State, ActionModel) {
    (State { phase: Phase::Closing, ..s }, ActionModel::Flush { ledger: true })
}

/// Takes up the next topic: asks for its first listing page, or ends the
/// crawl when no topic is left.
pub open spec fn start_topic(s: State) -> (State, ActionModel) {
    if s.topic >= s.topics.len() {
        close(s)
    } else {
        let path = s.topics[s.topic as int];
        let url = listing_url_of(path, 1);
        (
            State {
                phase: Phase::Listing,
                topic: s.topic + 1,
                topic_path: path,
                topic_name: topic_name_of(path),
                page: 1,
                pages: 0,
                listing: url,
                entries: Seq::empty(),
                cursor: 0,
                stop: false,
                ..s
            },
            ActionModel::FetchListing { url },
        )
    }
}

/// Asks for the article of `target`, which the state `s` has taken up.
pub open spec fn request_article(s: State, target: Seq<char>, url: Seq<char>) -> (
    State,
    ActionModel,
) {
    (State { phase: Phase::Article, target, ..s }, ActionModel::FetchArticle { url })
}

/// Walks the entries of the listing page from the cursor on, up to the
/// first article that has to be requested. Entries without a URL are
/// passed over. The first entry that the ledger has ends the walk of the
/// whole topic, unless the crawl is forced.
pub open spec fn walk_entries(s: State) -> (State, ActionModel)
    decreases s.entries.len() - s.cursor,
{
    if s.cursor >= s.entries.len() {
        end_page(s)
    } else {
        let candidate = short_url_of(s.entries[s.cursor as int].url);
        let next = State { cursor: s.cursor + 1, ..s };
        if candidate.len() == 0 {
            walk_entries(next)
        } else if !s.force && ledger_has(s.ledger, candidate) {
            end_page(State { stop: true, ..s })
        } else {
            match fetch_request_of(s.ledger, candidate, s.force) {
                None => walk_entries(State { failed: queue_remove(s.failed, candidate), ..next }),
                Some(url) => request_article(next, candidate, url),
            }
        }
    }
}

/// Reconciles the failure queue at the end of a retry pass: what succeeded
/// leaves it, what failed is put back, and the pass is closed.
pub open spec fn reconcile(s: State) -> (State, ActionModel) {
    close(
        State {
            failed: queue_add_all(queue_remove_all(s.failed, s.succeeded), s.newly_failed),
            ..s
        },
    )
}

/// Books the outcome of the queued URL that was retried.
pub open spec fn book_item(s: State, ok: bool) -> State {
    if ok {
        State { succeeded: s.succeeded.push(s.item_url), ..s }
    } else {
        State { newly_failed: s.newly_failed.push(s.item_url), ..s }
    }
}

/// Takes up the queued URLs from `item` on, up to the first that takes a
/// request. A URL that no topic can be read from counts as failed, an
/// article that the ledger has as succeeded.
pub open spec fn retry_items(s: State) -> (State, ActionModel)
    decreases s.queue.len() - s.item,
{
    if s.item >= s.queue.len() {
        reconcile(s)
    } else {
        let url = s.queue[s.item as int];
        let next = State { item: s.item + 1, item_url: url, ..s };
        match retry_topic_of(url) {
            None => retry_items(book_item(next, false)),
            Some(name) => {
                let named = State { topic_name: name, ..next };
                if is_listing(url) {
                    (
                        State {
                            phase: Phase::Listing,
                            in_listing: true,
                            item_failed: false,
                            entries: Seq::empty(),
                            cursor: 0,
                            ..named
                        },
                        ActionModel::FetchListing { url },
                    )
                } else {
                    match fetch_request_of(s.ledger, url, false) {
                        None => retry_items(book_item(named, true)),
                        Some(article) => request_article(
                            State { in_listing: false, ..named },
                            url,
                            article,
                        ),
                    }
                }
            },
        }
    }
}

/// Retries the entries of a queued listing from the cursor on, up to the
/// first article that has to be requested. When none is left the listing
/// is booked: as failed if one of its articles failed, else as succeeded.
pub open spec fn retry_entries(s: State) -> (State, ActionModel)
    decreases s.queue.len() - s.item, s.entries.len() - s.cursor,
{
    if s.cursor >= s.entries.len() {
        retry_items(book_item(s, !s.item_failed))
    } else {
        let candidate = s.entries[s.cursor as int].url;
        let next = State { cursor: s.cursor + 1, ..s };
        if candidate.len() == 0 {
            retry_entries(next)
        } else {
            match fetch_request_of(s.ledger, candidate, false) {
                None => retry_entries(next),
                Some(url) => request_article(next, candidate, url),
            }
        }
    }
}

/// Goes on after the article in flight was settled, with or without
/// success. A crawl books the outcome in the failure queue at once; a retry
/// pass books it for the queued URL.
pub open spec fn settle(s: State, ok: bool) -> (State, ActionModel) {
    match s.mode {
        Mode::Crawl => {
            let failed = if ok {
                queue_remove(s.failed, s.target)
            } else {
                queue_add(s.failed, s.target)
            };
            walk_entries(State { failed, ..s })
        },
        Mode::Retry => {
            if s.in_listing {
                retry_entries(State { item_failed: s.item_failed || !ok, ..s })
            } else {
                retry_items(book_item(s, ok))
            }
        },
    }
}

/// The state after the article in flight was written to storage.
pub open spec fn stored(s: State) -> State {
    State {
        ledger: ledger_after_store(s.ledger, s.target, s.record),
        failed: queue_after_store(s.failed, s.target),
        grew: s.grew || !ledger_has(s.ledger, short_url_of(s.target)),
        ..s
    }
}

/// What follows the answer to a listing request.
pub open spec fn on_listing(s: State, e: EventModel) -> (State, ActionModel) {
    match s.mode {
        Mode::Crawl => match e {
            EventModel::Listing(page) => {
                let pages = if s.page == 1 {
                    page_count_of(page.total)
                } else {
                    s.pages
                };
                if s.page > pages {
                    start_topic(State { pages, ..s })
                } else {
                    walk_entries(
                        State {
                            pages,
                            failed: queue_remove(s.failed, s.listing),
                            entries: page.entries,
                            cursor: 0,
                            ..s
                        },
                    )
                }
            },
            _ => end_page(
                State {
                    failed: queue_add(s.failed, s.listing),
                    entries: Seq::empty(),
                    cursor: 0,
                    ..s
                },
            ),
        },
        Mode::Retry => match e {
            EventModel::Listing(page) => retry_entries(
                State { entries: page.entries, cursor: 0, ..s },
            ),
            _ => retry_items(book_item(s, false)),
        },
    }
}

/// What follows the answer to an article request.
pub open spec fn on_article(s: State, e: EventModel) -> (State, ActionModel) {
    match e {
        EventModel::Article(response) => match record_of(response, s.topic_name, s.this_year) {
            Some(record) => (
                State { phase: Phase::Write, record, ..s },
                ActionModel::WriteArticle { path: storage_path_of(record), content: response.body },
            ),
            None => settle(s, false),
        },
        _ => settle(s, false),
    }
}

/// What follows the attempt to write an article file.
pub open spec fn on_write(s: State, e: EventModel) -> (State, ActionModel) {
    match e {
        EventModel::Written => settle(stored(s), true),
        _ => settle(s, false),
    }
}

/// What follows the flush after a listing page.
pub open spec fn on_flush(s: State, e: EventModel) -> (State, ActionModel) {
    match e {
        EventModel::Written => {
            let flushed = State { grew: false, ..s };
            if s.stop || s.page >= s.pages {
                start_topic(flushed)
            } else {
                let url = listing_url_of(s.topic_path, s.page + 1);
                (
                    State {
                        phase: Phase::Listing,
                        page: s.page + 1,
                        listing: url,
                        entries: Seq::empty(),
                        cursor: 0,
                        ..flushed
                    },
                    ActionModel::FetchListing { url },
                )
            }
        },
        _ => (State { phase: Phase::Aborted, ..s }, ActionModel::Abort),
    }
}

/// What follows the flush that ends a pass.
pub open spec fn on_closing(s: State, e: EventModel) -> (State, ActionModel) {
    match e {
        EventModel::Written => (State { phase: Phase::Done, grew: false, ..s }, ActionModel::Done),
        _ => (State { phase: Phase::Aborted, ..s }, ActionModel::Abort),
    }
}

/// The engine's move: the state and the action that follow when the driver
/// reports `e` of the action last asked for. Whatever is reported in place
/// of what was asked for counts as a failure of it. An engine that is not
/// under way stays as it is.
pub open spec fn step(s: State, e: EventModel) -> (State, ActionModel) {
    match s.phase {
        Phase::Idle => (s, ActionModel::Done),
        Phase::Done => (s, ActionModel::Done),
        Phase::Aborted => (s, ActionModel::Abort),
        Phase::Listing => on_listing(s, e),
        Phase::Article => on_article(s, e),
        Phase::Write => on_write(s, e),
        Phase::Flush => on_flush(s, e),
        Phase::Closing => on_closing(s, e),
    }
}

/// Starts a crawl over all topics.
pub open spec fn begin_crawl(s: State, force: bool) -> (State, ActionModel) {
    start_topic(State { mode: Mode::Crawl, force, topic: 0, stop: false, grew: false, ..s })
}

/// Starts a retry pass over the failure queue as it stands. With an empty
/// queue there is nothing to do, and nothing is changed or flushed.
pub open spec fn begin_retry(s: State) -> (State, ActionModel) {
    if s.failed.len() == 0 {
        (State { mode: Mode::Retry, phase: Phase::Done, ..s }, ActionModel::NothingToRetry)
    } else {
        retry_items(
            State {
                mode: Mode::Retry,
                force: false,
                queue: s.failed,
                item: 0,
                succeeded: Seq::empty(),
                newly_failed: Seq::empty(),
                grew: false,
                ..s
            },
        )
    }
}

} // verus!
