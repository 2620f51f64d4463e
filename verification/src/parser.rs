//! The crawl engine. It holds the ledger and the failure queue, and decides
//! at every point of a crawl or a retry pass what is done next. It performs
//! no request and writes no file itself: it hands out one `Action` at a
//! time and takes the outcome back as an `Event`.

use vstd::prelude::*;
use crate::article::{classify, storage_path, ArticleRecord, ArticleResponse};
use crate::failures::{queue_add_all, queue_remove_all, FailureQueue};
use crate::fetcher::{fetch_request, record_stored};
use crate::laws::{lemma_start_keeps_sound, lemma_step_keeps_sound};
use crate::ledger::Ledger;
use crate::model;
use crate::model::{ActionModel, EventModel, Mode, Phase, State};
use crate::page::{Content, Page};
use crate::topics::{topic_paths, topics};
use crate::urls::{is_listing_url, listing_url, page_count, retry_topic, short_url, topic_name};

verus! {

/// What the engine asks its driver to do next.
#[derive(Debug, PartialEq, Eq)]
pub enum Action {
    /// Request the listing page at `url`.
    FetchListing { url: String },
    /// Request the article at `url`.
    FetchArticle { url: String },
    /// Write `content` to the file at `path`, so that no partly written
    /// file can be taken for a whole one.
    WriteArticle { path: String, content: String },
    /// Write the failure queue to storage, and the ledger with it when
    /// `ledger` is set.
    Flush { ledger: bool },
    /// The failure queue is empty: tell the user so. The pass is over.
    NothingToRetry,
    /// The pass is over.
    Done,
    /// A flush failed: give the run up.
    Abort,
}

/// What the driver reports of the action last asked for.
#[derive(Debug, PartialEq, Eq)]
pub enum Event {
    /// The listing page that was requested.
    Listing(Page),
    /// The answer to the article request.
    Article(ArticleResponse),
    /// The file or the flush was written.
    Written,
    /// The action failed: the request, the reading of its answer, or the
    /// writing.
    Failed,
}

impl View for Action {
    type V = ActionModel;

    open spec fn view(&self) -> ActionModel {
        match self {
            Action::FetchListing { url } => ActionModel::FetchListing { url: url@ },
            Action::FetchArticle { url } => ActionModel::FetchArticle { url: url@ },
            Action::WriteArticle { path, content } => ActionModel::WriteArticle {
                path: path@,
                content: content@,
            },
            Action::Flush { ledger } => ActionModel::Flush { ledger: *ledger },
            Action::NothingToRetry => ActionModel::NothingToRetry,
            Action::Done => ActionModel::Done,
            Action::Abort => ActionModel::Abort,
        }
    }
}

impl View for Event {
    type V = EventModel;

    open spec fn view(&self) -> EventModel {
        match self {
            Event::Listing(page) => EventModel::Listing(page@),
            Event::Article(response) => EventModel::Article(response@),
            Event::Written => EventModel::Written,
            Event::Failed => EventModel::Failed,
        }
    }
}

/// The crawl engine: ledger, failure queue, and the place that the pass
/// under way has reached.
pub struct SvtParser {
    debug: bool,
    this_year: u32,
    topics: Vec<String>,
    ledger: Ledger,
    failed: FailureQueue,
    mode: Mode,
    phase: Phase,
    force: bool,
    topic: usize,
    topic_path: String,
    topic_name: String,
    page: u32,
    pages: u32,
    listing: String,
    entries: Vec<Content>,
    cursor: usize,
    stop: bool,
    grew: bool,
    queue: Vec<String>,
    item: usize,
    item_url: String,
    in_listing: bool,
    item_failed: bool,
    succeeded: Vec<String>,
    newly_failed: Vec<String>,
    target: String,
    record: ArticleRecord,
}

impl View for SvtParser {
    type V = State;

    closed spec fn view(&self) -> State {
        State {
            debug: self.debug,
            this_year: self.this_year as nat,
            topics: self.topics.deep_view(),
            ledger: self.ledger@,
            failed: self.failed@,
            mode: self.mode,
            phase: self.phase,
            force: self.force,
            topic: self.topic as nat,
            topic_path: self.topic_path@,
            topic_name: self.topic_name@,
            page: self.page as nat,
            pages: self.pages as nat,
            listing: self.listing@,
            entries: self.entries.deep_view(),
            cursor: self.cursor as nat,
            stop: self.stop,
            grew: self.grew,
            queue: self.queue.deep_view(),
            item: self.item as nat,
            item_url: self.item_url@,
            in_listing: self.in_listing,
            item_failed: self.item_failed,
            succeeded: self.succeeded.deep_view(),
            newly_failed: self.newly_failed.deep_view(),
            target: self.target@,
            record: self.record@,
        }
    }
}

proof fn lemma_take_step<A>(s: Seq<A>, i: int)
    requires
        0 <= i < s.len(),
    ensures
        s.take(i + 1).drop_last() == s.take(i),
        s.take(i + 1).last() == s[i],
        s.take(i + 1).len() == i + 1,
{
    assert(s.take(i + 1).drop_last() =~= s.take(i));
}

impl SvtParser {
    /// Whether the engine's state is sound. An engine that is made from a
    /// sound ledger and a sound failure queue is sound, and stays so.
    pub open spec fn wf(&self) -> bool {
        model::wf(self@)
    }

    /// An engine that waits to be started. `ledger` and `failed` are the
    /// state that earlier runs left; `this_year` is the current year.
    pub fn new(debug: bool, this_year: u32, ledger: Ledger, failed: FailureQueue) -> (r: SvtParser)
        ensures
            r@ == model::initial(debug, this_year as nat, topic_paths(), ledger@, failed@),
            ledger.wf() && failed.wf() ==> r.wf(),
    {
        let r = SvtParser {
            debug,
            this_year,
            topics: topics(),
            ledger,
            failed,
            mode: Mode::Crawl,
            phase: Phase::Idle,
            force: false,
            topic: 0,
            topic_path: String::new(),
            topic_name: String::new(),
            page: 0,
            pages: 0,
            listing: String::new(),
            entries: Vec::new(),
            cursor: 0,
            stop: false,
            grew: false,
            queue: Vec::new(),
            item: 0,
            item_url: String::new(),
            in_listing: false,
            item_failed: false,
            succeeded: Vec::new(),
            newly_failed: Vec::new(),
            target: String::new(),
            record: ArticleRecord {
                article_id: String::new(),
                year: String::new(),
                topic: String::new(),
            },
        };
        proof {
            let m = model::initial(debug, this_year as nat, topic_paths(), r.ledger@, r.failed@);
            assert(r@.entries =~= m.entries);
            assert(r@.queue =~= m.queue);
            assert(r@.succeeded =~= m.succeeded);
            assert(r@.newly_failed =~= m.newly_failed);
        }
        r
    }

    /// Whether errors are to be reported to the user.
    pub fn debug(&self) -> (b: bool)
        ensures
            b == self@.debug,
    {
        self.debug
    }

    /// The ledger as it stands.
    pub fn ledger(&self) -> (l: &Ledger)
        ensures
            l@ == self@.ledger,
    {
        &self.ledger
    }

    /// The failure queue as it stands.
    pub fn failed(&self) -> (q: &FailureQueue)
        ensures
            q@ == self@.failed,
    {
        &self.failed
    }

    /// What the engine waits for.
    pub fn phase(&self) -> (p: Phase)
        ensures
            p == self@.phase,
    {
        self.phase
    }

    /// Number of listing pages that the topic under way is walked for.
    pub fn pages(&self) -> (n: u32)
        ensures
            n == self@.pages,
    {
        self.pages
    }

    /// Starts a crawl over all topics and returns its first action. With
    /// `force`, articles that the ledger has are fetched again, and no topic
    /// is left early.
    pub fn crawl(&mut self, force: bool) -> (action: Action)
        ensures
            (final(self)@, action@) == model::begin_crawl(old(self)@, force),
            old(self).wf() ==> final(self).wf(),
    {
        proof {
            if self.wf() {
                lemma_start_keeps_sound(self@, force);
            }
        }
        self.mode = Mode::Crawl;
        self.force = force;
        self.topic = 0;
        self.stop = false;
        self.grew = false;
        self.start_topic()
    }

    /// Starts a retry pass over the failure queue and returns its first
    /// action.
    pub fn retry_failed(&mut self) -> (action: Action)
        ensures
            (final(self)@, action@) == model::begin_retry(old(self)@),
            old(self).wf() ==> final(self).wf(),
    {
        proof {
            if self.wf() {
                lemma_start_keeps_sound(self@, false);
            }
        }
        self.mode = Mode::Retry;
        if self.failed.is_empty() {
            self.phase = Phase::Done;
            return Action::NothingToRetry;
        }
        self.force = false;
        self.queue = self.failed.to_vec();
        self.item = 0;
        self.succeeded = Vec::new();
        self.newly_failed = Vec::new();
        self.grew = false;
        proof {
            assert(self@.succeeded =~= Seq::<Seq<char>>::empty());
            assert(self@.newly_failed =~= Seq::<Seq<char>>::empty());
        }
        self.retry_items()
    }

    /// Takes the outcome of the action last handed out and returns the
    /// next action.
    pub fn step(&mut self, event: Event) -> (action: Action)
        ensures
            (final(self)@, action@) == model::step(old(self)@, event@),
            old(self).wf() ==> final(self).wf(),
    {
        proof {
            if self.wf() {
                lemma_step_keeps_sound(self@, event@);
            }
        }
        match self.phase {
            Phase::Idle => Action::Done,
            Phase::Done => Action::Done,
            Phase::Aborted => Action::Abort,
            Phase::Listing => self.on_listing(event),
            Phase::Article => self.on_article(event),
            Phase::Write => self.on_write(event),
            Phase::Flush => self.on_flush(event),
            Phase::Closing => self.on_closing(event),
        }
    }

    fn end_page(&mut self) -> (action: Action)
        ensures
            (final(self)@, action@) == model::end_page(old(self)@),
    {
        self.phase = Phase::Flush;
        Action::Flush { ledger: self.grew }
    }

    fn close(&mut self) -> (action: Action)
        ensures
            (final(self)@, action@) == model::close(old(self)@),
    {
        self.phase = Phase::Closing;
        Action::Flush { ledger: true }
    }

    fn start_topic(&mut self) -> (action: Action)
        ensures
            (final(self)@, action@) == model::start_topic(old(self)@),
    {
        if self.topic >= self.topics.len() {
            return self.close();
        }
        let path = self.topics[self.topic].clone();
        let url = listing_url(path.as_str(), 1);
        self.phase = Phase::Listing;
        self.topic = self.topic + 1;
        self.topic_name = topic_name(path.as_str());
        self.topic_path = path;
        self.page = 1;
        self.pages = 0;
        self.listing = url.clone();
        self.entries = Vec::new();
        self.cursor = 0;
        self.stop = false;
        proof {
            assert(self@.entries =~= Seq::<crate::page::EntryModel>::empty());
            assert(old(self)@.topics[old(self)@.topic as int] == self.topic_path@);
        }
        Action::FetchListing { url }
    }

    fn request_article(&mut self, target: String, url: String) -> (action: Action)
        ensures
            (final(self)@, action@) == model::request_article(old(self)@, target@, url@),
    {
        self.phase = Phase::Article;
        self.target = target;
        Action::FetchArticle { url }
    }

    fn walk_entries(&mut self) -> (action: Action)
        ensures
            (final(self)@, action@) == model::walk_entries(old(self)@),
    {
        while self.cursor < self.entries.len()
            invariant
                model::walk_entries(self@) == model::walk_entries(old(self)@),
            decreases self.entries.len() - self.cursor,
        {
            let ghost before = self@;
            assert(before.entries[before.cursor as int] == self.entries[self.cursor as int]@);
            let candidate = short_url(self.entries[self.cursor].url.as_str());
            if candidate.as_str().is_empty() {
                self.cursor = self.cursor + 1;
            } else if !self.force && self.ledger.contains(candidate.as_str()) {
                self.stop = true;
                return self.end_page();
            } else {
                match fetch_request(&self.ledger, candidate.as_str(), self.force) {
                    None => {
                        self.failed.remove(candidate.as_str());
                        self.cursor = self.cursor + 1;
                    },
                    Some(url) => {
                        self.cursor = self.cursor + 1;
                        return self.request_article(candidate, url);
                    },
                }
            }
        }
        self.end_page()
    }

    fn reconcile(&mut self) -> (action: Action)
        ensures
            (final(self)@, action@) == model::reconcile(old(self)@),
    {
        let ghost start = self@;
        let mut i: usize = 0;
        while i < self.succeeded.len()
            invariant
                i <= self.succeeded.len(),
                self@ == (State {
                    failed: queue_remove_all(start.failed, start.succeeded.take(i as int)),
                    ..start
                }),
            decreases self.succeeded.len() - i,
        {
            proof {
                lemma_take_step(start.succeeded, i as int);
            }
            assert(self.succeeded.deep_view()[i as int] == self.succeeded[i as int]@);
            self.failed.remove(self.succeeded[i].as_str());
            i += 1;
        }
        assert(start.succeeded.take(i as int) =~= start.succeeded);
        let ghost middle = self@;
        let mut k: usize = 0;
        while k < self.newly_failed.len()
            invariant
                k <= self.newly_failed.len(),
                middle.newly_failed == start.newly_failed,
                self@ == (State {
                    failed: queue_add_all(middle.failed, start.newly_failed.take(k as int)),
                    ..middle
                }),
            decreases self.newly_failed.len() - k,
        {
            proof {
                lemma_take_step(start.newly_failed, k as int);
            }
            assert(self.newly_failed.deep_view()[k as int] == self.newly_failed[k as int]@);
            self.failed.add(self.newly_failed[k].clone());
            k += 1;
        }
        assert(start.newly_failed.take(k as int) =~= start.newly_failed);
        self.close()
    }

    fn book_item(&mut self, ok: bool)
        ensures
            final(self)@ == model::book_item(old(self)@, ok),
    {
        let ghost before = self@;
        if ok {
            self.succeeded.push(self.item_url.clone());
            assert(self@.succeeded =~= before.succeeded.push(before.item_url));
        } else {
            self.newly_failed.push(self.item_url.clone());
            assert(self@.newly_failed =~= before.newly_failed.push(before.item_url));
        }
    }

    fn retry_items(&mut self) -> (action: Action)
        ensures
            (final(self)@, action@) == model::retry_items(old(self)@),
    {
        while self.item < self.queue.len()
            invariant
                model::retry_items(self@) == model::retry_items(old(self)@),
            decreases self.queue.len() - self.item,
        {
            let ghost before = self@;
            assert(before.queue[before.item as int] == self.queue[self.item as int]@);
            let url = self.queue[self.item].clone();
            self.item = self.item + 1;
            self.item_url = url.clone();
            match retry_topic(url.as_str()) {
                None => {
                    self.book_item(false);
                },
                Some(name) => {
                    self.topic_name = name;
                    if is_listing_url(url.as_str()) {
                        self.phase = Phase::Listing;
                        self.in_listing = true;
                        self.item_failed = false;
                        self.entries = Vec::new();
                        self.cursor = 0;
                        assert(self@.entries =~= Seq::<crate::page::EntryModel>::empty());
                        return Action::FetchListing { url };
                    }
                    match fetch_request(&self.ledger, url.as_str(), false) {
                        None => {
                            self.book_item(true);
                        },
                        Some(article) => {
                            self.in_listing = false;
                            return self.request_article(url, article);
                        },
                    }
                },
            }
        }
        self.reconcile()
    }

    fn retry_entries(&mut self) -> (action: Action)
        ensures
            (final(self)@, action@) == model::retry_entries(old(self)@),
    {
        while self.cursor < self.entries.len()
            invariant
                model::retry_entries(self@) == model::retry_entries(old(self)@),
            decreases self.entries.len() - self.cursor,
        {
            let ghost before = self@;
            assert(before.entries[before.cursor as int] == self.entries[self.cursor as int]@);
            let candidate = self.entries[self.cursor].url.clone();
            self.cursor = self.cursor + 1;
            if !candidate.as_str().is_empty() {
                match fetch_request(&self.ledger, candidate.as_str(), false) {
                    None => {},
                    Some(url) => {
                        return self.request_article(candidate, url);
                    },
                }
            }
        }
        let ok = !self.item_failed;
        self.book_item(ok);
        self.retry_items()
    }

    fn settle(&mut self, ok: bool) -> (action: Action)
        ensures
            (final(self)@, action@) == model::settle(old(self)@, ok),
    {
        match self.mode {
            Mode::Crawl => {
                if ok {
                    self.failed.remove(self.target.as_str());
                } else {
                    self.failed.add(self.target.clone());
                }
                self.walk_entries()
            },
            Mode::Retry => {
                if self.in_listing {
                    self.item_failed = self.item_failed || !ok;
                    self.retry_entries()
                } else {
                    self.book_item(ok);
                    self.retry_items()
                }
            },
        }
    }

    fn store(&mut self)
        ensures
            final(self)@ == model::stored(old(self)@),
    {
        let grew = record_stored(
            &mut self.ledger,
            &mut self.failed,
            self.target.as_str(),
            self.record.clone(),
        );
        self.grew = self.grew || grew;
    }

    fn on_listing(&mut self, event: Event) -> (action: Action)
        ensures
            (final(self)@, action@) == model::on_listing(old(self)@, event@),
    {
        match self.mode {
            Mode::Crawl => match event {
                Event::Listing(page) => {
                    if self.page == 1 {
                        self.pages = page_count(page.auto.pagination.total_available_items);
                    }
                    if self.page > self.pages {
                        self.start_topic()
                    } else {
                        self.failed.remove(self.listing.as_str());
                        self.entries = page.auto.content;
                        self.cursor = 0;
                        self.walk_entries()
                    }
                },
                _ => {
                    self.failed.add(self.listing.clone());
                    self.entries = Vec::new();
                    self.cursor = 0;
                    assert(self@.entries =~= Seq::<crate::page::EntryModel>::empty());
                    self.end_page()
                },
            },
            Mode::Retry => match event {
                Event::Listing(page) => {
                    self.entries = page.auto.content;
                    self.cursor = 0;
                    self.retry_entries()
                },
                _ => {
                    self.book_item(false);
                    self.retry_items()
                },
            },
        }
    }

    fn on_article(&mut self, event: Event) -> (action: Action)
        ensures
            (final(self)@, action@) == model::on_article(old(self)@, event@),
    {
        match event {
            Event::Article(response) => match classify(
                &response,
                self.topic_name.as_str(),
                self.this_year,
            ) {
                Some(record) => {
                    let path = storage_path(&record);
                    self.phase = Phase::Write;
                    self.record = record;
                    Action::WriteArticle { path, content: response.body }
                },
                None => self.settle(false),
            },
            _ => self.settle(false),
        }
    }

    fn on_write(&mut self, event: Event) -> (action: Action)
        ensures
            (final(self)@, action@) == model::on_write(old(self)@, event@),
    {
        match event {
            Event::Written => {
                self.store();
                self.settle(true)
            },
            _ => self.settle(false),
        }
    }

    fn on_flush(&mut self, event: Event) -> (action: Action)
        ensures
            (final(self)@, action@) == model::on_flush(old(self)@, event@),
    {
        match event {
            Event::Written => {
                self.grew = false;
                if self.stop || self.page >= self.pages {
                    self.start_topic()
                } else {
                    let url = listing_url(self.topic_path.as_str(), self.page + 1);
                    self.phase = Phase::Listing;
                    self.page = self.page + 1;
                    self.listing = url.clone();
                    self.entries = Vec::new();
                    self.cursor = 0;
                    assert(self@.entries =~= Seq::<crate::page::EntryModel>::empty());
                    Action::FetchListing { url }
                }
            },
            _ => {
                self.phase = Phase::Aborted;
                Action::Abort
            },
        }
    }

    fn on_closing(&mut self, event: Event) -> (action: Action)
        ensures
            (final(self)@, action@) == model::on_closing(old(self)@, event@),
    {
        match event {
            Event::Written => {
                self.phase = Phase::Done;
                self.grew = false;
                Action::Done
            },
            _ => {
                self.phase = Phase::Aborted;
                Action::Abort
            },
        }
    }
}

} // verus!
