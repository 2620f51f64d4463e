use svt_crawler::article::{Article, ArticleRecord, ArticleResponse};
use svt_crawler::failures::FailureQueue;
use svt_crawler::ledger::Ledger;
use svt_crawler::model::Phase;
use svt_crawler::page::{Auto, Content, Page, Pagination};
use svt_crawler::parser::{Action, Event, SvtParser};

const LISTING: &str = "https://api.svt.se/nss-api/page/nyheter/lokalt/ost/?q=auto&limit=50&page=3";

fn entries(urls: &[&str]) -> Event {
    Event::Listing(Page {
        auto: Auto {
            pagination: Pagination { total_available_items: 500 },
            content: urls.iter().map(|u| Content { url: u.to_string(), published: None }).collect(),
        },
    })
}

fn article_event(id: &str) -> Event {
    Event::Article(ArticleResponse {
        content: vec![Article {
            id: id.to_string(),
            published: Some("2020-02-02".to_string()),
            modified: None,
        }],
        body: "[]".to_string(),
    })
}

fn record(id: &str, year: &str, topic: &str) -> ArticleRecord {
    ArticleRecord { article_id: id.to_string(), year: year.to_string(), topic: topic.to_string() }
}

fn fetch_action(short: &str) -> Action {
    Action::FetchArticle { url: format!("https://api.svt.se/nss-api/page{}?q=articles", short) }
}

fn queue_of(urls: &[&str]) -> FailureQueue {
    let mut queue = FailureQueue::new();
    for u in urls {
        queue.add(u.to_string());
    }
    queue
}

fn texts(urls: &[&str]) -> Vec<String> {
    urls.iter().map(|u| u.to_string()).collect()
}

#[test]
fn empty_queue_gives_nothing_to_retry() {
    let mut parser = SvtParser::new(true, 2022, Ledger::new(), FailureQueue::new());
    assert_eq!(parser.retry_failed(), Action::NothingToRetry);
    assert_eq!(parser.phase(), Phase::Done);
    assert_eq!(parser.step(Event::Written), Action::Done);
}

#[test]
fn listing_with_a_failed_article_stays_queued() {
    let mut parser = SvtParser::new(true, 2022, Ledger::new(), queue_of(&[LISTING]));
    assert_eq!(parser.retry_failed(), Action::FetchListing { url: LISTING.to_string() });
    let first = parser.step(entries(&["/nyheter/lokalt/ost/a", "/nyheter/lokalt/ost/b"]));
    assert_eq!(first, fetch_action("/nyheter/lokalt/ost/a"));
    assert_eq!(
        parser.step(article_event("1")),
        Action::WriteArticle { path: "data/svt-2020/ost/1.json".to_string(), content: "[]".to_string() }
    );
    assert_eq!(parser.step(Event::Written), fetch_action("/nyheter/lokalt/ost/b"));
    assert_eq!(parser.step(Event::Failed), Action::Flush { ledger: true });
    assert_eq!(parser.failed().to_vec(), texts(&[LISTING]));
    assert_eq!(parser.ledger().get("/nyheter/lokalt/ost/a"), Some(&record("1", "2020", "ost")));
    assert!(!parser.ledger().contains("/nyheter/lokalt/ost/b"));
    assert_eq!(parser.step(Event::Written), Action::Done);
}

#[test]
fn listing_whose_articles_all_succeed_leaves_the_queue() {
    let mut ledger = Ledger::new();
    ledger.insert("/nyheter/lokalt/ost/b".to_string(), record("2", "2019", "ost"));
    let mut parser = SvtParser::new(true, 2022, ledger, queue_of(&[LISTING]));
    parser.retry_failed();
    let first = parser.step(entries(&[
        "https://www.svt.se/nyheter/lokalt/ost/a",
        "",
        "/nyheter/lokalt/ost/b",
    ]));
    assert_eq!(first, fetch_action("/nyheter/lokalt/ost/a"));
    parser.step(article_event("1"));
    assert_eq!(parser.step(Event::Written), Action::Flush { ledger: true });
    assert!(parser.failed().is_empty());
    assert_eq!(parser.ledger().len(), 2);
    assert_eq!(parser.phase(), Phase::Closing);
    assert_eq!(parser.step(Event::Written), Action::Done);
}

#[test]
fn listing_that_cannot_be_fetched_stays_queued() {
    let mut parser = SvtParser::new(true, 2022, Ledger::new(), queue_of(&[LISTING, "/sport/x"]));
    parser.retry_failed();
    assert_eq!(parser.step(Event::Failed), fetch_action("/sport/x"));
    assert_eq!(
        parser.step(article_event("5")),
        Action::WriteArticle { path: "data/svt-2020/sport/5.json".to_string(), content: "[]".to_string() }
    );
    assert_eq!(parser.step(Event::Written), Action::Flush { ledger: true });
    assert_eq!(parser.failed().to_vec(), texts(&[LISTING]));
    assert_eq!(parser.ledger().get("/sport/x"), Some(&record("5", "2020", "sport")));
}

#[test]
fn articles_are_retried_under_their_topic() {
    let queue = queue_of(&["/nyheter/lokalt/skane/a", "/nyheter/inrikes/b", "/kultur/c"]);
    let mut parser = SvtParser::new(true, 2022, Ledger::new(), queue);
    assert_eq!(parser.retry_failed(), fetch_action("/nyheter/lokalt/skane/a"));
    assert_eq!(
        parser.step(article_event("1")),
        Action::WriteArticle { path: "data/svt-2020/skane/1.json".to_string(), content: "[]".to_string() }
    );
    assert_eq!(parser.step(Event::Written), fetch_action("/nyheter/inrikes/b"));
    assert_eq!(
        parser.step(article_event("2")),
        Action::WriteArticle { path: "data/svt-2020/inrikes/2.json".to_string(), content: "[]".to_string() }
    );
    assert_eq!(parser.step(Event::Written), fetch_action("/kultur/c"));
    assert_eq!(parser.step(Event::Failed), Action::Flush { ledger: true });
    assert_eq!(parser.failed().to_vec(), texts(&["/kultur/c"]));
    assert_eq!(parser.ledger().len(), 2);
}

#[test]
fn stored_article_is_retried_without_a_request() {
    let mut ledger = Ledger::new();
    ledger.insert("/sport/x".to_string(), record("5", "2020", "sport"));
    let mut parser = SvtParser::new(true, 2022, ledger, queue_of(&["/sport/x"]));
    assert_eq!(parser.retry_failed(), Action::Flush { ledger: true });
    assert!(parser.failed().is_empty());
}

#[test]
fn url_without_a_topic_stays_queued() {
    let mut parser = SvtParser::new(true, 2022, Ledger::new(), queue_of(&["sport", "/sport/x"]));
    assert_eq!(parser.retry_failed(), fetch_action("/sport/x"));
    assert_eq!(parser.step(Event::Failed), Action::Flush { ledger: true });
    assert_eq!(parser.failed().to_vec(), texts(&["sport", "/sport/x"]));
}

#[test]
fn failed_closing_flush_gives_the_run_up() {
    let mut parser = SvtParser::new(true, 2022, Ledger::new(), queue_of(&["sport"]));
    assert_eq!(parser.retry_failed(), Action::Flush { ledger: true });
    assert_eq!(parser.step(Event::Failed), Action::Abort);
    assert_eq!(parser.phase(), Phase::Aborted);
}

#[test]
fn retry_never_forces() {
    let mut ledger = Ledger::new();
    ledger.insert("/nyheter/lokalt/ost/a".to_string(), record("1", "2020", "ost"));
    let mut parser = SvtParser::new(true, 2022, ledger, queue_of(&[LISTING]));
    parser.crawl(true);
    assert_eq!(parser.retry_failed(), Action::FetchListing { url: LISTING.to_string() });
    assert_eq!(parser.step(entries(&["/nyheter/lokalt/ost/a"])), Action::Flush { ledger: true });
    assert!(parser.failed().is_empty());
}

#[test]
fn article_stored_under_a_listing_leaves_the_queue() {
    let queue = queue_of(&[LISTING, "/nyheter/lokalt/ost/a"]);
    let mut parser = SvtParser::new(true, 2022, Ledger::new(), queue);
    parser.retry_failed();
    assert_eq!(parser.step(entries(&["/nyheter/lokalt/ost/a"])), fetch_action("/nyheter/lokalt/ost/a"));
    parser.step(article_event("1"));
    // the queued article is satisfied by the ledger: no second request
    assert_eq!(parser.step(Event::Written), Action::Flush { ledger: true });
    assert!(parser.failed().is_empty());
    assert_eq!(parser.ledger().len(), 1);
}

#[test]
fn failed_article_that_a_listing_stores_is_put_back() {
    let queue = queue_of(&["/nyheter/lokalt/ost/a", LISTING]);
    let mut parser = SvtParser::new(true, 2022, Ledger::new(), queue);
    assert_eq!(parser.retry_failed(), fetch_action("/nyheter/lokalt/ost/a"));
    // its own retry fails
    assert_eq!(parser.step(Event::Failed), Action::FetchListing { url: LISTING.to_string() });
    // as an entry of the listing it is stored
    assert_eq!(parser.step(entries(&["/nyheter/lokalt/ost/a"])), fetch_action("/nyheter/lokalt/ost/a"));
    parser.step(article_event("1"));
    assert_eq!(parser.step(Event::Written), Action::Flush { ledger: true });
    assert!(parser.ledger().contains("/nyheter/lokalt/ost/a"));
    assert_eq!(parser.failed().to_vec(), texts(&["/nyheter/lokalt/ost/a"]));
}

#[test]
fn retry_pass_keeps_ledger_and_queue_apart() {
    let queue = queue_of(&[LISTING, "/sport/x", "/kultur/y"]);
    let mut parser = SvtParser::new(true, 2022, Ledger::new(), queue);
    let mut action = parser.retry_failed();
    loop {
        assert!(parser.failed().to_vec().iter().all(|u| !parser.ledger().contains(u)));
        action = match action {
            Action::FetchListing { .. } => {
                parser.step(entries(&["/nyheter/lokalt/ost/a", "/nyheter/lokalt/ost/b"]))
            }
            Action::FetchArticle { url } => {
                if url.contains("/ost/b") || url.contains("/kultur/y") {
                    parser.step(Event::Failed)
                } else {
                    parser.step(article_event("3"))
                }
            }
            Action::WriteArticle { .. } => parser.step(Event::Written),
            Action::Flush { ledger } => {
                assert!(ledger);
                parser.step(Event::Written)
            }
            Action::Done => break,
            other => panic!("unexpected action {:?}", other),
        };
    }
    assert_eq!(parser.failed().to_vec(), texts(&[LISTING, "/kultur/y"]));
    assert_eq!(parser.ledger().len(), 2);
    assert!(parser.ledger().contains("/sport/x"));
    assert!(parser.ledger().contains("/nyheter/lokalt/ost/a"));
}
