use svt_crawler::article::{
    classify, filing_date, has_spare_entries, storage_path, year_bucket, Article, ArticleRecord,
    ArticleResponse,
};
use svt_crawler::calendar::{year_of_day, year_of_seconds};
use svt_crawler::failures::FailureQueue;
use svt_crawler::fetcher::{fetch_request, record_stored};
use svt_crawler::ledger::Ledger;
use svt_crawler::text::{
    decimal_string, has_prefix, last_segment, parse_leading, same_text, segment, strip_prefix,
};
use svt_crawler::topics::topics;
use svt_crawler::urls::{
    article_url, is_listing_url, listing_url, page_count, retry_topic, short_url, topic_name,
};

fn article(id: &str, published: Option<&str>, modified: Option<&str>) -> Article {
    Article {
        id: id.to_string(),
        published: published.map(|s| s.to_string()),
        modified: modified.map(|s| s.to_string()),
    }
}

fn record(id: &str, year: &str, topic: &str) -> ArticleRecord {
    ArticleRecord { article_id: id.to_string(), year: year.to_string(), topic: topic.to_string() }
}

#[test]
fn decimal_string_writes_numbers() {
    assert_eq!(decimal_string(0), "0");
    assert_eq!(decimal_string(7), "7");
    assert_eq!(decimal_string(10), "10");
    assert_eq!(decimal_string(2021), "2021");
    assert_eq!(decimal_string(4294967295), "4294967295");
}

#[test]
fn parse_leading_reads_digits_only() {
    assert_eq!(parse_leading("2021-05-01T10:00:00+02:00", 4), Some(2021));
    assert_eq!(parse_leading("0999", 4), Some(999));
    assert_eq!(parse_leading("202", 4), Some(202));
    assert_eq!(parse_leading("", 4), None);
    assert_eq!(parse_leading("20x1-01-01", 4), None);
    assert_eq!(parse_leading("+202", 4), None);
    assert_eq!(parse_leading("١٩٩٠", 4), None);
}

#[test]
fn prefixes_are_found_and_stripped() {
    assert!(has_prefix("/nyheter/lokalt/ost", "/nyheter"));
    assert!(!has_prefix("/nyhete", "/nyheter"));
    assert!(has_prefix("abc", ""));
    assert_eq!(strip_prefix("https://www.svt.se/sport/a", "https://www.svt.se"), "/sport/a");
    assert_eq!(strip_prefix("/sport/a", "https://www.svt.se"), "/sport/a");
    assert_eq!(strip_prefix("räksmörgås", "räk"), "smörgås");
    assert!(same_text("åäö", "åäö"));
    assert!(!same_text("abc", "abd"));
    assert!(!same_text("abc", "ab"));
}

#[test]
fn segments_are_cut_at_slashes() {
    assert_eq!(segment("/sport/fotboll/x", 0), Some(String::new()));
    assert_eq!(segment("/sport/fotboll/x", 1), Some("sport".to_string()));
    assert_eq!(segment("/sport/fotboll/x", 3), Some("x".to_string()));
    assert_eq!(segment("/sport/fotboll/x", 4), None);
    assert_eq!(segment("/sport/", 2), Some(String::new()));
    assert_eq!(segment("", 0), Some(String::new()));
    assert_eq!(segment("", 1), None);
    assert_eq!(last_segment("nyheter/lokalt/stockholm"), "stockholm");
    assert_eq!(last_segment("sport"), "sport");
    assert_eq!(last_segment("sport/"), "");
}

#[test]
fn topic_names_are_last_segments() {
    assert_eq!(topic_name("nyheter/ekonomi"), "ekonomi");
    assert_eq!(topic_name("nyheter/lokalt/stockholm"), "stockholm");
    assert_eq!(topic_name("sport"), "sport");
}

#[test]
fn topic_list_is_fixed() {
    let all = topics();
    assert_eq!(all.len(), 32);
    assert_eq!(all[0], "nyheter/ekonomi");
    assert_eq!(all[7], "nyheter/utrikes");
    assert_eq!(all[8], "sport");
    assert_eq!(all[10], "kultur");
    assert_eq!(all[11], "nyheter/lokalt/blekinge");
    assert_eq!(all[21], "nyheter/lokalt/stockholm");
    assert_eq!(all[31], "nyheter/lokalt/ost");
}

#[test]
fn urls_are_built_from_their_parts() {
    assert_eq!(
        listing_url("sport", 1),
        "https://api.svt.se/nss-api/page/sport/?q=auto&limit=50&page=1"
    );
    assert_eq!(
        listing_url("nyheter/lokalt/ost", 12),
        "https://api.svt.se/nss-api/page/nyheter/lokalt/ost/?q=auto&limit=50&page=12"
    );
    assert_eq!(
        article_url("/nyheter/inrikes/en-artikel"),
        "https://api.svt.se/nss-api/page/nyheter/inrikes/en-artikel?q=articles"
    );
    assert!(is_listing_url("https://api.svt.se/nss-api/page/sport/?q=auto&limit=50&page=3"));
    assert!(!is_listing_url("/sport/fotboll/x"));
    assert_eq!(short_url("https://www.svt.se/sport/fotboll/x"), "/sport/fotboll/x");
    assert_eq!(short_url("/sport/fotboll/x"), "/sport/fotboll/x");
    assert_eq!(short_url("https://www.svt.se"), "");
}

#[test]
fn retry_topic_follows_the_three_tiers() {
    assert_eq!(retry_topic("/nyheter/lokalt/stockholm/en-artikel"), Some("stockholm".to_string()));
    assert_eq!(retry_topic("/nyheter/inrikes/en-artikel"), Some("inrikes".to_string()));
    assert_eq!(retry_topic("/sport/fotboll/en-artikel"), Some("sport".to_string()));
    assert_eq!(
        retry_topic("https://api.svt.se/nss-api/page/nyheter/lokalt/ost/?q=auto&limit=50&page=2"),
        Some("ost".to_string())
    );
    assert_eq!(
        retry_topic("https://api.svt.se/nss-api/page/nyheter/ekonomi/?q=auto&limit=50&page=2"),
        Some("ekonomi".to_string())
    );
    assert_eq!(
        retry_topic("https://api.svt.se/nss-api/page/kultur/?q=auto&limit=50&page=4"),
        Some("kultur".to_string())
    );
    assert_eq!(retry_topic("/nyheter"), None);
    assert_eq!(retry_topic("/nyheter/lokalt"), None);
    assert_eq!(retry_topic("sport"), None);
    assert_eq!(retry_topic(""), None);
}

#[test]
fn page_count_drops_the_partial_page() {
    assert_eq!(page_count(0), 0);
    assert_eq!(page_count(49), 0);
    assert_eq!(page_count(50), 1);
    assert_eq!(page_count(99), 1);
    assert_eq!(page_count(120), 2);
    assert_eq!(page_count(250), 5);
}

#[test]
fn year_bucket_files_by_year_or_nodate() {
    let d2021 = "2021-05-01T08:00:00+02:00".to_string();
    let d1990 = "1990-01-01T00:00:00+01:00".to_string();
    let d2004 = "2004-01-01".to_string();
    let d2003 = "2003-12-31".to_string();
    let d2023 = "2023-01-01".to_string();
    let bad = "i går".to_string();
    assert_eq!(year_bucket(Some(&d2021), 2022), Some("2021".to_string()));
    assert_eq!(year_bucket(Some(&d1990), 2022), Some("nodate".to_string()));
    assert_eq!(year_bucket(None, 2022), Some("nodate".to_string()));
    assert_eq!(year_bucket(Some(&d2004), 2022), Some("2004".to_string()));
    assert_eq!(year_bucket(Some(&d2003), 2022), Some("nodate".to_string()));
    assert_eq!(year_bucket(Some(&d2021), 2021), Some("2021".to_string()));
    assert_eq!(year_bucket(Some(&d2023), 2022), Some("nodate".to_string()));
    assert_eq!(year_bucket(Some(&bad), 2022), None);
}

#[test]
fn filing_date_prefers_publication() {
    let both = article("1", Some("2021-05-01"), Some("2022-06-01"));
    assert_eq!(filing_date(&both), Some(&"2021-05-01".to_string()));
    let only_modified = article("1", None, Some("2022-06-01"));
    assert_eq!(filing_date(&only_modified), Some(&"2022-06-01".to_string()));
    let empty_published = article("1", Some(""), Some("2022-06-01"));
    assert_eq!(filing_date(&empty_published), Some(&"2022-06-01".to_string()));
    let none = article("1", None, None);
    assert_eq!(filing_date(&none), None);
    let empties = article("1", Some(""), Some(""));
    assert_eq!(filing_date(&empties), None);
}

#[test]
fn classify_reads_the_first_article() {
    let empty = ArticleResponse { content: vec![], body: "[]".to_string() };
    assert_eq!(classify(&empty, "sport", 2022), None);
    assert!(!has_spare_entries(&empty));

    let one = ArticleResponse {
        content: vec![article("123", Some("2021-05-01T08:00:00"), None)],
        body: "[{}]".to_string(),
    };
    assert_eq!(classify(&one, "sport", 2022), Some(record("123", "2021", "sport")));
    assert!(!has_spare_entries(&one));

    let two = ArticleResponse {
        content: vec![
            article("7", None, Some("2019-02-03")),
            article("8", Some("2021-05-01"), None),
        ],
        body: "[{},{}]".to_string(),
    };
    assert_eq!(classify(&two, "inrikes", 2022), Some(record("7", "2019", "inrikes")));
    assert!(has_spare_entries(&two));

    let undated = ArticleResponse { content: vec![article("9", None, None)], body: "x".to_string() };
    assert_eq!(classify(&undated, "vader", 2022), Some(record("9", "nodate", "vader")));

    let old = ArticleResponse {
        content: vec![article("10", Some("1990-01-01"), Some("2020-01-01"))],
        body: "x".to_string(),
    };
    assert_eq!(classify(&old, "vader", 2022), Some(record("10", "nodate", "vader")));

    let unreadable = ArticleResponse {
        content: vec![article("11", Some("soon"), None)],
        body: "x".to_string(),
    };
    assert_eq!(classify(&unreadable, "vader", 2022), None);
}

#[test]
fn storage_path_is_built_from_the_record() {
    assert_eq!(storage_path(&record("123", "2021", "sport")), "data/svt-2021/sport/123.json");
    assert_eq!(
        storage_path(&record("28334881", "nodate", "stockholm")),
        "data/svt-nodate/stockholm/28334881.json"
    );
}

#[test]
fn ledger_keeps_one_record_per_url() {
    let mut ledger = Ledger::new();
    assert_eq!(ledger.len(), 0);
    assert!(!ledger.contains("/sport/a"));
    assert!(ledger.insert("/sport/a".to_string(), record("1", "2021", "sport")));
    assert!(ledger.insert("/sport/b".to_string(), record("2", "2020", "sport")));
    assert!(ledger.contains("/sport/a"));
    assert_eq!(ledger.get("/sport/b"), Some(&record("2", "2020", "sport")));
    assert_eq!(ledger.get("/sport/c"), None);
    assert!(!ledger.insert("/sport/a".to_string(), record("1", "nodate", "sport")));
    assert_eq!(ledger.len(), 2);
    assert_eq!(ledger.entry(0).short_url, "/sport/a");
    assert_eq!(ledger.entry(0).record, record("1", "nodate", "sport"));
    assert_eq!(ledger.entry(1).short_url, "/sport/b");
}

#[test]
fn failure_queue_is_an_ordered_set() {
    let mut queue = FailureQueue::new();
    assert!(queue.is_empty());
    queue.add("/a".to_string());
    queue.add("/b".to_string());
    queue.add("/a".to_string());
    queue.add("/c".to_string());
    assert_eq!(queue.to_vec(), vec!["/a".to_string(), "/b".to_string(), "/c".to_string()]);
    assert_eq!(queue.len(), 3);
    assert!(queue.contains("/b"));
    queue.remove("/b");
    queue.remove("/x");
    assert!(!queue.contains("/b"));
    assert_eq!(queue.to_vec(), vec!["/a".to_string(), "/c".to_string()]);
    assert_eq!(queue.get(1), "/c");
    queue.add("/b".to_string());
    assert_eq!(queue.to_vec(), vec!["/a".to_string(), "/c".to_string(), "/b".to_string()]);
}

#[test]
fn fetch_is_idempotent() {
    let mut ledger = Ledger::new();
    let mut failed = FailureQueue::new();
    failed.add("/sport/a".to_string());
    assert_eq!(
        fetch_request(&ledger, "/sport/a", false),
        Some("https://api.svt.se/nss-api/page/sport/a?q=articles".to_string())
    );
    assert!(record_stored(&mut ledger, &mut failed, "/sport/a", record("1", "2021", "sport")));
    assert_eq!(fetch_request(&ledger, "/sport/a", false), None);
    assert_eq!(fetch_request(&ledger, "https://www.svt.se/sport/a", false), None);
    assert!(failed.is_empty());
    assert_eq!(ledger.len(), 1);
    assert_eq!(
        fetch_request(&ledger, "/sport/a", true),
        Some("https://api.svt.se/nss-api/page/sport/a?q=articles".to_string())
    );
    assert!(!record_stored(&mut ledger, &mut failed, "/sport/a", record("1", "2021", "sport")));
    assert_eq!(ledger.len(), 1);
}

#[test]
fn fetch_takes_the_host_off_the_url() {
    let ledger = Ledger::new();
    assert_eq!(
        fetch_request(&ledger, "https://www.svt.se/kultur/x", false),
        Some("https://api.svt.se/nss-api/page/kultur/x?q=articles".to_string())
    );
}

#[test]
fn years_follow_the_calendar() {
    assert_eq!(year_of_day(0), 1970);
    assert_eq!(year_of_day(364), 1970);
    assert_eq!(year_of_day(365), 1971);
    assert_eq!(year_of_day(789), 1972);
    assert_eq!(year_of_day(10956), 1999);
    assert_eq!(year_of_day(10957), 2000);
    assert_eq!(year_of_day(11322), 2000);
    assert_eq!(year_of_day(11323), 2001);
    assert_eq!(year_of_day(19357), 2022);
    assert_eq!(year_of_seconds(0), 1970);
    assert_eq!(year_of_seconds(1_640_995_199), 2021);
    assert_eq!(year_of_seconds(1_640_995_200), 2022);
    assert_eq!(year_of_seconds(u64::MAX), year_of_day(u32::MAX));
}

#[test]
fn queued_listing_is_retried_under_its_topic_name() {
    for topic in topics() {
        let url = listing_url(&topic, 2);
        assert!(is_listing_url(&url));
        assert_eq!(retry_topic(&url), Some(topic_name(&topic)));
    }
}
