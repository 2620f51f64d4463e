//! An article as the API answers it, the record that the ledger keeps of it,
//! and the rules that lead from the one to the other.

use vstd::prelude::*;
use vstd::string::StringExecFns;
use crate::text::{decimal, decimal_string, leading_number, parse_leading};

verus! {

/// The partition that holds the articles without a usable date.
pub const NO_DATE: &'static str = "nodate";

/// The directory under which everything is stored.
pub const DATA_DIR: &'static str = "data";

/// The earliest year that an article is filed under.
pub const FIRST_YEAR: u32 = 2004;

/// One article of an article response, as plain sequences.
pub struct ArticleModel {
    pub id: Seq<char>,
    pub published: Option<Seq<char>>,
    pub modified: Option<Seq<char>>,
}

/// An article response as plain sequences.
pub struct ResponseModel {
    pub content: Seq<ArticleModel>,
    pub body: Seq<char>,
}

/// A ledger record as plain sequences.
pub struct RecordModel {
    pub article_id: Seq<char>,
    pub year: Seq<char>,
    pub topic: Seq<char>,
}

/// What the crawler reads of one article.
#[derive(Debug, PartialEq, Eq)]
pub struct Article {
    /// The article's identifier, as text.
    pub id: String,
    /// Publication date in ISO form, when the API gave one.
    pub published: Option<String>,
    /// Date of the last change in ISO form, when the API gave one.
    pub modified: Option<String>,
}

/// The answer to an article request.
#[derive(Debug, PartialEq, Eq)]
pub struct ArticleResponse {
    /// The entries of the answer's content list, in order.
    pub content: Vec<Article>,
    /// The content list as it was fetched; this is what gets stored.
    pub body: String,
}

/// What the ledger records of a stored article.
#[derive(Debug, PartialEq, Eq)]
pub struct ArticleRecord {
    pub article_id: String,
    /// The year the article is filed under, or `nodate`.
    pub year: String,
    /// The storage name of the topic it was found under.
    pub topic: String,
}

impl View for Article {
    type V = ArticleModel;

    open spec fn view(&self) -> ArticleModel {
        ArticleModel {
            id: self.id@,
            published: self.published.deep_view(),
            modified: self.modified.deep_view(),
        }
    }
}

impl DeepView for Article {
    type V = ArticleModel;

    open spec fn deep_view(&self) -> ArticleModel {
        self@
    }
}

impl View for ArticleResponse {
    type V = ResponseModel;

    open spec fn view(&self) -> ResponseModel {
        ResponseModel { content: self.content.deep_view(), body: self.body@ }
    }
}

impl View for ArticleRecord {
    type V = RecordModel;

    open spec fn view(&self) -> RecordModel {
        RecordModel { article_id: self.article_id@, year: self.year@, topic: self.topic@ }
    }
}

impl DeepView for ArticleRecord {
    type V = RecordModel;

    open spec fn deep_view(&self) -> RecordModel {
        self@
    }
}

impl Clone for ArticleRecord {
    fn clone(&self) -> (r: Self)
        ensures
            r == *self,
    {
        ArticleRecord {
            article_id: self.article_id.clone(),
            year: self.year.clone(),
            topic: self.topic.clone(),
        }
    }
}

/// The date that files an article: the publication date when there is one,
/// else the date of the last change. An empty date counts as none.
pub open spec fn filing_date_of(article: ArticleModel) -> Option<Seq<char>> {
    if article.published is Some && article.published->0.len() > 0 {
        article.published
    } else if article.modified is Some && article.modified->0.len() > 0 {
        article.modified
    } else {
        None
    }
}

/// The partition of an article with the filing date `date`, in the year
/// `this_year`: the year that the date begins with when it lies between
/// `FIRST_YEAR` and `this_year`, else `nodate`. `None` when the date does
/// not begin with a number.
pub open spec fn year_bucket_of(date: Option<Seq<char>>, this_year: nat) -> Option<Seq<char>> {
    match date {
        None => Some(NO_DATE@),
        Some(d) => match leading_number(d, 4) {
            None => None,
            Some(year) => if FIRST_YEAR <= year <= this_year {
                Some(decimal(year))
            } else {
                Some(NO_DATE@)
            },
        },
    }
}

/// The record of the first article of `response`, found under `topic`.
/// `None` when the response holds no article or its date cannot be read.
pub open spec fn record_of(response: ResponseModel, topic: Seq<char>, this_year: nat) -> Option<
    RecordModel,
> {
    if response.content.len() == 0 {
        None
    } else {
        let first = response.content[0];
        match year_bucket_of(filing_date_of(first), this_year) {
            None => None,
            Some(year) => Some(RecordModel { article_id: first.id, year, topic }),
        }
    }
}

/// Where the article of `record` is stored.
pub open spec fn storage_path_of(record: RecordModel) -> Seq<char> {
    DATA_DIR@ + "/svt-"@ + record.year + seq!['/'] + record.topic + seq!['/'] + record.article_id
        + ".json"@
}

/// Picks the date that files `article`.
pub fn filing_date(article: &Article) -> (r: Option<&String>)
    ensures
        r.deep_view() == filing_date_of(article@),
{
    if let Some(p) = &article.published {
        if p.as_str().unicode_len() > 0 {
            return Some(p);
        }
    }
    if let Some(m) = &article.modified {
        if m.as_str().unicode_len() > 0 {
            return Some(m);
        }
    }
    None
}

/// Derives the partition of an article from its filing date.
pub fn year_bucket(date: Option<&String>, this_year: u32) -> (r: Option<String>)
    ensures
        r.deep_view() == year_bucket_of(date.deep_view(), this_year as nat),
{
    match date {
        None => Some(String::from_str(NO_DATE)),
        Some(d) => match parse_leading(d.as_str(), 4) {
            None => None,
            Some(year) => {
                if FIRST_YEAR <= year && year <= this_year {
                    Some(decimal_string(year))
                } else {
                    Some(String::from_str(NO_DATE))
                }
            },
        },
    }
}

/// Classifies an article response: the record to store, or `None` when the
/// response counts as a failure.
pub fn classify(response: &ArticleResponse, topic: &str, this_year: u32) -> (r: Option<
    ArticleRecord,
>)
    ensures
        r.deep_view() == record_of(response@, topic@, this_year as nat),
{
    if response.content.len() == 0 {
        return None;
    }
    let first = &response.content[0];
    match year_bucket(filing_date(first), this_year) {
        None => None,
        Some(year) => Some(
            ArticleRecord { article_id: first.id.clone(), year, topic: String::from_str(topic) },
        ),
    }
}

/// Whether `response` holds more than the one article that is used of it.
pub fn has_spare_entries(response: &ArticleResponse) -> (b: bool)
    ensures
        b == (response@.content.len() > 1),
{
    response.content.len() > 1
}

/// Builds the path under which the article of `record` is stored.
pub fn storage_path(record: &ArticleRecord) -> (r: String)
    ensures
        r@ == storage_path_of(record@),
{
    proof {
        reveal_strlit("/");
    }
    assert("/"@ =~= seq!['/']);
    let mut r = String::from_str(DATA_DIR);
    r.append("/svt-");
    r.append(record.year.as_str());
    r.append("/");
    r.append(record.topic.as_str());
    r.append("/");
    r.append(record.article_id.as_str());
    r.append(".json");
    r
}

} // verus!
