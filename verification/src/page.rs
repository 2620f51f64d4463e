//! One page of a topic's article listing, as the API answers it.

use vstd::prelude::*;

verus! {

/// What the crawler reads of one listing entry, as plain sequences.
pub struct EntryModel {
    pub url: Seq<char>,
    pub published: Option<Seq<char>>,
}

/// One entry of a listing page.
#[derive(Debug, PartialEq, Eq)]
pub struct Content {
    /// Address of the article; may carry the site's host in front. Empty
    /// when the API gave none.
    pub url: String,
    /// Publication date in ISO form, when the API gave one.
    pub published: Option<String>,
}

/// Counters that come with a listing page.
#[derive(Debug, PartialEq, Eq)]
pub struct Pagination {
    /// Number of articles that the topic holds over all its pages.
    pub total_available_items: u32,
}

/// The listing proper: its counters and the entries of the page asked for.
#[derive(Debug, PartialEq, Eq)]
pub struct Auto {
    pub pagination: Pagination,
    pub content: Vec<Content>,
}

/// The answer to a listing request.
#[derive(Debug, PartialEq, Eq)]
pub struct Page {
    pub auto: Auto,
}

/// A listing page as plain values.
pub struct PageModel {
    pub total: nat,
    pub entries: Seq<EntryModel>,
}

impl View for Content {
    type V = EntryModel;

    open spec fn view(&self) -> EntryModel {
        EntryModel { url: self.url@, published: self.published.deep_view() }
    }
}

impl DeepView for Content {
    type V = EntryModel;

    open spec fn deep_view(&self) -> EntryModel {
        self@
    }
}

impl View for Page {
    type V = PageModel;

    open spec fn view(&self) -> PageModel {
        PageModel {
            total: self.auto.pagination.total_available_items as nat,
            entries: self.auto.content.deep_view(),
        }
    }
}

impl Clone for Content {
    fn clone(&self) -> (r: Self)
        ensures
            r == *self,
    {
        let published = match &self.published {
            Some(p) => Some(p.clone()),
            None => None,
        };
        Content { url: self.url.clone(), published }
    }
}

} // verus!
