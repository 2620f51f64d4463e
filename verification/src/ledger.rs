//! The crawl ledger: which articles have been stored, and under what.

use vstd::prelude::*;
use crate::article::{ArticleRecord, RecordModel};
use crate::text::same_text;

verus! {

/// One ledger entry as plain sequences.
pub struct EntryRecord {
    pub short_url: Seq<char>,
    pub record: RecordModel,
}

/// The URLs that `ledger` speaks of, in its order.
pub open spec fn ledger_keys(ledger: Seq<EntryRecord>) -> Seq<Seq<char>> {
    Seq::new(ledger.len(), |i: int| ledger[i].short_url)
}

/// Whether `ledger` holds an entry for `url`.
pub open spec fn ledger_has(ledger: Seq<EntryRecord>, url: Seq<char>) -> bool {
    ledger_keys(ledger).contains(url)
}

/// The record that `ledger` holds for `url`.
pub open spec fn ledger_get(ledger: Seq<EntryRecord>, url: Seq<char>) -> Option<RecordModel> {
    match ledger_keys(ledger).index_of_first(url) {
        Some(i) => Some(ledger[i].record),
        None => None,
    }
}

/// No two entries of `ledger` speak of the same URL.
pub open spec fn ledger_distinct(ledger: Seq<EntryRecord>) -> bool {
    ledger_keys(ledger).no_duplicates()
}

/// `ledger` after `record` was entered for `url`: the entry for `url` is
/// replaced where it stands, a new one is put at the end.
pub open spec fn ledger_put(ledger: Seq<EntryRecord>, url: Seq<char>, record: RecordModel) -> Seq<
    EntryRecord,
> {
    let entry = EntryRecord { short_url: url, record };
    match ledger_keys(ledger).index_of_first(url) {
        Some(i) => ledger.update(i, entry),
        None => ledger.push(entry),
    }
}

/// What entering a record does to a ledger: afterwards it holds the record
/// for the URL, holds a URL exactly if it is that one or was held before,
/// keeps every other record, and is without repetitions if it was.
pub proof fn lemma_ledger_put(ledger: Seq<EntryRecord>, url: Seq<char>, record: RecordModel)
    ensures
        ledger_has(ledger_put(ledger, url, record), url),
        ledger_get(ledger_put(ledger, url, record), url) == Some(record),
        forall|other: Seq<char>| #[trigger]
            ledger_has(ledger_put(ledger, url, record), other) <==> (other == url || ledger_has(
                ledger,
                other,
            )),
        forall|other: Seq<char>|
            other != url ==> #[trigger] ledger_get(ledger_put(ledger, url, record), other)
                == ledger_get(ledger, other),
        ledger_distinct(ledger) ==> ledger_distinct(ledger_put(ledger, url, record)),
        ledger_put(ledger, url, record).len() == ledger.len() + (if ledger_has(ledger, url) {
            0int
        } else {
            1int
        }),
{
    let keys = ledger_keys(ledger);
    let after = ledger_put(ledger, url, record);
    let keys2 = ledger_keys(after);
    keys.index_of_first_ensures(url);
    keys2.index_of_first_ensures(url);
    match keys.index_of_first(url) {
        Some(i) => {
            assert(keys2 =~= keys);
            assert(after[i].record == record);
            assert forall|other: Seq<char>| other != url implies #[trigger] ledger_get(after, other)
                == ledger_get(ledger, other) by {
                keys.index_of_first_ensures(other);
            }
        },
        None => {
            assert(keys2 =~= keys.push(url));
            assert(keys2[keys.len() as int] == url);
            assert(keys2.contains(url));
            let k = keys2.index_of_first(url)->0;
            assert(k == keys.len()) by {
                if k < keys.len() {
                    assert(keys[k] == url);
                }
            }
            assert forall|other: Seq<char>| ledger_has(ledger, other) implies #[trigger] ledger_has(
                after,
                other,
            ) by {
                let j = choose|j: int| 0 <= j < keys.len() && keys[j] == other;
                assert(keys2[j] == other);
            }
            assert forall|other: Seq<char>| other != url implies #[trigger] ledger_get(after, other)
                == ledger_get(ledger, other) by {
                keys.index_of_first_ensures(other);
                keys2.index_of_first_ensures(other);
                match keys.index_of_first(other) {
                    Some(j) => {
                        assert(keys2[j] == other);
                        let j2 = keys2.index_of_first(other)->0;
                        if j2 < j {
                            assert(keys[j2] == other);
                        }
                    },
                    None => {
                        if keys2.contains(other) {
                            let j2 = keys2.index_of_first(other)->0;
                            assert(j2 < keys.len());
                            assert(keys[j2] == other);
                        }
                    },
                }
            }
        },
    }
}

/// One entry of the ledger.
#[derive(Debug, PartialEq, Eq)]
pub struct LedgerEntry {
    pub short_url: String,
    pub record: ArticleRecord,
}

impl View for LedgerEntry {
    type V = EntryRecord;

    open spec fn view(&self) -> EntryRecord {
        EntryRecord { short_url: self.short_url@, record: self.record@ }
    }
}

impl DeepView for LedgerEntry {
    type V = EntryRecord;

    open spec fn deep_view(&self) -> EntryRecord {
        self@
    }
}

/// The record of the articles that were stored, by short URL, in the order
/// in which they were first stored.
pub struct Ledger {
    entries: Vec<LedgerEntry>,
}

impl View for Ledger {
    type V = Seq<EntryRecord>;

    closed spec fn view(&self) -> Seq<EntryRecord> {
        self.entries.deep_view()
    }
}

impl Ledger {
    /// Whether no two entries speak of the same URL. Every ledger that this
    /// module hands out is such.
    pub open spec fn wf(&self) -> bool {
        ledger_distinct(self@)
    }

    /// A ledger without entries.
    pub fn new() -> (r: Ledger)
        ensures
            r@ == Seq::<EntryRecord>::empty(),
            r.wf(),
    {
        let r = Ledger { entries: Vec::new() };
        assert(r@ =~= Seq::<EntryRecord>::empty());
        r
    }

    /// Number of entries.
    pub fn len(&self) -> (n: usize)
        ensures
            n == self@.len(),
    {
        self.entries.len()
    }

    /// The entry number `i`, in the order of first storage.
    pub fn entry(&self, i: usize) -> (e: &LedgerEntry)
        requires
            i < self@.len(),
        ensures
            e@ == self@[i as int],
    {
        &self.entries[i]
    }

    /// Where the entry for `url` stands, if there is one.
    fn position(&self, url: &str) -> (r: Option<usize>)
        ensures
            match r {
                Some(i) => i < self@.len() && ledger_keys(self@).index_of_first(url@) == Some(
                    i as int,
                ),
                None => ledger_keys(self@).index_of_first(url@) is None,
            },
            r is Some <==> ledger_has(self@, url@),
    {
        let ghost keys = ledger_keys(self@);
        let mut i: usize = 0;
        while i < self.entries.len()
            invariant
                i <= self.entries.len(),
                keys == ledger_keys(self@),
                forall|j: int| 0 <= j < i ==> keys[j] != url@,
            decreases self.entries.len() - i,
        {
            if same_text(self.entries[i].short_url.as_str(), url) {
                proof {
                    keys.index_of_first_ensures(url@);
                    assert(keys[i as int] == url@);
                }
                return Some(i);
            }
            i += 1;
        }
        proof {
            keys.index_of_first_ensures(url@);
        }
        None
    }

    /// Whether an article was stored under `url`.
    pub fn contains(&self, url: &str) -> (b: bool)
        ensures
            b == ledger_has(self@, url@),
    {
        self.position(url).is_some()
    }

    /// The record stored under `url`.
    pub fn get(&self, url: &str) -> (r: Option<&ArticleRecord>)
        ensures
            r.deep_view() == ledger_get(self@, url@),
    {
        match self.position(url) {
            Some(i) => {
                let e = &self.entries[i];
                assert(self@[i as int].record == e.record@);
                Some(&e.record)
            },
            None => None,
        }
    }

    /// Enters `record` for `url`. Returns whether the ledger grew by it.
    pub fn insert(&mut self, url: String, record: ArticleRecord) -> (grew: bool)
        ensures
            final(self)@ == ledger_put(old(self)@, url@, record@),
            grew == !ledger_has(old(self)@, url@),
            old(self).wf() ==> final(self).wf(),
    {
        let found = self.position(url.as_str());
        let ghost before = self@;
        let ghost entry = EntryRecord { short_url: url@, record: record@ };
        proof {
            lemma_ledger_put(before, url@, record@);
        }
        match found {
            Some(i) => {
                self.entries.set(i, LedgerEntry { short_url: url, record });
                assert(self@ =~= before.update(i as int, entry));
                false
            },
            None => {
                self.entries.push(LedgerEntry { short_url: url, record });
                assert(self@ =~= before.push(entry));
                true
            },
        }
    }
}

} // verus!
