//! The failure queue: the URLs whose last attempt did not succeed, in the
//! order in which they failed, each at most once.

use vstd::prelude::*;
use crate::text::same_text;

verus! {

/// `queue` with `url` put at its end, unless it holds `url` already.
pub open spec fn queue_add(queue: Seq<Seq<char>>, url: Seq<char>) -> Seq<Seq<char>> {
    if queue.contains(url) {
        queue
    } else {
        queue.push(url)
    }
}

/// `queue` without `url`; the others keep their order.
pub open spec fn queue_remove(queue: Seq<Seq<char>>, url: Seq<char>) -> Seq<Seq<char>> {
    queue.remove_value(url)
}

/// `queue` without each of `urls`.
pub open spec fn queue_remove_all(queue: Seq<Seq<char>>, urls: Seq<Seq<char>>) -> Seq<Seq<char>>
    decreases urls.len(),
{
    if urls.len() == 0 {
        queue
    } else {
        queue_remove(queue_remove_all(queue, urls.drop_last()), urls.last())
    }
}

/// `queue` with each of `urls` added, in their order.
pub open spec fn queue_add_all(queue: Seq<Seq<char>>, urls: Seq<Seq<char>>) -> Seq<Seq<char>>
    decreases urls.len(),
{
    if urls.len() == 0 {
        queue
    } else {
        queue_add(queue_add_all(queue, urls.drop_last()), urls.last())
    }
}

/// Removing a URL from a queue without repetitions leaves a queue without
/// repetitions that holds all the others and not the URL itself.
pub proof fn lemma_queue_remove(queue: Seq<Seq<char>>, url: Seq<char>)
    requires
        queue.no_duplicates(),
    ensures
        queue_remove(queue, url).no_duplicates(),
        !queue_remove(queue, url).contains(url),
        forall|other: Seq<char>|
            other != url ==> (#[trigger] queue_remove(queue, url).contains(other)
                <==> queue.contains(other)),
        forall|other: Seq<char>| #[trigger]
            queue_remove(queue, url).contains(other) ==> queue.contains(other),
{
    queue.index_of_first_ensures(url);
    let after = queue_remove(queue, url);
    match queue.index_of_first(url) {
        Some(i) => {
            queue.remove_ensures(i);
            assert forall|a: int, b: int| 0 <= a < after.len() && 0 <= b < after.len() && a != b
                implies after[a] != after[b] by {
                let a0 = if a < i { a } else { a + 1 };
                let b0 = if b < i { b } else { b + 1 };
                assert(after[a] == queue[a0]);
                assert(after[b] == queue[b0]);
            }
            assert forall|k: int| 0 <= k < after.len() implies after[k] != url by {
                let k0 = if k < i { k } else { k + 1 };
                assert(after[k] == queue[k0]);
            }
            assert forall|other: Seq<char>| other != url && queue.contains(other)
                implies #[trigger] after.contains(other) by {
                let k = choose|k: int| 0 <= k < queue.len() && queue[k] == other;
                let k1 = if k < i { k } else { k - 1 };
                assert(after[k1] == other);
            }
            assert forall|other: Seq<char>| #[trigger] after.contains(other)
                implies queue.contains(other) by {
                let k = choose|k: int| 0 <= k < after.len() && after[k] == other;
                let k0 = if k < i { k } else { k + 1 };
                assert(queue[k0] == other);
            }
        },
        None => {},
    }
}

/// Adding a URL to a queue without repetitions leaves a queue without
/// repetitions that holds the URL and what it held before.
pub proof fn lemma_queue_add(queue: Seq<Seq<char>>, url: Seq<char>)
    requires
        queue.no_duplicates(),
    ensures
        queue_add(queue, url).no_duplicates(),
        queue_add(queue, url).contains(url),
        forall|other: Seq<char>| #[trigger]
            queue_add(queue, url).contains(other) <==> (other == url || queue.contains(other)),
{
    let after = queue_add(queue, url);
    if !queue.contains(url) {
        assert(after[queue.len() as int] == url);
        assert forall|other: Seq<char>| queue.contains(other) implies #[trigger] after.contains(
            other,
        ) by {
            let k = choose|k: int| 0 <= k < queue.len() && queue[k] == other;
            assert(after[k] == other);
        }
    }
}

/// The URLs that wait for another attempt.
pub struct FailureQueue {
    urls: Vec<String>,
}

impl View for FailureQueue {
    type V = Seq<Seq<char>>;

    closed spec fn view(&self) -> Seq<Seq<char>> {
        self.urls.deep_view()
    }
}

impl FailureQueue {
    /// Whether no URL stands in the queue twice. Every queue that this
    /// module hands out is such.
    pub open spec fn wf(&self) -> bool {
        self@.no_duplicates()
    }

    /// A queue that holds nothing.
    pub fn new() -> (r: FailureQueue)
        ensures
            r@ == Seq::<Seq<char>>::empty(),
            r.wf(),
    {
        let r = FailureQueue { urls: Vec::new() };
        assert(r@ =~= Seq::<Seq<char>>::empty());
        r
    }

    /// Number of URLs in the queue.
    pub fn len(&self) -> (n: usize)
        ensures
            n == self@.len(),
    {
        self.urls.len()
    }

    /// Whether the queue holds nothing.
    pub fn is_empty(&self) -> (b: bool)
        ensures
            b == (self@.len() == 0),
    {
        self.urls.len() == 0
    }

    /// The URL number `i` of the queue.
    pub fn get(&self, i: usize) -> (url: &String)
        requires
            i < self@.len(),
        ensures
            url@ == self@[i as int],
    {
        &self.urls[i]
    }

    /// Where `url` first stands in the queue.
    fn position(&self, url: &str) -> (r: Option<usize>)
        ensures
            match r {
                Some(i) => i < self@.len() && self@.index_of_first(url@) == Some(i as int),
                None => !self@.contains(url@),
            },
    {
        let mut i: usize = 0;
        while i < self.urls.len()
            invariant
                i <= self.urls.len(),
                forall|j: int| 0 <= j < i ==> self@[j] != url@,
            decreases self.urls.len() - i,
        {
            if same_text(self.urls[i].as_str(), url) {
                proof {
                    self@.index_of_first_ensures(url@);
                    assert(self@[i as int] == url@);
                }
                return Some(i);
            }
            i += 1;
        }
        None
    }

    /// Whether `url` is in the queue.
    pub fn contains(&self, url: &str) -> (b: bool)
        ensures
            b == self@.contains(url@),
    {
        match self.position(url) {
            Some(i) => {
                proof {
                    self@.index_of_first_ensures(url@);
                }
                true
            },
            None => false,
        }
    }

    /// Puts `url` at the end of the queue, unless the queue holds it.
    pub fn add(&mut self, url: String)
        ensures
            final(self)@ == queue_add(old(self)@, url@),
            old(self).wf() ==> final(self).wf(),
    {
        let ghost before = self@;
        if !self.contains(url.as_str()) {
            let ghost text = url@;
            self.urls.push(url);
            assert(self@ =~= before.push(text));
        }
        proof {
            if before.no_duplicates() {
                lemma_queue_add(before, url@);
            }
        }
    }

    /// Takes `url` out of the queue, if it is there.
    pub fn remove(&mut self, url: &str)
        ensures
            final(self)@ == queue_remove(old(self)@, url@),
            old(self).wf() ==> final(self).wf(),
    {
        let ghost before = self@;
        match self.position(url) {
            Some(i) => {
                self.urls.remove(i);
                assert(self@ =~= before.remove(i as int));
            },
            None => {
                proof {
                    before.index_of_first_ensures(url@);
                }
            },
        }
        proof {
            if before.no_duplicates() {
                lemma_queue_remove(before, url@);
            }
        }
    }

    /// The URLs of the queue, in order.
    pub fn to_vec(&self) -> (r: Vec<String>)
        ensures
            r.deep_view() == self@,
    {
        let r = self.urls.clone();
        assert(r.deep_view() =~= self.urls.deep_view());
        r
    }
}

} // verus!
