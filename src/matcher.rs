//! The ranking oracle: nucleo's fuzzy matcher over item titles. Items are
//! pushed by position, and the matcher hands positions back, best first.
use std::sync::Arc;
use vstd::prelude::*;

use crate::json::str_eq;

verus! {

#[verifier::external_type_specification]
#[verifier::external_body]
#[verifier::reject_recursive_types(T)]
pub struct ExNucleo<T: Sync + Send + 'static>(nucleo::Nucleo<T>);

#[verifier::external_type_specification]
#[verifier::external_body]
#[verifier::reject_recursive_types(T)]
pub struct ExInjector<T>(nucleo::Injector<T>);

/// Relies on nucleo::Nucleo::new: a matcher with the default configuration,
/// its own worker threads and one column.
#[verifier::external_body]
fn nucleo_new() -> (r: nucleo::Nucleo<usize>) {
    nucleo::Nucleo::new(nucleo::Config::DEFAULT, Arc::new(|| {}), None, 1)
}

/// Relies on nucleo::Nucleo::restart: drops all items, and the matches of the
/// snapshot.
#[verifier::external_body]
fn nucleo_restart(n: &mut nucleo::Nucleo<usize>) {
    n.restart(true)
}

/// Relies on nucleo::Nucleo::injector: a handle that adds items to this matcher.
#[verifier::external_body]
fn nucleo_injector(n: &nucleo::Nucleo<usize>) -> (r: nucleo::Injector<usize>) {
    n.injector()
}

/// Relies on nucleo::Injector::push: adds item `index`, matched on `title`.
#[verifier::external_body]
fn nucleo_push(inj: &nucleo::Injector<usize>, index: usize, title: &str) {
    inj.push(index, |_, cols| cols[0] = title.into());
}

/// Relies on nucleo's MultiPattern::reparse: the pattern of the only column,
/// with smart case and smart normalization.
#[verifier::external_body]
fn nucleo_reparse(n: &mut nucleo::Nucleo<usize>, query: &str, append: bool) {
    n.pattern.reparse(
        0,
        query,
        nucleo::pattern::CaseMatching::Smart,
        nucleo::pattern::Normalization::Smart,
        append,
    )
}

/// Relies on nucleo::Nucleo::tick with a 10 ms wait: whether the snapshot changed.
#[verifier::external_body]
fn nucleo_tick(n: &mut nucleo::Nucleo<usize>) -> (r: bool) {
    n.tick(10).changed
}

/// Relies on nucleo::Snapshot::matched_item_count: the number of matches.
#[verifier::external_body]
fn nucleo_matched_count(n: &nucleo::Nucleo<usize>) -> (r: u32) {
    n.snapshot().matched_item_count()
}

/// Relies on nucleo::Snapshot::get_matched_item: the position pushed with the
/// `k`-th best match, if there is one.
#[verifier::external_body]
fn nucleo_matched(n: &nucleo::Nucleo<usize>, k: u32) -> (r: Option<usize>) {
    n.snapshot().get_matched_item(k).map(|item| *item.data)
}

/// Fuzzy matching of item titles.
pub struct Matcher {
    nucleo: nucleo::Nucleo<usize>,
    last_query: String,
    count: usize,
}

impl Matcher {
    /// The query last set.
    pub closed spec fn query(&self) -> Seq<char> {
        self.last_query@
    }

    /// The number of items last set.
    pub closed spec fn item_count(&self) -> nat {
        self.count as nat
    }

    /// A matcher with no items and an empty query.
    pub fn new() -> (r: Matcher)
        ensures
            r.query().len() == 0,
            r.item_count() == 0,
    {
        Matcher { nucleo: nucleo_new(), last_query: String::new(), count: 0 }
    }

    /// Replaces the items by `titles`; item `i` is matched on `titles[i]`.
    pub fn set_items(&mut self, titles: &Vec<String>)
        ensures
            final(self).query() == old(self).query(),
            final(self).item_count() == titles@.len(),
    {
        nucleo_restart(&mut self.nucleo);
        let inj = nucleo_injector(&self.nucleo);
        let mut i: usize = 0;
        while i < titles.len()
            invariant
                i <= titles@.len(),
            decreases titles.len() - i,
        {
            nucleo_push(&inj, i, titles[i].as_str());
            i = i + 1;
        }
        self.count = titles.len();
    }

    /// Sets the query; a query that extends the last one is matched incrementally.
    pub fn update_query(&mut self, query: &str)
        ensures
            final(self).query() == query@,
            final(self).item_count() == old(self).item_count(),
    {
        if str_eq(query, self.last_query.as_str()) {
            return;
        }
        let n = self.last_query.as_str().unicode_len();
        let is_append = n > 0 && query.unicode_len() >= n && str_eq(
            query.substring_char(0, n),
            self.last_query.as_str(),
        );
        nucleo_reparse(&mut self.nucleo, query, is_append);
        self.last_query = query.to_owned();
    }

    /// Lets the matcher work for a moment; whether its results changed.
    pub fn tick(&mut self) -> (r: bool)
        ensures
            final(self).query() == old(self).query(),
            final(self).item_count() == old(self).item_count(),
    {
        nucleo_tick(&mut self.nucleo)
    }

    /// At most `max` positions of matching items, best first, each below the
    /// number of items.
    pub fn results(&self, max: usize) -> (r: Vec<usize>)
        ensures
            r@.len() <= max,
            forall|i: int| 0 <= i < r@.len() ==> r@[i] < self.item_count(),
    {
        let total = nucleo_matched_count(&self.nucleo);
        let mut out: Vec<usize> = Vec::new();
        let mut k: u32 = 0;
        while k < total && out.len() < max
            invariant
                out@.len() <= max,
                forall|i: int| 0 <= i < out@.len() ==> out@[i] < self.item_count(),
            decreases total - k,
        {
            match nucleo_matched(&self.nucleo, k) {
                Some(p) => {
                    if p < self.count {
                        out.push(p);
                    }
                },
                None => {},
            }
            k = k + 1;
        }
        out
    }

    /// Whether the query is empty (all items are shown).
    pub fn query_is_empty(&self) -> (r: bool)
        ensures
            r == (self.query().len() == 0),
    {
        self.last_query.as_str().unicode_len() == 0
    }
}

} // verus!
