use dashmap::DashMap;
use std::collections::HashMap;
use vstd::prelude::*;

verus! {

#[verifier::external_type_specification]
#[verifier::external_body]
#[verifier::reject_recursive_types(K)]
#[verifier::reject_recursive_types(V)]
#[verifier::reject_recursive_types(S)]
pub struct ExDashMap<K, V, S>(DashMap<K, V, S>);

/// What a map of counters holds: each name, as its characters, with its value.
pub uninterp spec fn dash_contents(m: DashMap<String, i64>) -> Map<Seq<char>, i64>;

/// Relies on `DashMap::new`: a new map holds no entries.
#[verifier::external_body]
fn dash_new() -> (r: DashMap<String, i64>)
    ensures
        dash_contents(r) =~= Map::empty(),
{
    DashMap::new()
}

/// Relies on `DashMap::get`: the value stored under `key`, if there is one.
#[verifier::external_body]
fn dash_get(m: &DashMap<String, i64>, key: &str) -> (r: Option<i64>)
    ensures
        r == (if dash_contents(*m).contains_key(key@) {
            Some(dash_contents(*m)[key@])
        } else {
            None::<i64>
        }),
{
    m.get(key).map(|e| *e.value())
}

/// Relies on `DashMap::insert`: afterwards `key` holds `value`, whether or
/// not it held a value before, and no other entry changes.
#[verifier::external_body]
fn dash_insert(m: &mut DashMap<String, i64>, key: String, value: i64)
    ensures
        dash_contents(*final(m)) == dash_contents(*old(m)).insert(key@, value),
{
    m.insert(key, value);
}

/// Relies on `DashMap::iter`: it visits every entry of the map once, with
/// its key and its value, and the copies are collected into a new map.
#[verifier::external_body]
fn dash_snapshot(m: &DashMap<String, i64>) -> (r: HashMap<String, i64>)
    ensures
        snapshot_of(r@, dash_contents(*m)),
{
    m.iter().map(|e| (e.key().clone(), *e.value())).collect()
}

/// The value of counter `k` in `m`, where a name that was never touched
/// counts as zero.
pub open spec fn count_of(m: Map<Seq<char>, i64>, k: Seq<char>) -> int {
    if m.contains_key(k) {
        m[k] as int
    } else {
        0
    }
}

/// The counters after one increment of `k`: an untouched name starts at 1.
pub open spec fn after_inc(m: Map<Seq<char>, i64>, k: Seq<char>) -> Map<Seq<char>, i64> {
    m.insert(k, (count_of(m, k) + 1) as i64)
}

/// The counters after one decrement of `k`: an untouched name starts at -1.
pub open spec fn after_dec(m: Map<Seq<char>, i64>, k: Seq<char>) -> Map<Seq<char>, i64> {
    m.insert(k, (count_of(m, k) - 1) as i64)
}

/// `s` is a copy of the counters `m`: a name is in `s` exactly when its
/// characters name a counter of `m`, with that counter's value, and `s` has
/// as many entries as `m` has counters.
pub open spec fn snapshot_of(s: Map<String, i64>, m: Map<Seq<char>, i64>) -> bool {
    &&& s.len() == m.len()
    &&& forall|n: String| #[trigger] s.contains_key(n) <==> m.contains_key(n@)
    &&& forall|n: String| #[trigger] s.contains_key(n) ==> s[n] == m[n@]
    &&& forall|k: Seq<char>| #[trigger]
        m.contains_key(k) ==> exists|n: String| #[trigger] s.contains_key(n) && n@ == k
}

/// A store of named counters. A name that no call has touched has no
/// counter; the first increment creates it at 1 and the first decrement at
/// -1, and no counter is ever removed. Changes take `&mut self`, so each one
/// is applied whole before the next: threads that share a store hand it
/// round under a lock.
#[derive(Debug)]
pub struct Metrics {
    data: DashMap<String, i64>,
}

impl View for Metrics {
    type V = Map<Seq<char>, i64>;

    closed spec fn view(&self) -> Map<Seq<char>, i64> {
        dash_contents(self.data)
    }
}

impl Metrics {
    /// An empty store.
    pub fn new() -> (r: Metrics)
        ensures
            r@ == Map::<Seq<char>, i64>::empty(),
    {
        Metrics { data: dash_new() }
    }

    /// The value of the counter `key`, or `None` if no call has touched it.
    pub fn get(&self, key: &str) -> (r: Option<i64>)
        ensures
            r == (if self@.contains_key(key@) { Some(self@[key@]) } else { None::<i64> }),
    {
        dash_get(&self.data, key)
    }

    /// Adds one to the counter `key`; an untouched counter becomes 1.
    pub fn inc(&mut self, key: &str)
        requires
            count_of(old(self)@, key@) < i64::MAX,
        ensures
            final(self)@ == after_inc(old(self)@, key@),
    {
        let next: i64 = match dash_get(&self.data, key) {
            Some(v) => v + 1,
            None => 1,
        };
        dash_insert(&mut self.data, key.to_owned(), next);
    }

    /// Subtracts one from the counter `key`; an untouched counter becomes -1.
    pub fn dec(&mut self, key: &str)
        requires
            count_of(old(self)@, key@) > i64::MIN,
        ensures
            final(self)@ == after_dec(old(self)@, key@),
    {
        let next: i64 = match dash_get(&self.data, key) {
            Some(v) => v - 1,
            None => -1,
        };
        dash_insert(&mut self.data, key.to_owned(), next);
    }

    /// A copy of every counter, which later changes to the store leave as it is.
    pub fn snapshot(&self) -> (r: HashMap<String, i64>)
        ensures
            snapshot_of(r@, self@),
    {
        dash_snapshot(&self.data)
    }
}

impl Default for Metrics {
    fn default() -> (r: Metrics)
        ensures
            r@ == Map::<Seq<char>, i64>::empty(),
    {
        Metrics::new()
    }
}

} // verus!
