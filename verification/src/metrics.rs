//! Named counters that threads share and bump without locking.

use std::sync::atomic::{AtomicI64, Ordering};
use std::sync::Arc;
use vstd::prelude::*;
use vstd::string::*;

verus! {

/// Why a counter could not be bumped.
#[derive(Debug)]
pub enum MetricsError {
    /// No counter has the name `key`.
    KeyNotFound { key: String },
}

/// One named counter.
#[derive(Debug)]
struct Counter {
    name: String,
    count: AtomicI64,
}

/// A fixed set of named counters behind a shared pointer. Clones share the
/// counters.
#[derive(Debug)]
pub struct AmapMetrics {
    data: Arc<Vec<Counter>>,
}

/// `Arc::clone` makes another pointer to the same allocation: the two
/// pointers hold the same value.
#[verifier::external_body]
fn share<T>(pointer: &Arc<T>) -> (other: Arc<T>)
    ensures
        other == *pointer,
{
    Arc::clone(pointer)
}

/// Adds one to `counter`.
fn bump(counter: &AtomicI64) {
    counter.fetch_add(1, Ordering::Relaxed);
}

/// Reads `counter`.
fn read(counter: &AtomicI64) -> i64 {
    counter.load(Ordering::Relaxed)
}

/// The names of `counters`, in order.
spec fn names_of(counters: Seq<Counter>) -> Seq<Seq<char>> {
    Seq::new(counters.len(), |i: int| counters[i].name@)
}

/// Finds the counter named `key`.
fn position(counters: &Vec<Counter>, key: &String) -> (r: Option<usize>)
    ensures
        r matches Some(i) ==> i < counters@.len() && counters@[i as int].name@ == key@,
        r is None ==> !names_of(counters@).contains(key@),
{
    let mut i: usize = 0;
    while i < counters.len()
        invariant
            i <= counters@.len(),
            forall|j: int| 0 <= j < i ==> counters@[j].name@ != key@,
        decreases counters@.len() - i,
    {
        if counters[i].name == *key {
            return Some(i);
        }
        i = i + 1;
    }
    assert forall|j: int| 0 <= j < names_of(counters@).len() implies names_of(counters@)[j]
        != key@ by {
        assert(names_of(counters@)[j] == counters@[j].name@);
    }
    None
}

impl AmapMetrics {
    /// The names of the counters.
    pub closed spec fn names(&self) -> Seq<Seq<char>> {
        names_of(self.data@)
    }

    /// Whether there is a counter named `key`.
    pub open spec fn has(&self, key: Seq<char>) -> bool {
        self.names().contains(key)
    }

    /// The invariant of the set: no two counters share a name.
    pub open spec fn well_formed(&self) -> bool {
        self.names().no_duplicates()
    }

    /// One counter for each name in `metric_names`; a name given twice gets
    /// one counter.
    pub fn new(metric_names: &[&'static str]) -> (m: Self)
        ensures
            m.well_formed(),
            forall|key: Seq<char>|
                m.has(key) <==> exists|i: int|
                    0 <= i < metric_names@.len() && (#[trigger] metric_names@[i])@ == key,
    {
        let mut counters: Vec<Counter> = Vec::new();
        let mut n: usize = 0;
        while n < metric_names.len()
            invariant
                n <= metric_names@.len(),
                names_of(counters@).no_duplicates(),
                forall|key: Seq<char>|
                    names_of(counters@).contains(key) <==> exists|i: int|
                        0 <= i < n && (#[trigger] metric_names@[i])@ == key,
            decreases metric_names@.len() - n,
        {
            let name = String::from_str(metric_names[n]);
            let ghost before = counters@;
            let found = position(&counters, &name);
            if found.is_none() {
                counters.push(Counter { name, count: AtomicI64::new(0) });
                proof {
                    let after = counters@;
                    assert(names_of(after) =~= names_of(before).push(name@));
                }
            }
            proof {
                let now = names_of(counters@);
                let key0 = metric_names@[n as int]@;
                assert(now.contains(key0)) by {
                    if found is Some {
                        let i = found->Some_0 as int;
                        assert(now[i] == key0);
                    } else {
                        assert(now[now.len() - 1] == key0);
                    }
                }
                assert forall|key: Seq<char>| now.contains(key) <==> exists|i: int|
                    0 <= i < n + 1 && (#[trigger] metric_names@[i])@ == key by {
                    if now.contains(key) {
                        if key != key0 {
                            let j = choose|j: int| 0 <= j < now.len() && now[j] == key;
                            assert(names_of(before)[j] == key);
                            assert(names_of(before).contains(key));
                        }
                    }
                    if exists|i: int| 0 <= i < n + 1 && (#[trigger] metric_names@[i])@ == key {
                        let i = choose|i: int| 0 <= i < n + 1 && (#[trigger] metric_names@[i])@ == key;
                        if i < n {
                            assert(names_of(before).contains(key));
                            let j = choose|j: int|
                                0 <= j < names_of(before).len() && names_of(before)[j] == key;
                            assert(now[j] == key);
                        }
                    }
                }
            }
            n = n + 1;
        }
        AmapMetrics { data: Arc::new(counters) }
    }

    /// Adds one to the counter named `key`, or fails when there is none.
    pub fn inc(&self, key: &str) -> (r: Result<(), MetricsError>)
        ensures
            r is Ok <==> self.has(key@),
            r matches Err(MetricsError::KeyNotFound { key: missing }) ==> missing@ == key@,
    {
        let name = String::from_str(key);
        match position(&self.data, &name) {
            Some(i) => {
                bump(&self.data[i].count);
                proof {
                    assert(names_of(self.data@)[i as int] == key@);
                }
                Ok(())
            },
            None => Err(MetricsError::KeyNotFound { key: name }),
        }
    }

    /// Reads the counter named `key`, if there is one. Other threads may
    /// bump it at any time.
    pub fn get(&self, key: &str) -> (r: Option<i64>)
        ensures
            r is Some <==> self.has(key@),
    {
        let name = String::from_str(key);
        match position(&self.data, &name) {
            Some(i) => {
                proof {
                    assert(names_of(self.data@)[i as int] == key@);
                }
                Some(read(&self.data[i].count))
            },
            None => None,
        }
    }
}

impl Clone for AmapMetrics {
    /// Another handle to the same counters.
    fn clone(&self) -> (other: Self)
        ensures
            other.names() == self.names(),
    {
        AmapMetrics { data: share(&self.data) }
    }
}

} // verus!
