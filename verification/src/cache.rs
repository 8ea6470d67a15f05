//! The cache store: a namespaced, path-keyed key-value store whose values
//! are ordered sequences of lines, together with the derivation of the
//! cache key from a namespace and a working directory.
//!
//! The store is modelled as a map from key to line sequence.  The binary
//! around the library keeps the one entry it touches in step with the
//! per-user cache directory on disk; everything the store promises is
//! stated and proved here over that map.

use vstd::prelude::*;
use vstd::string::*;

verus! {

/// What a lookup of `k` in the store map `m` yields: the cached lines, or
/// the empty sequence when nothing is cached under `k`.  An empty cached
/// value is thereby indistinguishable from an absent one.
pub open spec fn spec_get(m: Map<Seq<char>, Seq<Seq<char>>>, k: Seq<char>) -> Seq<Seq<char>> {
    if m.contains_key(k) {
        m[k]
    } else {
        Seq::empty()
    }
}

spec fn has_key(es: Seq<(String, Vec<String>)>, k: Seq<char>) -> bool {
    exists|i: int| 0 <= i < es.len() && es[i].0@ == k
}

spec fn value_of(es: Seq<(String, Vec<String>)>, k: Seq<char>) -> Seq<Seq<char>> {
    let i = choose|i: int| 0 <= i < es.len() && es[i].0@ == k;
    es[i].1.deep_view()
}

spec fn unique_keys(es: Seq<(String, Vec<String>)>) -> bool {
    forall|i1: int, i2: int| 0 <= i1 < i2 < es.len() ==> es[i1].0@ != es[i2].0@
}

/// The key-value store behind completion caching.
pub struct CacheStore {
    entries: Vec<(String, Vec<String>)>,
}

impl View for CacheStore {
    type V = Map<Seq<char>, Seq<Seq<char>>>;

    closed spec fn view(&self) -> Map<Seq<char>, Seq<Seq<char>>> {
        Map::new(
            |k: Seq<char>| has_key(self.entries@, k),
            |k: Seq<char>| value_of(self.entries@, k),
        )
    }
}

impl CacheStore {
    /// Each key names at most one entry.
    pub closed spec fn wf(&self) -> bool {
        unique_keys(self.entries@)
    }

    /// An empty store.
    pub fn new() -> (s: CacheStore)
        ensures
            s.wf(),
            s@ == Map::<Seq<char>, Seq<Seq<char>>>::empty(),
    {
        let s = CacheStore { entries: Vec::new() };
        proof {
            assert(s@ =~= Map::<Seq<char>, Seq<Seq<char>>>::empty());
        }
        s
    }

    fn find(&self, key: &String) -> (r: Option<usize>)
        ensures
            match r {
                Some(i) => i < self.entries@.len() && self.entries@[i as int].0@ == key@,
                None => !has_key(self.entries@, key@),
            },
    {
        let mut i: usize = 0;
        while i < self.entries.len()
            invariant
                0 <= i <= self.entries@.len(),
                forall|j: int| 0 <= j < i ==> self.entries@[j].0@ != key@,
            decreases self.entries@.len() - i,
        {
            if self.entries[i].0 == *key {
                return Some(i);
            }
            i = i + 1;
        }
        None
    }

    /// The lines cached under `key`, or no lines when the entry is absent.
    /// A missing entry is not an error: it reads as the empty sequence.
    pub fn get(&self, key: &String) -> (r: Vec<String>)
        requires
            self.wf(),
        ensures
            r.deep_view() == spec_get(self@, key@),
    {
        match self.find(key) {
            Some(i) => {
                let r = clone_lines(&self.entries[i].1);
                proof {
                    assert(has_key(self.entries@, key@));
                    let j = choose|j: int|
                        0 <= j < self.entries@.len() && self.entries@[j].0@ == key@;
                    assert(j == i as int);
                    assert(self@[key@] == self.entries@[i as int].1.deep_view());
                }
                r
            },
            None => {
                let r: Vec<String> = Vec::new();
                proof {
                    assert(!self@.contains_key(key@));
                    assert(r.deep_view() =~= Seq::<Seq<char>>::empty());
                }
                r
            },
        }
    }

    /// Removes the entry under `key`; absent entries are left alone, so a
    /// clear never fails.
    pub fn clear(&mut self, key: &String)
        requires
            old(self).wf(),
        ensures
            final(self).wf(),
            final(self)@ == old(self)@.remove(key@),
    {
        let ghost es0 = self.entries@;
        match self.find(key) {
            Some(i) => {
                self.entries.remove(i);
                proof {
                    let es1 = self.entries@;
                    assert forall|j1: int, j2: int| 0 <= j1 < j2 < es1.len() implies es1[j1].0@
                        != es1[j2].0@ by {
                        assert(es1[j1] == if j1 < i as int {
                            es0[j1]
                        } else {
                            es0[j1 + 1]
                        });
                        assert(es1[j2] == if j2 < i as int {
                            es0[j2]
                        } else {
                            es0[j2 + 1]
                        });
                    }
                    assert forall|k: Seq<char>| #[trigger] has_key(es1, k) implies has_key(
                        es0,
                        k,
                    ) && k != key@ by {
                        let j = choose|j: int| 0 <= j < es1.len() && es1[j].0@ == k;
                        let j0 = if j < i as int {
                            j
                        } else {
                            j + 1
                        };
                        assert(es0[j0].0@ == k);
                        assert(es0[i as int].0@ == key@);
                    }
                    assert forall|k: Seq<char>| has_key(es0, k) && k != key@ implies #[trigger]
                    has_key(es1, k) && value_of(es1, k) == value_of(es0, k) by {
                        let j0 = choose|j: int| 0 <= j < es0.len() && es0[j].0@ == k;
                        assert(j0 != i as int);
                        let j1 = if j0 < i as int {
                            j0
                        } else {
                            j0 - 1
                        };
                        assert(es1[j1] == es0[j0]);
                        assert(has_key(es1, k));
                        let ja = choose|j: int| 0 <= j < es1.len() && es1[j].0@ == k;
                        assert(ja == j1);
                        let jb = choose|j: int| 0 <= j < es0.len() && es0[j].0@ == k;
                        assert(jb == j0);
                    }
                    assert(self@ =~= old(self)@.remove(key@));
                }
            },
            None => {
                proof {
                    assert(!old(self)@.contains_key(key@));
                    assert(self@ =~= old(self)@.remove(key@));
                }
            },
        }
    }

    /// Overwrites (creates or replaces) the entry under `key` with `lines`,
    /// one string per record.
    pub fn set(&mut self, key: &String, lines: Vec<String>)
        requires
            old(self).wf(),
        ensures
            final(self).wf(),
            final(self)@ == old(self)@.insert(key@, lines.deep_view()),
    {
        self.clear(key);
        let ghost m1 = self@;
        let ghost es1 = self.entries@;
        proof {
            assert(!self@.contains_key(key@));
            assert(!has_key(es1, key@));
        }
        self.entries.push((key.clone(), lines));
        proof {
            let es2 = self.entries@;
            let n = es2.len() - 1;
            assert(es2[n].0@ == key@);
            assert(!has_key(es1, key@));
            assert forall|j1: int, j2: int| 0 <= j1 < j2 < es2.len() implies es2[j1].0@
                != es2[j2].0@ by {
                if j2 < n {
                    assert(es2[j1] == es1[j1] && es2[j2] == es1[j2]);
                } else {
                    assert(es2[j1] == es1[j1]);
                    if es2[j1].0@ == key@ {
                        assert(has_key(es1, key@));
                    }
                }
            }
            assert forall|k: Seq<char>| #[trigger] has_key(es2, k) implies k == key@ || has_key(
                es1,
                k,
            ) by {
                let j = choose|j: int| 0 <= j < es2.len() && es2[j].0@ == k;
                if j < n {
                    assert(es1[j] == es2[j]);
                }
            }
            assert forall|k: Seq<char>| has_key(es1, k) implies #[trigger] has_key(es2, k) by {
                let j = choose|j: int| 0 <= j < es1.len() && es1[j].0@ == k;
                assert(es2[j] == es1[j]);
            }
            assert forall|k: Seq<char>| has_key(es2, k) && k != key@ implies #[trigger] value_of(
                es2,
                k,
            ) == value_of(es1, k) by {
                let ja = choose|j: int| 0 <= j < es2.len() && es2[j].0@ == k;
                assert(ja != n);
                assert(es2[ja] == es1[ja]);
                let jb = choose|j: int| 0 <= j < es1.len() && es1[j].0@ == k;
                assert(es2[jb] == es1[jb]);
                assert(ja == jb);
            }
            assert(value_of(es2, key@) == lines.deep_view());
            assert(self@ =~= m1.insert(key@, lines.deep_view()));
            assert(old(self)@.remove(key@).insert(key@, lines.deep_view()) =~= old(
                self,
            )@.insert(key@, lines.deep_view()));
        }
    }
}

pub(crate) fn clone_lines(v: &Vec<String>) -> (r: Vec<String>)
    ensures
        r.deep_view() == v.deep_view(),
{
    let mut r: Vec<String> = Vec::new();
    let mut i: usize = 0;
    proof {
        assert(r.deep_view() =~= v.deep_view().take(0));
    }
    while i < v.len()
        invariant
            0 <= i <= v@.len(),
            r.deep_view() == v.deep_view().take(i as int),
        decreases v@.len() - i,
    {
        let ghost r0 = r.deep_view();
        r.push(v[i].clone());
        proof {
            assert(r.deep_view() =~= r0.push(v@[i as int]@));
            assert(r.deep_view() =~= v.deep_view().take(i + 1));
        }
        i = i + 1;
    }
    proof {
        assert(v.deep_view().take(v@.len() as int) =~= v.deep_view());
    }
    r
}

/// Derives the cache key for one invocation context: the fixed namespace
/// followed by the working directory it discriminates on.
pub fn derive_cache_key(namespace: &str, working_dir: &str) -> (r: String)
    ensures
        r@ == namespace@ + working_dir@,
{
    let mut r = namespace.to_owned();
    r.append(working_dir);
    r
}

/// Cache isolation: a write under one working directory is not observable
/// when reading under another, because the derived keys differ whenever the
/// directories do.
pub proof fn lemma_cache_isolation(
    m: Map<Seq<char>, Seq<Seq<char>>>,
    ns: Seq<char>,
    d1: Seq<char>,
    d2: Seq<char>,
    lines: Seq<Seq<char>>,
)
    requires
        d1 != d2,
    ensures
        spec_get(m.insert(ns + d1, lines), ns + d2) == spec_get(m, ns + d2),
{
    if ns + d1 == ns + d2 {
        assert((ns + d1).skip(ns.len() as int) =~= d1);
        assert((ns + d2).skip(ns.len() as int) =~= d2);
    }
}

/// Round trip: writing a non-empty sequence of lines under a key and
/// reading the same key back yields exactly those lines.
pub proof fn lemma_set_get_round_trip(
    m: Map<Seq<char>, Seq<Seq<char>>>,
    k: Seq<char>,
    lines: Seq<Seq<char>>,
)
    requires
        lines.len() > 0,
    ensures
        spec_get(m.insert(k, lines), k) == lines,
{
}

/// Empty is miss: writing an empty sequence of lines under a key leaves
/// every later read as if the key had never been written at all.
pub proof fn lemma_empty_set_is_miss(m: Map<Seq<char>, Seq<Seq<char>>>, k: Seq<char>, q: Seq<char>)
    ensures
        spec_get(m.insert(k, Seq::empty()), q) == spec_get(m.remove(k), q),
{
}

/// Clearing a key makes the next read of it yield the empty sequence,
/// whatever was cached under it before.
pub proof fn lemma_clear_then_get(m: Map<Seq<char>, Seq<Seq<char>>>, k: Seq<char>)
    ensures
        spec_get(m.remove(k), k) == Seq::<Seq<char>>::empty(),
{
}

} // verus!
