//! A table from relative paths to values: at most one value per path, kept
//! in insertion order, with lookups by string comparison.

use vstd::prelude::*;

verus! {

/// A table with at most one value per path.
#[derive(Debug)]
pub struct PathTable<T> {
    entries: Vec<(String, T)>,
}

/// No path occurs twice.
pub open spec fn keys_unique<T>(s: Seq<(String, T)>) -> bool {
    forall|i: int, j: int| 0 <= i < s.len() && 0 <= j < s.len() && i != j ==> s[i].0@ != s[j].0@
}

/// The position of path `k`, when the entries hold it.
pub open spec fn index_of<T>(s: Seq<(String, T)>, k: Seq<char>) -> int {
    choose|i: int| 0 <= i < s.len() && s[i].0@ == k
}

pub open spec fn holds_key<T>(s: Seq<(String, T)>, k: Seq<char>) -> bool {
    exists|i: int| 0 <= i < s.len() && s[i].0@ == k
}

/// The entries as a map from path to value.
pub open spec fn index_map<T>(s: Seq<(String, T)>) -> Map<Seq<char>, T> {
    Map::new(|k: Seq<char>| holds_key(s, k), |k: Seq<char>| s[index_of(s, k)].1)
}

impl<T> View for PathTable<T> {
    type V = Map<Seq<char>, T>;

    closed spec fn view(&self) -> Map<Seq<char>, T> {
        index_map(self.entries@)
    }
}

impl<T> PathTable<T> {
    /// No path occurs twice.
    #[verifier::type_invariant]
    spec fn unique_paths(self) -> bool {
        keys_unique(self.entries@)
    }

    pub fn new() -> (r: Self)
        ensures
            r@ == Map::<Seq<char>, T>::empty(),
    {
        let r = PathTable { entries: Vec::new() };
        assert(index_map(r.entries@) =~= Map::<Seq<char>, T>::empty());
        r
    }


    pub fn insert(&mut self, path: String, value: T)
        ensures
            final(self)@ == old(self)@.insert(path@, value),
    {
        proof {
            use_type_invariant(&*self);
        }
        let mut entries: Vec<(String, T)> = Vec::new();
        std::mem::swap(&mut entries, &mut self.entries);
        let ghost old_entries = entries@;
        let ghost key = path@;
        match find(&entries, path.as_str()) {
            Some(i) => {
                entries.set(i, (path, value));
                proof {
                    lemma_index_of_unique(old_entries, i as int);
                    assert forall|a: int, b: int|
                        0 <= a < entries@.len() && 0 <= b < entries@.len() && a != b implies
                        entries@[a].0@ != entries@[b].0@ by {}
                    assert forall|k: Seq<char>| holds_key(entries@, k) implies #[trigger] entries@[index_of(entries@, k)].1
                        == index_map(old_entries).insert(key, value)[k] by {
                        let j = index_of(entries@, k);
                        if k != key {
                            lemma_index_of_unique(old_entries, j);
                        } else {
                            lemma_index_of_unique(entries@, i as int);
                        }
                    }
                    assert forall|k: Seq<char>| holds_key(entries@, k) <==> #[trigger] holds_key(old_entries, k) by {
                        if holds_key(old_entries, k) {
                            let j = index_of(old_entries, k);
                            assert(entries@[j].0@ == k);
                        }
                        if holds_key(entries@, k) {
                            let j = index_of(entries@, k);
                            assert(old_entries[j].0@ == k);
                        }
                    }
                    assert(index_map(entries@) =~= index_map(old_entries).insert(key, value));
                }
            },
            None => {
                entries.push((path, value));
                proof {
                    let n = old_entries.len() as int;
                    lemma_index_of_unique(entries@, n);
                    assert forall|k: Seq<char>| #[trigger] holds_key(entries@, k) <==> holds_key(old_entries, k) || k == key by {
                        if holds_key(old_entries, k) {
                            let j = index_of(old_entries, k);
                            assert(entries@[j].0@ == k);
                        }
                        if holds_key(entries@, k) && k != key {
                            let j = index_of(entries@, k);
                            assert(old_entries[j].0@ == k);
                        }
                    }
                    assert forall|k: Seq<char>| holds_key(entries@, k) implies #[trigger] entries@[index_of(entries@, k)].1
                        == index_map(old_entries).insert(key, value)[k] by {
                        let j = index_of(entries@, k);
                        if k != key {
                            lemma_index_of_unique(entries@, j);
                            lemma_index_of_unique(old_entries, j);
                        }
                    }
                    assert(index_map(entries@) =~= index_map(old_entries).insert(key, value));
                }
            },
        }
        self.entries = entries;
    }

    pub fn get(&self, path: &str) -> (r: Option<&T>)
        ensures
            r is Some <==> self@.contains_key(path@),
            r matches Some(v) ==> *v == self@[path@],
    {
        proof {
            use_type_invariant(self);
        }
        match find(&self.entries, path) {
            Some(i) => {
                proof {
                    lemma_index_of_unique(self.entries@, i as int);
                }
                Some(&self.entries[i].1)
            },
            None => None,
        }
    }

    pub fn remove(&mut self, path: &str) -> (r: Option<T>)
        ensures
            final(self)@ == old(self)@.remove(path@),
            r is Some <==> old(self)@.contains_key(path@),
            r matches Some(v) ==> v == old(self)@[path@],
    {
        proof {
            use_type_invariant(&*self);
        }
        let mut entries: Vec<(String, T)> = Vec::new();
        std::mem::swap(&mut entries, &mut self.entries);
        let ghost old_entries = entries@;
        let ghost key = path@;
        match find(&entries, path) {
            Some(i) => {
                let (_, value) = entries.remove(i);
                proof {
                    lemma_index_of_unique(old_entries, i as int);
                    assert forall|a: int, b: int|
                        0 <= a < entries@.len() && 0 <= b < entries@.len() && a != b implies
                        entries@[a].0@ != entries@[b].0@ by {
                        let a2 = if a < i { a } else { a + 1 };
                        let b2 = if b < i { b } else { b + 1 };
                        assert(entries@[a] == old_entries[a2]);
                        assert(entries@[b] == old_entries[b2]);
                    }
                    assert forall|k: Seq<char>| #[trigger] holds_key(entries@, k) <==> holds_key(old_entries, k) && k != key by {
                        if holds_key(old_entries, k) && k != key {
                            let j = index_of(old_entries, k);
                            let j2 = if j < i { j } else { j - 1 };
                            assert(entries@[j2] == old_entries[j]);
                        }
                        if holds_key(entries@, k) {
                            let j = index_of(entries@, k);
                            let j2 = if j < i { j } else { j + 1 };
                            assert(entries@[j] == old_entries[j2]);
                        }
                    }
                    assert forall|k: Seq<char>| holds_key(entries@, k) implies #[trigger] entries@[index_of(entries@, k)].1
                        == index_map(old_entries)[k] by {
                        let j = index_of(entries@, k);
                        let j2 = if j < i { j } else { j + 1 };
                        assert(entries@[j] == old_entries[j2]);
                        lemma_index_of_unique(old_entries, j2);
                    }
                    assert(index_map(entries@) =~= index_map(old_entries).remove(key));
                }
                self.entries = entries;
                Some(value)
            },
            None => {
                proof {
                    assert(index_map(old_entries) =~= index_map(old_entries).remove(key));
                }
                self.entries = entries;
                None
            },
        }
    }

    pub fn contains(&self, path: &str) -> (r: bool)
        ensures
            r == self@.contains_key(path@),
    {
        proof {
            use_type_invariant(self);
        }
        find(&self.entries, path).is_some()
    }

    /// Every path with its value, each once.
    pub fn as_slice(&self) -> (r: &[(String, T)])
        ensures
            self@.dom().finite(),
            r@.len() == self@.dom().len(),
            keys_unique(r@),
            forall|i: int| 0 <= i < r@.len() ==> self@.contains_key(#[trigger] r@[i].0@) && self@[r@[i].0@]
                == r@[i].1,
            forall|k: Seq<char>| #[trigger] self@.contains_key(k) ==> exists|i: int|
                0 <= i < r@.len() && r@[i].0@ == k,
    {
        proof {
            use_type_invariant(self);
            lemma_index_dom_len(self.entries@);
            assert forall|i: int| 0 <= i < self.entries@.len() implies self@.contains_key(
                #[trigger] self.entries@[i].0@,
            ) && self@[self.entries@[i].0@] == self.entries@[i].1 by {
                lemma_index_of_unique(self.entries@, i);
            }
        }
        self.entries.as_slice()
    }

    /// The number of paths held.
    pub fn len(&self) -> (r: usize)
        ensures
            self@.dom().finite(),
            r == self@.dom().len(),
    {
        proof {
            use_type_invariant(self);
            lemma_index_dom_len(self.entries@);
        }
        self.entries.len()
    }

    pub fn is_empty(&self) -> (r: bool)
        ensures
            r == (self@ == Map::<Seq<char>, T>::empty()),
    {
        proof {
            use_type_invariant(self);
            if self.entries@.len() > 0 {
                assert(self@.contains_key(self.entries@[0].0@));
            } else {
                assert(self@ =~= Map::<Seq<char>, T>::empty());
            }
        }
        self.entries.len() == 0
    }
}

/// The position of `path` among the entries.
fn find<T>(entries: &Vec<(String, T)>, path: &str) -> (r: Option<usize>)
    ensures
        r matches Some(i) ==> i < entries@.len() && entries@[i as int].0@ == path@,
        r is None ==> !holds_key(entries@, path@),
{
    let mut i: usize = 0;
    while i < entries.len()
        invariant
            i <= entries@.len(),
            forall|j: int| 0 <= j < i ==> entries@[j].0@ != path@,
        decreases entries@.len() - i,
    {
        if str_eq(entries[i].0.as_str(), path) {
            return Some(i);
        }
        i = i + 1;
    }
    None
}

/// With distinct paths, the position found for a path is the only one holding it.
proof fn lemma_index_of_unique<T>(s: Seq<(String, T)>, i: int)
    requires
        keys_unique(s),
        0 <= i < s.len(),
    ensures
        holds_key(s, s[i].0@),
        index_of(s, s[i].0@) == i,
{
    assert(s[i].0@ == s[i].0@);
}

/// With distinct paths, the map has one key per entry.
proof fn lemma_index_dom_len<T>(s: Seq<(String, T)>)
    requires
        keys_unique(s),
    ensures
        index_map(s).dom().finite(),
        index_map(s).dom().len() == s.len(),
    decreases s.len(),
{
    let d = index_map(s).dom();
    if s.len() == 0 {
        assert(d =~= Set::<Seq<char>>::empty());
    } else {
        let init = s.drop_last();
        let k = s.last().0@;
        assert forall|a: int, b: int| 0 <= a < init.len() && 0 <= b < init.len() && a != b implies init[a].0@
            != init[b].0@ by {
            assert(init[a] == s[a] && init[b] == s[b]);
        }
        lemma_index_dom_len(init);
        assert forall|x: Seq<char>| #[trigger] d.contains(x) <==> index_map(init).dom().insert(k).contains(x) by {
            if holds_key(s, x) && x != k {
                let j = index_of(s, x);
                assert(j != s.len() - 1);
                assert(init[j].0@ == x);
            }
            if holds_key(init, x) {
                let j = index_of(init, x);
                assert(s[j].0@ == x);
            }
            if x == k {
                assert(s[s.len() - 1].0@ == k);
            }
        }
        assert(d =~= index_map(init).dom().insert(k));
        if index_map(init).dom().contains(k) {
            let j = index_of(init, k);
            assert(s[j].0@ == s[s.len() - 1].0@);
        }
    }
}

/// `==` on strings.
pub fn str_eq(a: &str, b: &str) -> (r: bool)
    ensures
        r == (a@ == b@),
{
    let ab = a.as_bytes();
    let bb = b.as_bytes();
    proof {
        vstd::utf8::encode_utf8_decode_utf8(a@);
        vstd::utf8::encode_utf8_decode_utf8(b@);
    }
    if ab.len() != bb.len() {
        return false;
    }
    let mut i: usize = 0;
    while i < ab.len()
        invariant
            i <= ab@.len(),
            ab@.len() == bb@.len(),
            ab@ == vstd::utf8::encode_utf8(a@),
            bb@ == vstd::utf8::encode_utf8(b@),
            forall|j: int| 0 <= j < i ==> ab@[j] == bb@[j],
        decreases ab@.len() - i,
    {
        if ab[i] != bb[i] {
            return false;
        }
        i = i + 1;
    }
    assert(ab@ =~= bb@);
    true
}


} // verus!
