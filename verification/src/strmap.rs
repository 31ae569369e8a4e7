//! A map from path strings to hash strings, stored as an association list
//! with unique keys and viewed as a `Map<Seq<char>, Seq<char>>`.
//!
//! One type serves two roles: the persisted hash cache (path to last-known
//! content hash) and the model of an install directory handed in by the
//! caller (path to the content hash of the file on disk; a missing key is a
//! missing file).

use vstd::prelude::*;
use vstd::string::StrSliceExecFns;

verus! {

/// The map denoted by an association list: later entries win, though `wf`
/// rules duplicate keys out.
pub open spec fn map_of(entries: Seq<(String, String)>) -> Map<Seq<char>, Seq<char>>
    decreases entries.len(),
{
    if entries.len() == 0 {
        Map::empty()
    } else {
        map_of(entries.drop_last()).insert(entries.last().0@, entries.last().1@)
    }
}

/// A key is bound somewhere in the list.
pub open spec fn has_key(entries: Seq<(String, String)>, key: Seq<char>) -> bool {
    exists|i: int| 0 <= i < entries.len() && entries[i].0@ == key
}

pub proof fn lemma_map_of_contains(entries: Seq<(String, String)>, key: Seq<char>)
    ensures
        map_of(entries).contains_key(key) == has_key(entries, key),
    decreases entries.len(),
{
    if entries.len() == 0 {
    } else {
        lemma_map_of_contains(entries.drop_last(), key);
        if entries.last().0@ == key {
            assert(entries[entries.len() - 1].0@ == key);
        } else {
            if has_key(entries.drop_last(), key) {
                let i = choose|i: int|
                    0 <= i < entries.drop_last().len() && entries.drop_last()[i].0@ == key;
                assert(entries[i].0@ == key);
            }
            if has_key(entries, key) {
                let i = choose|i: int| 0 <= i < entries.len() && entries[i].0@ == key;
                assert(entries.drop_last()[i].0@ == key);
            }
        }
    }
}

/// No two entries bind the same key.
pub open spec fn unique_keys(entries: Seq<(String, String)>) -> bool {
    forall|i: int, j: int|
        0 <= i < j < entries.len() ==> entries[i].0@ != entries[j].0@
}

pub proof fn lemma_map_of_index(entries: Seq<(String, String)>, i: int)
    requires
        unique_keys(entries),
        0 <= i < entries.len(),
    ensures
        map_of(entries).contains_key(entries[i].0@),
        map_of(entries)[entries[i].0@] == entries[i].1@,
    decreases entries.len(),
{
    if i == entries.len() - 1 {
        lemma_map_of_contains(entries, entries[i].0@);
        assert(entries[i].0@ == entries.last().0@);
    } else {
        assert(entries.drop_last()[i] == entries[i]);
        lemma_map_of_index(entries.drop_last(), i);
        assert(entries.last().0@ != entries[i].0@);
    }
}

pub proof fn lemma_map_of_remove(entries: Seq<(String, String)>, i: int)
    requires
        unique_keys(entries),
        0 <= i < entries.len(),
    ensures
        map_of(entries.remove(i)) =~= map_of(entries).remove(entries[i].0@),
    decreases entries.len(),
{
    let key = entries[i].0@;
    if i == entries.len() - 1 {
        assert(entries.remove(i) =~= entries.drop_last());
        lemma_map_of_contains(entries.drop_last(), key);
        assert(!has_key(entries.drop_last(), key)) by {
            if has_key(entries.drop_last(), key) {
                let j = choose|j: int|
                    0 <= j < entries.drop_last().len() && entries.drop_last()[j].0@ == key;
                assert(entries[j].0@ == key);
            }
        }
    } else {
        assert(entries.remove(i).drop_last() =~= entries.drop_last().remove(i));
        assert(entries.remove(i).last() == entries.last());
        lemma_map_of_remove(entries.drop_last(), i);
        assert(entries.drop_last()[i] == entries[i]);
    }
}

pub proof fn lemma_unique_remove(entries: Seq<(String, String)>, i: int)
    requires
        unique_keys(entries),
        0 <= i < entries.len(),
    ensures
        unique_keys(entries.remove(i)),
        !has_key(entries.remove(i), entries[i].0@),
{
    let r = entries.remove(i);
    assert forall|a: int, b: int| 0 <= a < b < r.len() implies r[a].0@ != r[b].0@ by {
        let a0: int = if a < i { a } else { a + 1 };
        let b0: int = if b < i { b } else { b + 1 };
        assert(r[a] == entries[a0]);
        assert(r[b] == entries[b0]);
    }
    assert forall|a: int| 0 <= a < r.len() implies r[a].0@ != entries[i].0@ by {
        let a0: int = if a < i { a } else { a + 1 };
        assert(r[a] == entries[a0]);
    }
    if has_key(r, entries[i].0@) {
        let a = choose|a: int| 0 <= a < r.len() && r[a].0@ == entries[i].0@;
        assert(r[a].0@ != entries[i].0@);
    }
}

/// `k` is the path `p` itself or lies in the directory subtree under `p`.
pub open spec fn path_under(k: Seq<char>, p: Seq<char>) -> bool {
    ||| k == p
    ||| (k.len() > p.len() && k.subrange(0, p.len() as int) == p && k[p.len() as int] == '/')
}

/// The keys that deleting `p` takes away.
pub open spec fn under_pred(p: Seq<char>) -> spec_fn(Seq<char>) -> bool {
    |k: Seq<char>| path_under(k, p)
}

/// A map with `p` and everything under it removed.
pub open spec fn subtree_removed(m: Map<Seq<char>, Seq<char>>, p: Seq<char>) -> Map<
    Seq<char>,
    Seq<char>,
> {
    m.remove_keys(Set::new(under_pred(p)))
}

/// Whether `k` is `p` itself or lies under the directory `p`.
pub fn path_is_under(k: &str, p: &str) -> (r: bool)
    ensures
        r == path_under(k@, p@),
{
    if crate::hashing::str_eq(k, p) {
        return true;
    }
    let kn = k.unicode_len();
    let pn = p.unicode_len();
    if kn > pn {
        let prefix = k.substring_char(0, pn);
        if crate::hashing::str_eq(prefix, p) && k.get_char(pn) == '/' {
            return true;
        }
    }
    false
}

/// The entries whose keys do not satisfy `s`, in order.
pub open spec fn drop_matching(
    entries: Seq<(String, String)>,
    s: spec_fn(Seq<char>) -> bool,
) -> Seq<(String, String)>
    decreases entries.len(),
{
    if entries.len() == 0 {
        entries
    } else {
        let rest = drop_matching(entries.drop_last(), s);
        if s(entries.last().0@) {
            rest
        } else {
            rest.push(entries.last())
        }
    }
}

pub proof fn lemma_drop_matching(entries: Seq<(String, String)>, s: spec_fn(Seq<char>) -> bool)
    requires
        unique_keys(entries),
    ensures
        unique_keys(drop_matching(entries, s)),
        forall|k: Seq<char>| has_key(drop_matching(entries, s), k) ==> has_key(entries, k),
        map_of(drop_matching(entries, s)) =~= map_of(entries).remove_keys(
            Set::new(|k: Seq<char>| s(k)),
        ),
    decreases entries.len(),
{
    let out = drop_matching(entries, s);
    let keys = Set::new(|k: Seq<char>| s(k));
    if entries.len() == 0 {
        assert(map_of(out) =~= map_of(entries).remove_keys(keys));
    } else {
        let prev = entries.drop_last();
        let rest = drop_matching(prev, s);
        lemma_drop_matching(prev, s);
        assert forall|k: Seq<char>| has_key(out, k) implies has_key(entries, k) by {
            let i = choose|i: int| 0 <= i < out.len() && out[i].0@ == k;
            if !s(entries.last().0@) && i == out.len() - 1 {
                assert(out[i] == entries.last());
                assert(entries[entries.len() - 1].0@ == k);
            } else {
                assert(out[i] == rest[i]);
                assert(has_key(rest, k));
                assert(has_key(prev, k));
                let j = choose|j: int| 0 <= j < prev.len() && prev[j].0@ == k;
                assert(entries[j] == prev[j]);
                assert(entries[j].0@ == k);
            }
        }
        if s(entries.last().0@) {
            assert(map_of(out) =~= map_of(entries).remove_keys(keys));
        } else {
            assert(!has_key(rest, entries.last().0@)) by {
                if has_key(rest, entries.last().0@) {
                    assert(has_key(prev, entries.last().0@));
                    let j = choose|j: int|
                        0 <= j < prev.len() && prev[j].0@ == entries.last().0@;
                    assert(entries[j] == prev[j]);
                    assert(entries[j].0@ == entries[entries.len() - 1].0@);
                }
            }
            assert forall|i2: int, j2: int| 0 <= i2 < j2 < out.len() implies out[i2].0@
                != out[j2].0@ by {
                if j2 == out.len() - 1 {
                    assert(out[i2] == rest[i2]);
                    assert(has_key(rest, rest[i2].0@));
                }
            }
            assert(out.drop_last() =~= rest);
            assert(map_of(out) == map_of(rest).insert(entries.last().0@, entries.last().1@));
            assert(map_of(out) =~= map_of(entries).remove_keys(keys));
        }
    }
}

/// A map from relative path strings to content-hash strings.
pub struct StrMap {
    entries: Vec<(String, String)>,
}

impl View for StrMap {
    type V = Map<Seq<char>, Seq<char>>;

    closed spec fn view(&self) -> Map<Seq<char>, Seq<char>> {
        map_of(self.entries@)
    }
}

impl StrMap {
    /// Well-formed: no key is bound twice.
    pub closed spec fn wf(&self) -> bool {
        unique_keys(self.entries@)
    }

    /// The empty map.
    pub fn new() -> (r: Self)
        ensures
            r@ == Map::<Seq<char>, Seq<char>>::empty(),
            r.wf(),
    {
        StrMap { entries: Vec::new() }
    }

    /// Whether `key` is present.
    pub fn contains(&self, key: &str) -> (r: bool)
        ensures
            r == self@.contains_key(key@),
    {
        proof {
            lemma_map_of_contains(self.entries@, key@);
        }
        let n = self.entries.len();
        let mut i: usize = 0;
        while i < n
            invariant
                i <= n,
                n == self.entries@.len(),
                forall|j: int| 0 <= j < i ==> self.entries@[j].0@ != key@,
            decreases n - i,
        {
            if crate::hashing::str_eq(self.entries[i].0.as_str(), key) {
                proof {
                    lemma_map_of_contains(self.entries@, key@);
                    assert(self.entries@[i as int].0@ == key@);
                }
                return true;
            }
            i += 1;
        }
        false
    }

    /// Look the key up.
    pub fn get(&self, key: &str) -> (r: Option<&String>)
        requires
            self.wf(),
        ensures
            match r {
                Some(v) => self@.contains_key(key@) && v@ == self@[key@],
                None => !self@.contains_key(key@),
            },
    {
        proof {
            lemma_map_of_contains(self.entries@, key@);
        }
        let n = self.entries.len();
        let mut i: usize = 0;
        while i < n
            invariant
                i <= n,
                n == self.entries@.len(),
                self.wf(),
                forall|j: int| 0 <= j < i ==> self.entries@[j].0@ != key@,
            decreases n - i,
        {
            if crate::hashing::str_eq(self.entries[i].0.as_str(), key) {
                proof {
                    lemma_map_of_index(self.entries@, i as int);
                }
                return Some(&self.entries[i].1);
            }
            i += 1;
        }
        None
    }

    /// The index of the entry binding `key`, if any.
    fn find_index(&self, key: &str) -> (r: Option<usize>)
        ensures
            match r {
                Some(k) => k < self.entries@.len() && self.entries@[k as int].0@ == key@,
                None => !has_key(self.entries@, key@),
            },
    {
        let n = self.entries.len();
        let mut i: usize = 0;
        while i < n
            invariant
                i <= n,
                n == self.entries@.len(),
                forall|j: int| 0 <= j < i ==> self.entries@[j].0@ != key@,
            decreases n - i,
        {
            if crate::hashing::str_eq(self.entries[i].0.as_str(), key) {
                return Some(i);
            }
            i += 1;
        }
        proof {
            if has_key(self.entries@, key@) {
                let j = choose|j: int|
                    0 <= j < self.entries@.len() && self.entries@[j].0@ == key@;
                assert(self.entries@[j].0@ != key@);
            }
        }
        None
    }

    /// Bind `key` to `value`, replacing any previous binding.
    pub fn insert(&mut self, key: String, value: String)
        requires
            old(self).wf(),
        ensures
            final(self).wf(),
            final(self)@ == old(self)@.insert(key@, value@),
    {
        match self.find_index(key.as_str()) {
            Some(k) => {
                proof {
                    lemma_map_of_remove(self.entries@, k as int);
                    lemma_unique_remove(self.entries@, k as int);
                }
                self.entries.remove(k);
            }
            None => {
                proof {
                    lemma_map_of_contains(self.entries@, key@);
                    assert(old(self)@.remove(key@) =~= old(self)@);
                }
            }
        }
        proof {
            assert(unique_keys(self.entries@));
            assert(!has_key(self.entries@, key@));
            assert(map_of(self.entries@) =~= old(self)@.remove(key@));
        }
        let ghost before_push = self.entries@;
        self.entries.push((key, value));
        proof {
            assert(self.entries@.drop_last() =~= before_push);
            assert(map_of(self.entries@) == map_of(before_push).insert(
                self.entries@.last().0@,
                self.entries@.last().1@,
            ));
            assert(map_of(self.entries@) =~= old(self)@.insert(key@, value@));
            assert forall|i2: int, j2: int|
                0 <= i2 < j2 < self.entries@.len() implies self.entries@[i2].0@
                != self.entries@[j2].0@ by {
                if j2 == self.entries@.len() - 1 {
                    assert(self.entries@[i2] == before_push[i2]);
                }
            }
        }
    }

    /// Remove the binding of `key`, if any.
    pub fn remove(&mut self, key: &str)
        requires
            old(self).wf(),
        ensures
            final(self).wf(),
            final(self)@ == old(self)@.remove(key@),
    {
        match self.find_index(key) {
            Some(k) => {
                proof {
                    lemma_map_of_remove(self.entries@, k as int);
                    lemma_unique_remove(self.entries@, k as int);
                    assert(old(self)@.remove(self.entries@[k as int].0@) =~= old(self)@.remove(
                        key@,
                    ));
                }
                self.entries.remove(k);
            }
            None => {
                proof {
                    lemma_map_of_contains(self.entries@, key@);
                    assert(old(self)@.remove(key@) =~= old(self)@);
                }
            }
        }
    }

    /// Remove `path` and everything under it, as deleting a file or a
    /// whole directory tree does.
    pub fn remove_subtree(&mut self, path: &str)
        requires
            old(self).wf(),
        ensures
            final(self).wf(),
            final(self)@ == subtree_removed(old(self)@, path@),
    {
        let ghost s = under_pred(path@);
        proof {
            lemma_drop_matching(self.entries@, s);
            assert(self.entries@.take(0) =~= Seq::<(String, String)>::empty());
        }
        let n = self.entries.len();
        let mut kept: Vec<(String, String)> = Vec::new();
        let mut i: usize = 0;
        while i < n
            invariant
                i <= n,
                n == self.entries@.len(),
                s == under_pred(path@),
                kept@ == drop_matching(self.entries@.take(i as int), s),
            decreases n - i,
        {
            let keep = !path_is_under(self.entries[i].0.as_str(), path);
            proof {
                assert(self.entries@.take(i + 1).drop_last() =~= self.entries@.take(i as int));
                assert(self.entries@.take(i + 1).last() == self.entries@[i as int]);
            }
            if keep {
                kept.push((self.entries[i].0.clone(), self.entries[i].1.clone()));
                proof {
                    assert(kept@.last() == self.entries@[i as int]);
                    assert(kept@.drop_last() =~= drop_matching(
                        self.entries@.take(i as int),
                        s,
                    ));
                    assert(kept@ =~= drop_matching(self.entries@.take(i + 1), s));
                }
            }
            i += 1;
        }
        proof {
            assert(self.entries@.take(n as int) =~= self.entries@);
        }
        self.entries = kept;
    }

    /// An identical copy.
    pub fn duplicate(&self) -> (r: Self)
        ensures
            r@ == self@,
            r.wf() == self.wf(),
            r.to_pairs_spec() == self.to_pairs_spec(),
    {
        let n = self.entries.len();
        let mut out: Vec<(String, String)> = Vec::new();
        let mut i: usize = 0;
        while i < n
            invariant
                i <= n,
                n == self.entries@.len(),
                out@.len() == i,
                forall|j: int| 0 <= j < i ==> out@[j] == self.entries@[j],
            decreases n - i,
        {
            let k = self.entries[i].0.clone();
            let v = self.entries[i].1.clone();
            out.push((k, v));
            i += 1;
        }
        proof {
            assert(out@ =~= self.entries@);
        }
        StrMap { entries: out }
    }

    /// The entry list itself, for callers outside the library.
    pub closed spec fn to_pairs_spec(&self) -> Seq<(String, String)> {
        self.entries@
    }

    /// The entries as a list of pairs, for persistence and inspection.
    pub fn to_pairs(&self) -> (r: Vec<(String, String)>)
        ensures
            r@ == self.to_pairs_spec(),
            map_of(r@) == self@,
    {
        let copy = self.duplicate();
        copy.entries
    }
}

} // verus!
