//! A table keyed by peer id that keeps its entries in the order in which their
//! ids first came in and never holds an id twice.

use crate::text::same_text;
use vstd::prelude::*;

verus! {

/// Some entry of `s` has the key.
pub open spec fn has_key<V>(s: Seq<(Seq<char>, V)>, key: Seq<char>) -> bool {
    exists|i: int| 0 <= i < s.len() && (#[trigger] s[i]).0 == key
}

/// No two entries of `s` share a key.
pub open spec fn distinct_keys<V>(s: Seq<(Seq<char>, V)>) -> bool {
    forall|i: int, j: int|
        0 <= i < s.len() && 0 <= j < s.len() && i != j ==> (#[trigger] s[i]).0 != (
        #[trigger] s[j]).0
}

/// The position of an entry with the key; meaningful where `has_key` holds.
pub open spec fn index_of_key<V>(s: Seq<(Seq<char>, V)>, key: Seq<char>) -> int {
    choose|i: int| 0 <= i < s.len() && (#[trigger] s[i]).0 == key
}

/// The value stored under the key, if any.
pub open spec fn value_of<V>(s: Seq<(Seq<char>, V)>, key: Seq<char>) -> Option<V> {
    if has_key(s, key) {
        Some(s[index_of_key(s, key)].1)
    } else {
        None
    }
}

/// The keys of `s`, in order.
pub open spec fn keys_of<V>(s: Seq<(Seq<char>, V)>) -> Seq<Seq<char>> {
    Seq::new(s.len(), |i: int| s[i].0)
}

/// The texts that a list of strings holds, in order.
pub open spec fn texts(list: Seq<String>) -> Seq<Seq<char>> {
    Seq::new(list.len(), |i: int| list[i]@)
}

/// `s` with the value stored under the key: in the place of the entry that had
/// the key, or at the end where none had.
pub open spec fn with_entry<V>(s: Seq<(Seq<char>, V)>, key: Seq<char>, value: V) -> Seq<
    (Seq<char>, V),
> {
    if has_key(s, key) {
        s.update(index_of_key(s, key), (key, value))
    } else {
        s.push((key, value))
    }
}

/// `s` without the entry under the key; the others keep their order.
pub open spec fn without_key<V>(s: Seq<(Seq<char>, V)>, key: Seq<char>) -> Seq<(Seq<char>, V)> {
    if has_key(s, key) {
        s.remove(index_of_key(s, key))
    } else {
        s
    }
}

/// `s` without the entries whose key is among `keys`; the others keep their
/// order.
pub open spec fn without_keys<V>(s: Seq<(Seq<char>, V)>, keys: Seq<Seq<char>>) -> Seq<
    (Seq<char>, V),
> {
    s.filter(|e: (Seq<char>, V)| !keys.contains(e.0))
}

/// In a sequence of distinct keys, a key found at `i` is found nowhere else.
pub proof fn lemma_index_of_key<V>(s: Seq<(Seq<char>, V)>, key: Seq<char>, i: int)
    requires
        distinct_keys(s),
        0 <= i < s.len(),
        s[i].0 == key,
    ensures
        has_key(s, key),
        index_of_key(s, key) == i,
        value_of(s, key) == Some(s[i].1),
{
}

/// Two sequences of distinct keys that hold the same entry at every position
/// whose key is not `key` answer every question about another key alike.
pub proof fn lemma_same_elsewhere<V>(
    s: Seq<(Seq<char>, V)>,
    t: Seq<(Seq<char>, V)>,
    key: Seq<char>,
)
    requires
        distinct_keys(s),
        distinct_keys(t),
        forall|j: int|
            0 <= j < s.len() && (#[trigger] s[j]).0 != key ==> j < t.len() && t[j] == s[j],
        forall|j: int|
            0 <= j < t.len() && (#[trigger] t[j]).0 != key ==> j < s.len() && s[j] == t[j],
    ensures
        forall|other: Seq<char>| other != key ==> has_key(t, other) == has_key(s, other),
        forall|other: Seq<char>| other != key ==> value_of(t, other) == value_of(s, other),
{
    assert forall|other: Seq<char>| other != key implies has_key(t, other) == has_key(s, other)
        && value_of(t, other) == value_of(s, other) by {
        if has_key(s, other) {
            let j = index_of_key(s, other);
            assert(t[j] == s[j]);
            lemma_index_of_key(t, other, j);
        }
        if has_key(t, other) {
            let j = index_of_key(t, other);
            assert(s[j] == t[j]);
            lemma_index_of_key(s, other, j);
        }
    }
}

/// The keys of a table are the keys that it has.
pub proof fn lemma_keys_of<V>(s: Seq<(Seq<char>, V)>)
    ensures
        keys_of(s).len() == s.len(),
        forall|key: Seq<char>| #[trigger] keys_of(s).contains(key) == has_key(s, key),
{
    let keys = keys_of(s);
    assert forall|key: Seq<char>| #[trigger] keys.contains(key) == has_key(s, key) by {
        if keys.contains(key) {
            let k = choose|k: int| 0 <= k < keys.len() && keys[k] == key;
            assert(s[k].0 == key);
        }
        if has_key(s, key) {
            let k = index_of_key(s, key);
            assert(keys[k] == key);
        }
    }
}

/// What storing a value under a key does to the table's questions.
pub proof fn lemma_with_entry<V>(s: Seq<(Seq<char>, V)>, key: Seq<char>, value: V)
    requires
        distinct_keys(s),
    ensures
        distinct_keys(with_entry(s, key, value)),
        has_key(with_entry(s, key, value), key),
        value_of(with_entry(s, key, value), key) == Some(value),
        with_entry(s, key, value).len() == s.len() + if has_key(s, key) {
            0int
        } else {
            1int
        },
        forall|other: Seq<char>|
            other != key ==> has_key(with_entry(s, key, value), other) == has_key(s, other),
        forall|other: Seq<char>|
            other != key ==> value_of(with_entry(s, key, value), other) == value_of(s, other),
{
    let t = with_entry(s, key, value);
    let n = s.len() as int;
    let i = if has_key(s, key) {
        index_of_key(s, key)
    } else {
        n
    };
    assert(t[i] == (key, value));
    assert forall|a: int| 0 <= a < t.len() && a != i implies a < n && #[trigger] t[a] == s[a] by {}
    assert forall|a: int, b: int| 0 <= a < t.len() && 0 <= b < t.len() && a != b implies (
    #[trigger] t[a]).0 != (#[trigger] t[b]).0 by {
        if a != i {
            assert(s[a].0 == t[a].0);
        }
        if b != i {
            assert(s[b].0 == t[b].0);
        }
    }
    lemma_index_of_key(t, key, i);
    lemma_same_elsewhere(s, t, key);
}

/// What taking the entry at `i` out does to the table's questions.
pub proof fn lemma_remove_at<V>(s: Seq<(Seq<char>, V)>, i: int)
    requires
        distinct_keys(s),
        0 <= i < s.len(),
    ensures
        distinct_keys(s.remove(i)),
        !has_key(s.remove(i), s[i].0),
        forall|other: Seq<char>|
            other != s[i].0 ==> has_key(s.remove(i), other) == has_key(s, other),
        forall|other: Seq<char>|
            other != s[i].0 ==> value_of(s.remove(i), other) == value_of(s, other),
{
    let t = s.remove(i);
    assert forall|a: int| 0 <= a < t.len() implies #[trigger] t[a] == s[if a < i {
        a
    } else {
        a + 1
    }] by {}
    assert forall|a: int, b: int| 0 <= a < t.len() && 0 <= b < t.len() && a != b implies (
    #[trigger] t[a]).0 != (#[trigger] t[b]).0 by {
        let a2 = if a < i {
            a
        } else {
            a + 1
        };
        let b2 = if b < i {
            b
        } else {
            b + 1
        };
        assert(s[a2].0 != s[b2].0);
    }
    if has_key(t, s[i].0) {
        let a = index_of_key(t, s[i].0);
        let a2 = if a < i {
            a
        } else {
            a + 1
        };
        assert(s[a2].0 == s[i].0);
    }
    assert forall|other: Seq<char>| other != s[i].0 implies has_key(t, other) == has_key(s, other)
        && value_of(t, other) == value_of(s, other) by {
        if has_key(s, other) {
            let j = index_of_key(s, other);
            let j2 = if j < i {
                j
            } else {
                j - 1
            };
            assert(t[j2] == s[j]);
            lemma_index_of_key(t, other, j2);
        }
        if has_key(t, other) {
            let j = index_of_key(t, other);
            let j2 = if j < i {
                j
            } else {
                j + 1
            };
            assert(t[j] == s[j2]);
            lemma_index_of_key(s, other, j2);
        }
    }
}

/// What taking a key out does to the table's questions.
pub proof fn lemma_without_key<V>(s: Seq<(Seq<char>, V)>, key: Seq<char>)
    requires
        distinct_keys(s),
    ensures
        distinct_keys(without_key(s, key)),
        !has_key(without_key(s, key), key),
        without_key(s, key).len() == s.len() - if has_key(s, key) {
            1int
        } else {
            0int
        },
        forall|other: Seq<char>|
            other != key ==> has_key(without_key(s, key), other) == has_key(s, other),
        forall|other: Seq<char>|
            other != key ==> value_of(without_key(s, key), other) == value_of(s, other),
{
    if has_key(s, key) {
        lemma_remove_at(s, index_of_key(s, key));
    }
}

/// What taking several keys out does to the table's questions: the listed keys
/// are gone, every other key is where it was relative to the rest, with its
/// value.
pub proof fn lemma_without_keys<V>(s: Seq<(Seq<char>, V)>, keys: Seq<Seq<char>>)
    requires
        distinct_keys(s),
    ensures
        distinct_keys(without_keys(s, keys)),
        without_keys(s, keys).len() <= s.len(),
        forall|key: Seq<char>|
            has_key(without_keys(s, keys), key) == (has_key(s, key) && !keys.contains(key)),
        forall|key: Seq<char>|
            !keys.contains(key) ==> value_of(without_keys(s, keys), key) == value_of(s, key),
    decreases s.len(),
{
    reveal(Seq::filter);
    let keep = |e: (Seq<char>, V)| !keys.contains(e.0);
    let t = without_keys(s, keys);
    if s.len() == 0 {
        assert(t =~= s);
    } else {
        let front = s.drop_last();
        let last = s.last();
        let tf = without_keys(front, keys);
        assert(distinct_keys(front)) by {
            assert forall|a: int, b: int|
                0 <= a < front.len() && 0 <= b < front.len() && a != b implies (
            #[trigger] front[a]).0 != (#[trigger] front[b]).0 by {
                assert(s[a].0 != s[b].0);
            }
        }
        lemma_without_keys(front, keys);
        assert(!has_key(front, last.0)) by {
            if has_key(front, last.0) {
                let a = index_of_key(front, last.0);
                assert(s[a].0 == s[s.len() - 1].0);
            }
        }
        assert forall|key: Seq<char>| has_key(s, key) == (has_key(front, key) || key == last.0) by {
            if has_key(front, key) {
                let a = index_of_key(front, key);
                assert(s[a].0 == key);
            }
            if key == last.0 {
                assert(s[s.len() - 1].0 == key);
            }
            if has_key(s, key) {
                let a = index_of_key(s, key);
                if a < s.len() - 1 {
                    assert(front[a].0 == key);
                }
            }
        }
        assert forall|key: Seq<char>| has_key(front, key) implies value_of(front, key) == value_of(
            s,
            key,
        ) by {
            let a = index_of_key(front, key);
            assert(s[a] == front[a]);
            lemma_index_of_key(s, key, a);
        }
        if keep(last) {
            assert(t == tf.push(last));
            let n = tf.len() as int;
            assert(t[n] == last);
            assert forall|a: int, b: int| 0 <= a < t.len() && 0 <= b < t.len() && a != b implies (
            #[trigger] t[a]).0 != (#[trigger] t[b]).0 by {
                if a < n {
                    assert(tf[a].0 == t[a].0);
                }
                if b < n {
                    assert(tf[b].0 == t[b].0);
                }
            }
            assert forall|key: Seq<char>|
                has_key(t, key) == (has_key(tf, key) || key == last.0) by {
                if has_key(tf, key) {
                    let a = index_of_key(tf, key);
                    assert(t[a].0 == key);
                }
                if has_key(t, key) {
                    let a = index_of_key(t, key);
                    if a < n {
                        assert(tf[a].0 == key);
                    }
                }
            }
            lemma_index_of_key(t, last.0, n);
            lemma_index_of_key(s, last.0, s.len() - 1);
            assert forall|key: Seq<char>| has_key(tf, key) implies value_of(tf, key) == value_of(
                t,
                key,
            ) by {
                let a = index_of_key(tf, key);
                assert(t[a] == tf[a]);
                lemma_index_of_key(t, key, a);
            }
        } else {
            assert(t == tf);
        }
    }
}

/// Entries of a table as they are stored.
#[derive(Debug)]
struct Entry<V> {
    key: String,
    value: V,
}

/// A table from peer id to `V`.
#[derive(Debug)]
pub struct Table<V> {
    entries: Vec<Entry<V>>,
}

impl<V> View for Table<V> {
    type V = Seq<(Seq<char>, V)>;

    /// The entries as pairs of key and value, in the order of the table.
    closed spec fn view(&self) -> Seq<(Seq<char>, V)> {
        Seq::new(self.entries@.len(), |i: int| (self.entries@[i].key@, self.entries@[i].value))
    }
}

impl<V> Table<V> {
    /// The table is well formed: no key occurs twice.
    pub open spec fn wf(&self) -> bool {
        distinct_keys(self@)
    }

    /// An empty table.
    pub fn new() -> (out: Self)
        ensures
            out.wf(),
            out@ == Seq::<(Seq<char>, V)>::empty(),
    {
        let out = Table { entries: Vec::new() };
        assert(out@ =~= Seq::<(Seq<char>, V)>::empty());
        out
    }

    /// The number of entries.
    pub fn len(&self) -> (out: usize)
        ensures
            out == self@.len(),
    {
        self.entries.len()
    }

    /// Where the key is stored, if it is.
    pub fn position(&self, key: &str) -> (out: Option<usize>)
        requires
            self.wf(),
        ensures
            match out {
                Some(i) => i < self@.len() && self@[i as int].0 == key@ && has_key(self@, key@)
                    && index_of_key(self@, key@) == i,
                None => !has_key(self@, key@),
            },
    {
        let mut i: usize = 0;
        while i < self.entries.len()
            invariant
                0 <= i <= self.entries@.len(),
                self@.len() == self.entries@.len(),
                distinct_keys(self@),
                forall|j: int| 0 <= j < i ==> (#[trigger] self@[j]).0 != key@,
            decreases self.entries@.len() - i,
        {
            if same_text(self.entries[i].key.as_str(), key) {
                proof {
                    lemma_index_of_key(self@, key@, i as int);
                }
                return Some(i);
            }
            i += 1;
        }
        None
    }

    /// Whether the key is stored.
    pub fn contains_key(&self, key: &str) -> (out: bool)
        requires
            self.wf(),
        ensures
            out == has_key(self@, key@),
    {
        self.position(key).is_some()
    }

    /// The value stored under the key.
    pub fn get(&self, key: &str) -> (out: Option<&V>)
        requires
            self.wf(),
        ensures
            match out {
                Some(value) => Some(*value) == value_of(self@, key@),
                None => value_of(self@, key@) is None,
            },
    {
        match self.position(key) {
            Some(i) => Some(&self.entries[i].value),
            None => None,
        }
    }

    /// The key of the entry at `i`.
    pub fn key_at(&self, i: usize) -> (out: &String)
        requires
            i < self@.len(),
        ensures
            out@ == self@[i as int].0,
    {
        &self.entries[i].key
    }

    /// The value of the entry at `i`.
    pub fn value_at(&self, i: usize) -> (out: &V)
        requires
            i < self@.len(),
        ensures
            *out == self@[i as int].1,
    {
        &self.entries[i].value
    }

    /// Stores the value under the key and hands back the value that it replaces.
    /// A key that is new goes to the end of the table.
    pub fn insert(&mut self, key: String, value: V) -> (out: Option<V>)
        requires
            old(self).wf(),
        ensures
            final(self).wf(),
            final(self)@ == with_entry(old(self)@, key@, value),
            out == value_of(old(self)@, key@),
    {
        let found = self.position(key.as_str());
        match found {
            Some(i) => {
                let previous = self.entries.remove(i);
                proof {
                    lemma_remove_at(old(self)@, i as int);
                    assert(self@ =~= old(self)@.remove(i as int));
                }
                self.entries.insert(i, Entry { key, value });
                proof {
                    lemma_with_entry(old(self)@, key@, value);
                    assert(self@ =~= with_entry(old(self)@, key@, value));
                }
                Some(previous.value)
            },
            None => {
                self.entries.push(Entry { key, value });
                proof {
                    lemma_with_entry(old(self)@, key@, value);
                    assert(self@ =~= with_entry(old(self)@, key@, value));
                }
                None
            },
        }
    }

    /// Replaces the value of the entry at `i`.
    pub fn set_value_at(&mut self, i: usize, value: V)
        requires
            old(self).wf(),
            i < old(self)@.len(),
        ensures
            final(self).wf(),
            final(self)@ == old(self)@.update(i as int, (old(self)@[i as int].0, value)),
    {
        let previous = self.entries.remove(i);
        proof {
            lemma_remove_at(old(self)@, i as int);
            assert(self@ =~= old(self)@.remove(i as int));
        }
        let ghost key = previous.key@;
        self.entries.insert(i, Entry { key: previous.key, value });
        proof {
            lemma_index_of_key(old(self)@, key, i as int);
            lemma_with_entry(old(self)@, key, value);
            assert(self@ =~= old(self)@.update(i as int, (key, value)));
        }
    }

    /// Takes the entry under the key out and hands back its value.
    pub fn remove(&mut self, key: &str) -> (out: Option<V>)
        requires
            old(self).wf(),
        ensures
            final(self).wf(),
            final(self)@ == without_key(old(self)@, key@),
            out == value_of(old(self)@, key@),
    {
        match self.position(key) {
            Some(i) => {
                let previous = self.entries.remove(i);
                proof {
                    lemma_remove_at(old(self)@, i as int);
                    assert(self@ =~= old(self)@.remove(i as int));
                }
                Some(previous.value)
            },
            None => None,
        }
    }

    /// Takes out every entry whose key is in the list.
    pub fn remove_all(&mut self, keys: &Vec<String>)
        requires
            old(self).wf(),
        ensures
            final(self).wf(),
            final(self)@ == without_keys(old(self)@, texts(keys@)),
    {
        let ghost drop = texts(keys@);
        let ghost keep = |e: (Seq<char>, V)| !drop.contains(e.0);
        let ghost before = old(self)@;
        let ghost mut done: int = 0;
        let mut i: usize = 0;
        proof {
            reveal(Seq::filter);
            assert(before.take(0).filter(keep) =~= Seq::<(Seq<char>, V)>::empty());
            assert(before.skip(0) =~= before);
        }
        while i < self.entries.len()
            invariant
                0 <= done <= before.len(),
                distinct_keys(self@),
                self@.len() == self.entries@.len(),
                i == before.take(done).filter(keep).len(),
                self@ == before.take(done).filter(keep) + before.skip(done),
                drop == texts(keys@),
                keep == |e: (Seq<char>, V)| !drop.contains(e.0),
            decreases before.len() - done,
        {
            let listed = Self::lists(keys, self.entries[i].key.as_str());
            proof {
                reveal(Seq::filter);
                assert(self@[i as int] == before[done]);
                assert(before.take(done + 1).drop_last() =~= before.take(done));
                assert(before.take(done + 1).last() == before[done]);
            }
            if listed {
                let ghost current = self@;
                self.entries.remove(i);
                proof {
                    lemma_remove_at(current, i as int);
                    assert(self@ =~= current.remove(i as int));
                    assert(self@ =~= before.take(done + 1).filter(keep) + before.skip(done + 1));
                }
            } else {
                proof {
                    assert(self@ =~= before.take(done + 1).filter(keep) + before.skip(done + 1));
                }
                i += 1;
            }
            proof {
                done = done + 1;
            }
        }
        proof {
            assert(before.skip(done) =~= Seq::<(Seq<char>, V)>::empty());
            assert(before.take(done) =~= before);
        }
    }

    /// Whether the list holds the key.
    fn lists(keys: &Vec<String>, key: &str) -> (out: bool)
        ensures
            out == texts(keys@).contains(key@),
    {
        let mut i: usize = 0;
        while i < keys.len()
            invariant
                0 <= i <= keys@.len(),
                forall|j: int| 0 <= j < i ==> texts(keys@)[j] != key@,
            decreases keys@.len() - i,
        {
            if same_text(keys[i].as_str(), key) {
                assert(texts(keys@)[i as int] == key@);
                return true;
            }
            i += 1;
        }
        false
    }

    /// The keys, in the order of the table.
    pub fn keys(&self) -> (out: Vec<String>)
        ensures
            texts(out@) == keys_of(self@),
    {
        let mut out: Vec<String> = Vec::new();
        let mut i: usize = 0;
        while i < self.entries.len()
            invariant
                0 <= i <= self.entries@.len(),
                self@.len() == self.entries@.len(),
                out@.len() == i,
                forall|j: int| 0 <= j < i ==> (#[trigger] out@[j])@ == self@[j].0,
            decreases self.entries@.len() - i,
        {
            out.push(self.entries[i].key.clone());
            i += 1;
        }
        assert(texts(out@) =~= keys_of(self@));
        out
    }
}

} // verus!
