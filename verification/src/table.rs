//! A table from texts to values.

use vstd::prelude::*;

use crate::text::{same_text, to_chars};

verus! {

/// A table from texts to values. Each key stands in it at most once.
#[derive(Debug, Clone)]
pub struct Table<V> {
    entries: Vec<(String, V)>,
}

/// The keys of entries are pairwise different.
pub open spec fn unique_keys<V>(s: Seq<(String, V)>) -> bool {
    forall|i: int, j: int|
        0 <= i < s.len() && 0 <= j < s.len() && i != j ==> (#[trigger] s[i]).0@ != (
        #[trigger] s[j]).0@
}

/// Whether a key stands among entries.
pub open spec fn has_key<V>(s: Seq<(String, V)>, key: Seq<char>) -> bool {
    exists|i: int| 0 <= i < s.len() && (#[trigger] s[i]).0@ == key
}

/// The value of a key among entries.
pub open spec fn value_of<V>(s: Seq<(String, V)>, key: Seq<char>) -> V {
    s[choose|i: int| 0 <= i < s.len() && (#[trigger] s[i]).0@ == key].1
}

/// Entries as a map.
pub open spec fn entries_map<V>(s: Seq<(String, V)>) -> Map<Seq<char>, V> {
    Map::new(|key: Seq<char>| has_key(s, key), |key: Seq<char>| value_of(s, key))
}

proof fn lemma_value_at<V>(s: Seq<(String, V)>, i: int)
    requires
        unique_keys(s),
        0 <= i < s.len(),
    ensures
        has_key(s, s[i].0@),
        value_of(s, s[i].0@) == s[i].1,
{
    let k = s[i].0@;
    assert(s[i].0@ == k);
    let j = choose|j: int| 0 <= j < s.len() && (#[trigger] s[j]).0@ == k;
    assert(i == j);
}

/// Whether one text comes before another, or is equal to it, by the order of their characters.
pub open spec fn text_le(a: Seq<char>, b: Seq<char>) -> bool
    decreases a.len(),
{
    if a.len() == 0 {
        true
    } else if b.len() == 0 {
        false
    } else if a[0] != b[0] {
        a[0] < b[0]
    } else {
        text_le(a.drop_first(), b.drop_first())
    }
}

/// The order of texts is total.
pub proof fn lemma_text_le_total(a: Seq<char>, b: Seq<char>)
    ensures
        text_le(a, b) || text_le(b, a),
        text_le(a, b) && text_le(b, a) ==> a == b,
    decreases a.len(),
{
    if a.len() > 0 && b.len() > 0 && a[0] == b[0] {
        lemma_text_le_total(a.drop_first(), b.drop_first());
        if text_le(a, b) && text_le(b, a) {
            assert(a =~= seq![a[0]] + a.drop_first());
            assert(b =~= seq![b[0]] + b.drop_first());
        }
    } else if a.len() == 0 && b.len() == 0 {
        assert(a =~= b);
    }
}

/// The order of texts is transitive.
pub proof fn lemma_text_le_transitive(a: Seq<char>, b: Seq<char>, c: Seq<char>)
    requires
        text_le(a, b),
        text_le(b, c),
    ensures
        text_le(a, c),
    decreases a.len(),
{
    if a.len() > 0 && b.len() > 0 && c.len() > 0 && a[0] == b[0] && b[0] == c[0] {
        lemma_text_le_transitive(a.drop_first(), b.drop_first(), c.drop_first());
    }
}

/// Decides `text_le`.
pub fn text_at_most(a: &str, b: &str) -> (r: bool)
    ensures
        r == text_le(a@, b@),
{
    let av = to_chars(a);
    let bv = to_chars(b);
    let mut i: usize = 0;
    assert(a@.skip(0) =~= a@);
    assert(b@.skip(0) =~= b@);
    while i < av.len() && i < bv.len() && av[i] == bv[i]
        invariant
            av@ == a@,
            bv@ == b@,
            i <= av.len(),
            i <= bv.len(),
            text_le(a@, b@) == text_le(a@.skip(i as int), b@.skip(i as int)),
        decreases av.len() - i,
    {
        proof {
            let x = a@.skip(i as int);
            let y = b@.skip(i as int);
            assert(x.drop_first() =~= a@.skip(i + 1));
            assert(y.drop_first() =~= b@.skip(i + 1));
        }
        i = i + 1;
    }
    if i >= av.len() {
        true
    } else if i >= bv.len() {
        false
    } else {
        av[i] < bv[i]
    }
}

/// Texts are in ascending order, none of them twice.
pub open spec fn sorted_texts(s: Seq<String>) -> bool {
    forall|i: int, j: int|
        0 <= i < j < s.len() ==> text_le((#[trigger] s[i])@, (#[trigger] s[j])@) && s[i]@ != s[j]@
}

impl<V> View for Table<V> {
    type V = Map<Seq<char>, V>;

    closed spec fn view(&self) -> Map<Seq<char>, V> {
        entries_map(self.entries@)
    }
}

impl<V> Table<V> {
    /// Each key stands in the table at most once.
    pub closed spec fn valid(&self) -> bool {
        unique_keys(self.entries@)
    }

    /// A table without entries.
    pub fn new() -> (r: Self)
        ensures
            r.valid(),
            r@ == Map::<Seq<char>, V>::empty(),
    {
        let r = Table { entries: Vec::new() };
        assert(r@ =~= Map::<Seq<char>, V>::empty());
        r
    }

    fn position(&self, key: &str) -> (r: Option<usize>)
        requires
            self.valid(),
        ensures
            match r {
                Some(i) => i < self.entries@.len() && self.entries@[i as int].0@ == key@
                    && self@.dom().contains(key@) && self@[key@] == self.entries@[i as int].1,
                None => !self@.dom().contains(key@),
            },
    {
        let mut i: usize = 0;
        while i < self.entries.len()
            invariant
                i <= self.entries.len(),
                self.valid(),
                forall|j: int| 0 <= j < i ==> (#[trigger] self.entries@[j]).0@ != key@,
            decreases self.entries.len() - i,
        {
            if same_text(self.entries[i].0.as_str(), key) {
                proof {
                    lemma_value_at(self.entries@, i as int);
                }
                return Some(i);
            }
            i = i + 1;
        }
        None
    }

    /// Whether a key is in the table.
    pub fn contains_key(&self, key: &str) -> (r: bool)
        requires
            self.valid(),
        ensures
            r == self@.dom().contains(key@),
    {
        self.position(key).is_some()
    }

    /// The value of a key.
    pub fn get(&self, key: &str) -> (r: Option<&V>)
        requires
            self.valid(),
        ensures
            match r {
                Some(v) => self@.dom().contains(key@) && *v == self@[key@],
                None => !self@.dom().contains(key@),
            },
    {
        match self.position(key) {
            Some(i) => Some(&self.entries[i].1),
            None => None,
        }
    }

    /// Takes a key and its value out.
    pub fn remove(&mut self, key: &str) -> (r: Option<V>)
        requires
            old(self).valid(),
        ensures
            final(self).valid(),
            final(self)@ == old(self)@.remove(key@),
            match r {
                Some(v) => old(self)@.dom().contains(key@) && v == old(self)@[key@],
                None => !old(self)@.dom().contains(key@),
            },
    {
        let ghost before = self.entries@;
        match self.position(key) {
            Some(i) => {
                let entry = self.entries.remove(i);
                proof {
                    lemma_removed(before, i as int);
                    assert(self@ =~= old(self)@.remove(key@));
                }
                Some(entry.1)
            },
            None => {
                assert(self@ =~= old(self)@.remove(key@));
                None
            },
        }
    }

    /// Sets the value of a key, in place of the one that it had.
    pub fn insert(&mut self, key: String, value: V)
        requires
            old(self).valid(),
        ensures
            final(self).valid(),
            final(self)@ == old(self)@.insert(key@, value),
    {
        self.remove(key.as_str());
        let ghost before = self.entries@;
        let ghost k = key@;
        self.entries.push((key, value));
        proof {
            assert(!old(self)@.remove(k).dom().contains(k));
            assert(!has_key(before, k));
            lemma_added(before, self.entries@.last());
            assert(self@ =~= old(self)@.insert(k, value));
        }
    }

    /// The value of a key, to be changed in place.
    pub fn get_mut(&mut self, key: &str) -> (r: Option<&mut V>)
        requires
            old(self).valid(),
        ensures
            final(self).valid(),
            match r {
                Some(v) => old(self)@.dom().contains(key@) && *v == old(self)@[key@]
                    && final(self)@ == old(self)@.insert(key@, *final(v)),
                None => !old(self)@.dom().contains(key@) && final(self)@ == old(self)@,
            },
    {
        match self.position(key) {
            Some(i) => {
                let ghost before = self.entries@;
                proof {
                    lemma_updated(before, i as int);
                }
                Some(&mut self.entries[i].1)
            },
            None => None,
        }
    }

    /// The number of entries.
    pub fn len(&self) -> (r: usize)
        requires
            self.valid(),
        ensures
            r == self@.len(),
    {
        proof {
            lemma_map_len(self.entries@);
        }
        self.entries.len()
    }

    /// The keys in ascending order.
    pub fn sorted_keys(&self) -> (r: Vec<String>)
        requires
            self.valid(),
        ensures
            sorted_texts(r@),
            forall|k: Seq<char>|
                self@.dom().contains(k) <==> crate::text::strings_view(r@).contains(k),
    {
        let mut out: Vec<String> = Vec::new();
        let mut i: usize = 0;
        while i < self.entries.len()
            invariant
                i <= self.entries.len(),
                self.valid(),
                sorted_texts(out@),
                forall|k: Seq<char>|
                    #![trigger crate::text::strings_view(out@).contains(k)]
                    crate::text::strings_view(out@).contains(k) <==> exists|j: int|
                        0 <= j < i && (#[trigger] self.entries@[j]).0@ == k,
            decreases self.entries.len() - i,
        {
            let ghost before = crate::text::strings_view(out@);
            let key: String = self.entries[i].0.clone();
            let ghost k = key@;
            proof {
                assert(!before.contains(k)) by {
                    if before.contains(k) {
                        let j = choose|j: int| 0 <= j < i && (#[trigger] self.entries@[j]).0@ == k;
                        assert(self.entries@[j].0@ != self.entries@[i as int].0@);
                    }
                }
            }
            insert_sorted(&mut out, key);
            proof {
                let now = crate::text::strings_view(out@);
                assert forall|x: Seq<char>|
                    #![trigger now.contains(x)]
                    now.contains(x) <==> exists|j: int|
                        0 <= j < i + 1 && (#[trigger] self.entries@[j]).0@ == x by {
                    if now.contains(x) {
                        if x == k {
                            assert(self.entries@[i as int].0@ == x);
                        } else {
                            assert(before.contains(x));
                            let j = choose|j: int|
                                0 <= j < i && (#[trigger] self.entries@[j]).0@ == x;
                            assert(self.entries@[j].0@ == x);
                        }
                    }
                    if exists|j: int| 0 <= j < i + 1 && (#[trigger] self.entries@[j]).0@ == x {
                        let j = choose|j: int|
                            0 <= j < i + 1 && (#[trigger] self.entries@[j]).0@ == x;
                        if j < i {
                            assert(before.contains(x));
                        }
                    }
                }
            }
            i = i + 1;
        }
        proof {
            assert forall|k: Seq<char>|
                self@.dom().contains(k) <==> crate::text::strings_view(out@).contains(k) by {
                assert(self@.dom().contains(k) <==> has_key(self.entries@, k));
            }
        }
        out
    }

    /// Gives every key a new value, made from its old one.
    pub fn update_all<F: Fn(&V) -> V>(&mut self, f: F)
        requires
            old(self).valid(),
            forall|v: &V| call_requires(f, (v,)),
        ensures
            final(self).valid(),
            final(self)@.dom() == old(self)@.dom(),
            forall|k: Seq<char>|
                old(self)@.dom().contains(k) ==> call_ensures(
                    f,
                    (&old(self)@[k],),
                    #[trigger] final(self)@[k],
                ),
    {
        let ghost before = self.entries@;
        let mut i: usize = 0;
        while i < self.entries.len()
            invariant
                i <= self.entries@.len(),
                before == old(self).entries@,
                self.entries@.len() == before.len(),
                forall|v: &V| call_requires(f, (v,)),
                forall|j: int|
                    0 <= j < before.len() ==> (#[trigger] self.entries@[j]).0 == before[j].0,
                forall|j: int|
                    0 <= j < i ==> call_ensures(
                        f,
                        (&before[j].1,),
                        (#[trigger] self.entries@[j]).1,
                    ),
                forall|j: int| i <= j < before.len() ==> #[trigger] self.entries@[j] == before[j],
            decreases self.entries.len() - i,
        {
            let key: String = self.entries[i].0.clone();
            let value: V = f(&self.entries[i].1);
            self.entries.set(i, (key, value));
            i = i + 1;
        }
        proof {
            let after = self.entries@;
            assert(unique_keys(after)) by {
                assert forall|a: int, b: int|
                    0 <= a < after.len() && 0 <= b < after.len() && a != b implies (
                #[trigger] after[a]).0@ != (#[trigger] after[b]).0@ by {
                    assert(before[a].0@ != before[b].0@);
                }
            }
            assert forall|k: Seq<char>| has_key(after, k) <==> has_key(before, k) by {
                if has_key(before, k) {
                    let j = choose|j: int| 0 <= j < before.len() && (#[trigger] before[j]).0@ == k;
                    assert(after[j].0@ == k);
                }
                if has_key(after, k) {
                    let j = choose|j: int| 0 <= j < after.len() && (#[trigger] after[j]).0@ == k;
                    assert(before[j].0@ == k);
                }
            }
            assert(self@.dom() =~= old(self)@.dom());
            assert forall|k: Seq<char>| old(self)@.dom().contains(k) implies call_ensures(
                f,
                (&old(self)@[k],),
                #[trigger] self@[k],
            ) by {
                let j = choose|j: int| 0 <= j < before.len() && (#[trigger] before[j]).0@ == k;
                lemma_value_at(before, j);
                assert(after[j].0@ == k);
                lemma_value_at(after, j);
            }
        }
    }

    /// Takes every entry out.
    pub fn clear(&mut self)
        ensures
            final(self).valid(),
            final(self)@ == Map::<Seq<char>, V>::empty(),
    {
        self.entries = Vec::new();
        assert(self@ =~= Map::<Seq<char>, V>::empty());
    }
}

/// Puts a text where it belongs in an ascending list that does not have it.
fn insert_sorted(list: &mut Vec<String>, key: String)
    requires
        sorted_texts(old(list)@),
        !crate::text::strings_view(old(list)@).contains(key@),
    ensures
        sorted_texts(final(list)@),
        forall|k: Seq<char>|
            crate::text::strings_view(final(list)@).contains(k) <==> k == key@
                || crate::text::strings_view(old(list)@).contains(k),
{
    let ghost before = list@;
    let ghost texts = crate::text::strings_view(before);
    let mut p: usize = 0;
    while p < list.len() && !text_at_most(key.as_str(), list[p].as_str())
        invariant
            p <= list.len(),
            list@ == before,
            forall|j: int| 0 <= j < p ==> !text_le(key@, (#[trigger] before[j])@),
        decreases list.len() - p,
    {
        p = p + 1;
    }
    let ghost k = key@;
    list.insert(p, key);
    proof {
        let after = list@;
        assert(after == before.insert(p as int, after[p as int]));
        assert forall|j: int| 0 <= j < before.len() implies (#[trigger] before[j])@ != k by {
            assert(texts[j] == before[j]@);
        }
        assert forall|j: int| 0 <= j < p implies text_le((#[trigger] before[j])@, k) by {
            lemma_text_le_total(before[j]@, k);
        }
        assert forall|j: int| p <= j < before.len() implies text_le(k, (#[trigger] before[j])@) by {
            if j > p {
                assert(text_le(before[p as int]@, before[j]@));
                lemma_text_le_transitive(k, before[p as int]@, before[j]@);
            }
        }
        assert forall|i: int, j: int| 0 <= i < j < after.len() implies text_le(
            (#[trigger] after[i])@,
            (#[trigger] after[j])@,
        ) && after[i]@ != after[j]@ by {
            let a = if i < p {
                i
            } else {
                i - 1
            };
            let b = if j < p {
                j
            } else {
                j - 1
            };
            if i != p {
                assert(after[i] == before[a]);
            }
            if j != p {
                assert(after[j] == before[b]);
            }
        }
        let now = crate::text::strings_view(after);
        assert forall|x: Seq<char>| now.contains(x) <==> x == k || texts.contains(x) by {
            if now.contains(x) {
                let i = choose|i: int| 0 <= i < now.len() && now[i] == x;
                if i < p {
                    assert(texts[i] == x);
                } else if i > p {
                    assert(texts[i - 1] == x);
                }
            }
            if x == k {
                assert(now[p as int] == x);
            }
            if texts.contains(x) {
                let i = choose|i: int| 0 <= i < texts.len() && texts[i] == x;
                if i < p {
                    assert(now[i] == x);
                } else {
                    assert(now[i + 1] == x);
                }
            }
        }
    }
}

proof fn lemma_removed<V>(s: Seq<(String, V)>, i: int)
    requires
        unique_keys(s),
        0 <= i < s.len(),
    ensures
        unique_keys(s.remove(i)),
        entries_map(s.remove(i)) == entries_map(s).remove(s[i].0@),
{
    let t = s.remove(i);
    let k = s[i].0@;
    assert(unique_keys(t));
    assert forall|key: Seq<char>| has_key(t, key) <==> has_key(s, key) && key != k by {
        if has_key(t, key) {
            let j = choose|j: int| 0 <= j < t.len() && (#[trigger] t[j]).0@ == key;
            let m = if j < i {
                j
            } else {
                j + 1
            };
            assert(s[m].0@ == key);
            assert(s[i].0@ != s[m].0@);
        }
        if has_key(s, key) && key != k {
            let j = choose|j: int| 0 <= j < s.len() && (#[trigger] s[j]).0@ == key;
            let m = if j < i {
                j
            } else {
                j - 1
            };
            assert(t[m].0@ == key);
        }
    }
    assert forall|key: Seq<char>| has_key(t, key) implies value_of(t, key) == value_of(s, key) by {
        let j = choose|j: int| 0 <= j < t.len() && (#[trigger] t[j]).0@ == key;
        let m = if j < i {
            j
        } else {
            j + 1
        };
        assert(s[m] == t[j]);
        lemma_value_at(t, j);
        lemma_value_at(s, m);
    }
    assert(entries_map(t) =~= entries_map(s).remove(k));
}

proof fn lemma_added<V>(s: Seq<(String, V)>, e: (String, V))
    requires
        unique_keys(s),
        !has_key(s, e.0@),
    ensures
        unique_keys(s.push(e)),
        entries_map(s.push(e)) == entries_map(s).insert(e.0@, e.1),
{
    let t = s.push(e);
    let k = e.0@;
    let n = s.len() as int;
    assert(t[n] == e);
    assert forall|i: int, j: int| 0 <= i < t.len() && 0 <= j < t.len() && i != j implies (
    #[trigger] t[i]).0@ != (#[trigger] t[j]).0@ by {
        if i < n && j < n {
            assert(s[i].0@ != s[j].0@);
        } else if i < n {
            assert(s[i].0@ != k);
        } else {
            assert(s[j].0@ != k);
        }
    }
    assert forall|key: Seq<char>| has_key(t, key) <==> has_key(s, key) || key == k by {
        if has_key(s, key) {
            let j = choose|j: int| 0 <= j < s.len() && (#[trigger] s[j]).0@ == key;
            assert(t[j].0@ == key);
        }
        if has_key(t, key) && key != k {
            let j = choose|j: int| 0 <= j < t.len() && (#[trigger] t[j]).0@ == key;
            assert(s[j].0@ == key);
        }
    }
    lemma_value_at(t, n);
    assert forall|key: Seq<char>| has_key(s, key) implies value_of(t, key) == value_of(s, key) by {
        let j = choose|j: int| 0 <= j < s.len() && (#[trigger] s[j]).0@ == key;
        assert(t[j] == s[j]);
        lemma_value_at(t, j);
        lemma_value_at(s, j);
    }
    assert(entries_map(t) =~= entries_map(s).insert(k, e.1));
}

proof fn lemma_updated<V>(s: Seq<(String, V)>, i: int)
    requires
        unique_keys(s),
        0 <= i < s.len(),
    ensures
        forall|v: V|
            #![trigger s.update(i, (s[i].0, v))]
            unique_keys(s.update(i, (s[i].0, v))) && entries_map(s.update(i, (s[i].0, v)))
                == entries_map(s).insert(s[i].0@, v),
{
    let k = s[i].0@;
    assert forall|v: V|
        #![trigger s.update(i, (s[i].0, v))]
        unique_keys(s.update(i, (s[i].0, v))) && entries_map(s.update(i, (s[i].0, v)))
            == entries_map(s).insert(k, v) by {
        let t = s.update(i, (s[i].0, v));
        assert forall|j: int| 0 <= j < s.len() implies (#[trigger] t[j]).0 == s[j].0 by {}
        assert forall|a: int, b: int|
            0 <= a < t.len() && 0 <= b < t.len() && a != b implies (#[trigger] t[a]).0@ != (
        #[trigger] t[b]).0@ by {
            assert(s[a].0@ != s[b].0@);
        }
        assert forall|key: Seq<char>| has_key(t, key) <==> has_key(s, key) by {
            if has_key(s, key) {
                let j = choose|j: int| 0 <= j < s.len() && (#[trigger] s[j]).0@ == key;
                assert(t[j].0@ == key);
            }
            if has_key(t, key) {
                let j = choose|j: int| 0 <= j < t.len() && (#[trigger] t[j]).0@ == key;
                assert(s[j].0@ == key);
            }
        }
        lemma_value_at(s, i);
        lemma_value_at(t, i);
        assert forall|key: Seq<char>| has_key(s, key) && key != k implies value_of(t, key)
            == value_of(s, key) by {
            let j = choose|j: int| 0 <= j < s.len() && (#[trigger] s[j]).0@ == key;
            assert(j != i);
            assert(t[j] == s[j]);
            lemma_value_at(t, j);
            lemma_value_at(s, j);
        }
        assert(entries_map(t) =~= entries_map(s).insert(k, v));
    }
}

proof fn lemma_map_len<V>(s: Seq<(String, V)>)
    requires
        unique_keys(s),
    ensures
        entries_map(s).dom().finite(),
        entries_map(s).len() == s.len(),
    decreases s.len(),
{
    if s.len() == 0 {
        assert(entries_map(s).dom() =~= Set::empty());
    } else {
        let t = s.drop_last();
        let e = s.last();
        assert(s =~= t.push(e));
        assert forall|i: int, j: int| 0 <= i < t.len() && 0 <= j < t.len() && i != j implies (
        #[trigger] t[i]).0@ != (#[trigger] t[j]).0@ by {
            assert(s[i].0@ != s[j].0@);
        }
        assert(!has_key(t, e.0@)) by {
            if has_key(t, e.0@) {
                let j = choose|j: int| 0 <= j < t.len() && (#[trigger] t[j]).0@ == e.0@;
                assert(s[j].0@ != s[s.len() - 1].0@);
            }
        }
        lemma_map_len(t);
        lemma_added(t, e);
        assert(entries_map(s).dom() =~= entries_map(t).dom().insert(e.0@));
    }
}

/// One text comes before another, or is equal to it, exactly when it is the front of the other, or
/// has the lesser character at the first place where they differ.
pub proof fn law_text_order(a: Seq<char>, b: Seq<char>)
    ensures
        text_le(a, b) <==> exists|k: int|
            {
                &&& 0 <= k <= a.len()
                &&& k <= b.len()
                &&& #[trigger] a.take(k) == b.take(k)
                &&& k == a.len() || (k < b.len() && a[k] < b[k])
            },
    decreases a.len(),
{
    if a.len() == 0 {
        assert(a.take(0) =~= b.take(0));
    } else if b.len() == 0 {
    } else if a[0] != b[0] {
        assert(a.take(0) =~= b.take(0));
        if exists|k: int|
            {
                &&& 0 <= k <= a.len()
                &&& k <= b.len()
                &&& #[trigger] a.take(k) == b.take(k)
                &&& k == a.len() || (k < b.len() && a[k] < b[k])
            } {
            let k = choose|k: int|
                {
                    &&& 0 <= k <= a.len()
                    &&& k <= b.len()
                    &&& #[trigger] a.take(k) == b.take(k)
                    &&& k == a.len() || (k < b.len() && a[k] < b[k])
                };
            if k > 0 {
                assert(a.take(k)[0] == b.take(k)[0]);
            }
        }
    } else {
        let s = a.drop_first();
        let t = b.drop_first();
        law_text_order(s, t);
        if text_le(s, t) {
            let k = choose|k: int|
                {
                    &&& 0 <= k <= s.len()
                    &&& k <= t.len()
                    &&& #[trigger] s.take(k) == t.take(k)
                    &&& k == s.len() || (k < t.len() && s[k] < t[k])
                };
            let m = k + 1;
            assert forall|i: int| 0 <= i < m implies a.take(m)[i] == b.take(m)[i] by {
                if i > 0 {
                    assert(s.take(k)[i - 1] == t.take(k)[i - 1]);
                }
            }
            assert(a.take(m) =~= b.take(m));
        }
        if exists|k: int|
            {
                &&& 0 <= k <= a.len()
                &&& k <= b.len()
                &&& #[trigger] a.take(k) == b.take(k)
                &&& k == a.len() || (k < b.len() && a[k] < b[k])
            } {
            let k = choose|k: int|
                {
                    &&& 0 <= k <= a.len()
                    &&& k <= b.len()
                    &&& #[trigger] a.take(k) == b.take(k)
                    &&& k == a.len() || (k < b.len() && a[k] < b[k])
                };
            let m = k - 1;
            assert forall|i: int| 0 <= i < m implies s.take(m)[i] == t.take(m)[i] by {
                assert(a.take(k)[i + 1] == b.take(k)[i + 1]);
            }
            assert(s.take(m) =~= t.take(m));
        }
    }
}

/// Names in ascending order are all different, and each is before every later one.
pub proof fn law_sorted_names(s: Seq<String>, i: int, j: int)
    requires
        sorted_texts(s),
        0 <= i < j < s.len(),
    ensures
        s[i]@ != s[j]@,
        text_le(s[i]@, s[j]@),
        !text_le(s[j]@, s[i]@),
{
    lemma_text_le_total(s[i]@, s[j]@);
}

/// Entries with different keys are found by their keys: each key has the value of its entry, and no
/// other key has one.
pub proof fn law_entries_are_found<V>(s: Seq<(String, V)>, i: int, key: Seq<char>)
    requires
        unique_keys(s),
        0 <= i < s.len(),
    ensures
        entries_map(s).dom().contains(s[i].0@),
        entries_map(s)[s[i].0@] == s[i].1,
        (forall|k: int| 0 <= k < s.len() ==> (#[trigger] s[k]).0@ != key) ==> !entries_map(
            s,
        ).dom().contains(key),
{
    lemma_value_at(s, i);
}

} // verus!
