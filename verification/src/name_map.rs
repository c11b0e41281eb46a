//! A map from names to values that keeps its entries ordered by name, as a
//! `BTreeMap<String, V>` does: iteration, the first value and the list of
//! names all follow the order of `str`, which is the order of the names'
//! characters by code point.

use vstd::prelude::*;
use crate::text::{chars_of, views};

verus! {

// ---------------------------------------------------------------------------
// The order of names
// ---------------------------------------------------------------------------

/// `a < b` for strings: lexicographic by code point, a proper prefix first.
/// (UTF-8 keeps code point order, so this is also the byte order `str` uses.)
pub open spec fn str_less(a: Seq<char>, b: Seq<char>) -> bool
    decreases a.len(),
{
    if a.len() == 0 {
        b.len() > 0
    } else if b.len() == 0 {
        false
    } else if a[0] != b[0] {
        (a[0] as u32) < (b[0] as u32)
    } else {
        str_less(a.drop_first(), b.drop_first())
    }
}

/// `a <= b` for strings.
pub open spec fn str_le(a: Seq<char>, b: Seq<char>) -> bool {
    a == b || str_less(a, b)
}

pub proof fn lemma_str_less_irreflexive(a: Seq<char>)
    ensures
        !str_less(a, a),
    decreases a.len(),
{
    if a.len() > 0 {
        lemma_str_less_irreflexive(a.drop_first());
    }
}

pub proof fn lemma_str_less_transitive(a: Seq<char>, b: Seq<char>, c: Seq<char>)
    requires
        str_less(a, b),
        str_less(b, c),
    ensures
        str_less(a, c),
    decreases a.len(),
{
    if a.len() > 0 && b.len() > 0 && c.len() > 0 && a[0] == b[0] && b[0] == c[0] {
        lemma_str_less_transitive(a.drop_first(), b.drop_first(), c.drop_first());
    }
}

pub proof fn lemma_str_less_total(a: Seq<char>, b: Seq<char>)
    ensures
        a == b || str_less(a, b) || str_less(b, a),
    decreases a.len(),
{
    if a.len() > 0 && b.len() > 0 && a[0] == b[0] {
        lemma_str_less_total(a.drop_first(), b.drop_first());
        if a.drop_first() == b.drop_first() {
            assert forall|i: int| 0 <= i < a.len() implies a[i] == b[i] by {
                if i > 0 {
                    assert(a[i] == a.drop_first()[i - 1]);
                    assert(b[i] == b.drop_first()[i - 1]);
                }
            }
            assert(a =~= b);
        }
    } else if a.len() == 0 && b.len() == 0 {
        assert(a =~= b);
    } else if a.len() > 0 && b.len() > 0 {
        vstd::utf8::char_u32_cast(a[0], a[0] as u32);
        vstd::utf8::char_u32_cast(b[0], b[0] as u32);
    }
}

pub proof fn lemma_str_less_asymmetric(a: Seq<char>, b: Seq<char>)
    requires
        str_less(a, b),
    ensures
        !str_less(b, a),
{
    if str_less(b, a) {
        lemma_str_less_transitive(a, b, a);
        lemma_str_less_irreflexive(a);
    }
}

/// `str_less(a@, b@)`, by comparing characters.
pub fn text_less(a: &str, b: &str) -> (r: bool)
    ensures
        r == str_less(a@, b@),
{
    let av = chars_of(a);
    let bv = chars_of(b);
    let mut i: usize = 0;
    assert(a@.skip(0) =~= a@);
    assert(b@.skip(0) =~= b@);
    while i < av.len() && i < bv.len() && av[i] == bv[i]
        invariant
            i <= av.len(),
            i <= bv.len(),
            av@ == a@,
            bv@ == b@,
            str_less(a@, b@) == str_less(a@.skip(i as int), b@.skip(i as int)),
        decreases av.len() - i,
    {
        assert(a@.skip(i as int).drop_first() =~= a@.skip(i + 1));
        assert(b@.skip(i as int).drop_first() =~= b@.skip(i + 1));
        i = i + 1;
    }
    if i == av.len() {
        assert(a@.skip(i as int).len() == 0);
        i < bv.len()
    } else if i == bv.len() {
        assert(b@.skip(i as int).len() == 0);
        false
    } else {
        assert(a@.skip(i as int)[0] == av[i as int]);
        assert(b@.skip(i as int)[0] == bv[i as int]);
        (av[i] as u32) < (bv[i] as u32)
    }
}

/// Every name comes strictly before every later one.
pub open spec fn strictly_sorted(names: Seq<Seq<char>>) -> bool {
    forall|i: int, j: int| 0 <= i < j < names.len() ==> str_less(#[trigger] names[i], #[trigger] names[j])
}

/// Every name comes before or equals every later one.
pub open spec fn sorted(names: Seq<Seq<char>>) -> bool {
    forall|i: int, j: int| 0 <= i < j < names.len() ==> str_le(#[trigger] names[i], #[trigger] names[j])
}

// ---------------------------------------------------------------------------
// Entries
// ---------------------------------------------------------------------------

pub open spec fn entry_names<V>(e: Seq<(String, V)>) -> Seq<Seq<char>> {
    e.map_values(|p: (String, V)| p.0@)
}

/// A position of `k` among the entries' names.
pub open spec fn entry_index<V>(e: Seq<(String, V)>, k: Seq<char>) -> int {
    choose|i: int| 0 <= i < e.len() && e[i].0@ == k
}

pub open spec fn entry_map<V: View>(e: Seq<(String, V)>) -> Map<Seq<char>, V::V> {
    Map::new(|k: Seq<char>| entry_names(e).contains(k), |k: Seq<char>| e[entry_index(e, k)].1@)
}

proof fn lemma_entry_map_at<V: View>(e: Seq<(String, V)>, i: int)
    requires
        strictly_sorted(entry_names(e)),
        0 <= i < e.len(),
    ensures
        entry_map(e).contains_key(e[i].0@),
        entry_map(e)[e[i].0@] == e[i].1@,
{
    let names = entry_names(e);
    assert(names[i] == e[i].0@);
    let k = e[i].0@;
    let j = entry_index(e, k);
    assert(0 <= j < e.len() && e[j].0@ == k);
    assert(names[j] == e[j].0@);
    if j < i {
        assert(str_less(names[j], names[i]));
        lemma_str_less_irreflexive(k);
    } else if i < j {
        assert(str_less(names[i], names[j]));
        lemma_str_less_irreflexive(k);
    }
}

proof fn lemma_entry_map_keys<V: View>(e: Seq<(String, V)>, k: Seq<char>)
    requires
        strictly_sorted(entry_names(e)),
    ensures
        entry_map(e).contains_key(k) <==> exists|i: int| 0 <= i < e.len() && e[i].0@ == k,
{
    let names = entry_names(e);
    if entry_map(e).contains_key(k) {
        let i = choose|i: int| 0 <= i < names.len() && names[i] == k;
        assert(e[i].0@ == k);
    }
    if exists|i: int| 0 <= i < e.len() && e[i].0@ == k {
        let i = choose|i: int| 0 <= i < e.len() && e[i].0@ == k;
        assert(names[i] == k);
    }
}

proof fn lemma_absent<V: View>(e: Seq<(String, V)>, key: Seq<char>, i: int)
    requires
        strictly_sorted(entry_names(e)),
        0 <= i <= e.len(),
        forall|k: int| 0 <= k < i ==> str_less(#[trigger] entry_names(e)[k], key),
        i < e.len() ==> str_less(key, entry_names(e)[i]),
    ensures
        !entry_map(e).contains_key(key),
{
    let names = entry_names(e);
    lemma_entry_map_keys(e, key);
    if exists|j: int| 0 <= j < e.len() && e[j].0@ == key {
        let j = choose|j: int| 0 <= j < e.len() && e[j].0@ == key;
        assert(names[j] == key);
        if j < i {
            lemma_str_less_irreflexive(key);
        } else if j > i {
            assert(str_less(names[i], names[j]));
            lemma_str_less_asymmetric(key, names[i]);
        } else {
            lemma_str_less_irreflexive(key);
        }
    }
}

/// A map from names to values, ordered by name.
#[derive(Debug)]
pub struct NameMap<V> {
    entries: Vec<(String, V)>,
}

impl<V: View> View for NameMap<V> {
    type V = Map<Seq<char>, V::V>;

    closed spec fn view(&self) -> Map<Seq<char>, V::V> {
        entry_map(self.entries@)
    }
}

impl<V> NameMap<V> {
    #[verifier::type_invariant]
    closed spec fn names_ordered(self) -> bool {
        strictly_sorted(entry_names(self.entries@))
    }

    /// The names, in order.
    pub closed spec fn names(self) -> Seq<Seq<char>> {
        entry_names(self.entries@)
    }
}

impl<V: View> NameMap<V> {

    pub fn new() -> (m: Self)
        ensures
            m@ == Map::<Seq<char>, V::V>::empty(),
            m.names() == Seq::<Seq<char>>::empty(),
    {
        let m = NameMap { entries: Vec::new() };
        assert(m@ =~= Map::<Seq<char>, V::V>::empty());
        assert(m.names() =~= Seq::<Seq<char>>::empty());
        m
    }

    pub fn len(&self) -> (n: usize)
        ensures
            n == self.names().len(),
    {
        self.entries.len()
    }

    pub fn is_empty(&self) -> (b: bool)
        ensures
            b == (self.names().len() == 0),
            b == (self@ == Map::<Seq<char>, V::V>::empty()),
    {
        proof {
            use_type_invariant(self);
            if self.entries.len() > 0 {
                lemma_entry_map_at(self.entries@, 0);
            } else {
                assert(self@ =~= Map::<Seq<char>, V::V>::empty());
            }
        }
        self.entries.len() == 0
    }

    /// Where `key` stands, or where it would be inserted.
    fn locate(&self, key: &str) -> (r: (usize, bool))
        ensures
            r.0 <= self.names().len(),
            forall|i: int| 0 <= i < r.0 ==> str_less(#[trigger] self.names()[i], key@),
            r.1 ==> r.0 < self.names().len() && self.names()[r.0 as int] == key@,
            !r.1 ==> r.0 < self.names().len() ==> str_less(key@, self.names()[r.0 as int]),
    {
        proof {
            use_type_invariant(self);
        }
        let mut i: usize = 0;
        while i < self.entries.len()
            invariant
                i <= self.entries.len(),
                self.names() == entry_names(self.entries@),
                forall|k: int| 0 <= k < i ==> str_less(#[trigger] self.names()[k], key@),
            decreases self.entries.len() - i,
        {
            let name = self.entries[i].0.as_str();
            assert(self.names()[i as int] == name@);
            if !text_less(name, key) {
                let same = crate::text::same_text(name, key);
                if !same {
                    proof {
                        lemma_str_less_total(name@, key@);
                    }
                }
                return (i, same);
            }
            i = i + 1;
        }
        (i, false)
    }

    pub fn contains_key(&self, key: &str) -> (b: bool)
        ensures
            b == self@.contains_key(key@),
    {
        proof {
            use_type_invariant(self);
        }
        let (i, found) = self.locate(key);
        proof {
            if found {
                assert(self.entries@[i as int].0@ == self.names()[i as int]);
                lemma_entry_map_at(self.entries@, i as int);
            } else {
                lemma_absent(self.entries@, key@, i as int);
            }
        }
        found
    }

    pub fn get(&self, key: &str) -> (r: Option<&V>)
        ensures
            r is Some == self@.contains_key(key@),
            r matches Some(v) ==> v@ == self@[key@],
    {
        proof {
            use_type_invariant(self);
        }
        let present = self.contains_key(key);
        if present {
            let (i, found) = self.locate(key);
            proof {
                if !found {
                    lemma_absent(self.entries@, key@, i as int);
                }
                assert(self.entries@[i as int].0@ == self.names()[i as int]);
                lemma_entry_map_at(self.entries@, i as int);
            }
            Some(&self.entries[i].1)
        } else {
            None
        }
    }

    /// Puts `value` under `key`, giving back the value that stood there.
    pub fn insert(&mut self, key: String, value: V) -> (old_value: Option<V>)
        ensures
            final(self)@ == old(self)@.insert(key@, value@),
            old_value is Some == old(self)@.contains_key(key@),
            old_value matches Some(v) ==> v@ == old(self)@[key@],
    {
        proof {
            use_type_invariant(&*self);
        }
        let ghost before = self.entries@;
        let (i, found) = self.locate(key.as_str());
        let mut entries: Vec<(String, V)> = Vec::new();
        std::mem::swap(&mut entries, &mut self.entries);
        assert(entries@ == before);
        proof {
            lemma_entry_map_keys(before, key@);
        }
        if found {
            let ghost old_names = entry_names(before);
            assert(before[i as int].0@ == old_names[i as int]);
            proof {
                lemma_entry_map_at(before, i as int);
            }
            let (k0, v0) = entries.remove(i);
            entries.insert(i, (k0, value));
            let ghost after = entries@;
            assert(entry_names(after) =~= old_names);
            proof {
                lemma_entry_map_at(before, i as int);
                assert forall|k: Seq<char>|
                    #![trigger entry_map(after).contains_key(k)]
                    entry_map(after).contains_key(k) == entry_map(before).insert(
                        key@,
                        value@,
                    ).contains_key(k) by {
                    lemma_entry_map_keys(after, k);
                    lemma_entry_map_keys(before, k);
                }
                assert forall|j: int| 0 <= j < after.len() implies entry_map(after)[after[j].0@]
                    == entry_map(before).insert(key@, value@)[after[j].0@] by {
                    lemma_entry_map_at(after, j);
                    if j != i {
                        lemma_entry_map_at(before, j);
                        assert(str_less(old_names[i as int], old_names[j]) || str_less(
                            old_names[j],
                            old_names[i as int],
                        ));
                        lemma_str_less_irreflexive(key@);
                    }
                }
                assert forall|k: Seq<char>| entry_map(after).contains_key(k) implies entry_map(
                    after,
                )[k] == entry_map(before).insert(key@, value@)[k] by {
                    lemma_entry_map_keys(after, k);
                    let j = choose|j: int| 0 <= j < after.len() && after[j].0@ == k;
                }
                assert(entry_map(after) =~= entry_map(before).insert(key@, value@));
            }
            self.entries = entries;
            Some(v0)
        } else {
            let ghost old_names = entry_names(before);
            proof {
                lemma_absent(before, key@, i as int);
            }
            let ghost key_view = key@;
            entries.insert(i, (key, value));
            let ghost after = entries@;
            assert(after[i as int].0@ == key_view);
            assert(entry_names(after) =~= old_names.insert(i as int, key@));
            proof {
                assert forall|a: int, b: int|
                    0 <= a < b < entry_names(after).len() implies str_less(
                    #[trigger] entry_names(after)[a],
                    #[trigger] entry_names(after)[b],
                ) by {
                    let n = entry_names(after);
                    if b < i {
                        assert(n[a] == old_names[a] && n[b] == old_names[b]);
                    } else if b == i {
                        assert(n[a] == old_names[a]);
                    } else if a < i {
                        assert(n[a] == old_names[a] && n[b] == old_names[b - 1]);
                        assert(str_less(key@, old_names[i as int]));
                        if b - 1 > i {
                            lemma_str_less_transitive(key@, old_names[i as int], old_names[b - 1]);
                        }
                        lemma_str_less_transitive(old_names[a], key@, old_names[b - 1]);
                    } else if a == i {
                        assert(n[b] == old_names[b - 1]);
                        if b - 1 > i {
                            lemma_str_less_transitive(key@, old_names[i as int], old_names[b - 1]);
                        }
                    } else {
                        assert(n[a] == old_names[a - 1] && n[b] == old_names[b - 1]);
                    }
                }
                assert forall|k: Seq<char>|
                    #![trigger entry_map(after).contains_key(k)]
                    entry_map(after).contains_key(k) == entry_map(before).insert(
                        key@,
                        value@,
                    ).contains_key(k) by {
                    lemma_entry_map_keys(after, k);
                    lemma_entry_map_keys(before, k);
                    if exists|j: int| 0 <= j < before.len() && before[j].0@ == k {
                        let j = choose|j: int| 0 <= j < before.len() && before[j].0@ == k;
                        if j < i {
                            assert(after[j].0@ == k);
                        } else {
                            assert(after[j + 1].0@ == k);
                        }
                    }
                    if exists|j: int| 0 <= j < after.len() && after[j].0@ == k {
                        let j = choose|j: int| 0 <= j < after.len() && after[j].0@ == k;
                        if j < i {
                            assert(before[j].0@ == k);
                        } else if j > i {
                            assert(before[j - 1].0@ == k);
                        }
                    }
                }
                assert forall|j: int| 0 <= j < after.len() implies entry_map(after)[after[j].0@]
                    == entry_map(before).insert(key@, value@)[after[j].0@] by {
                    lemma_entry_map_at(after, j);
                    if j < i {
                        lemma_entry_map_at(before, j);
                        assert(entry_names(after)[j] == after[j].0@);
                        assert(str_less(after[j].0@, key@));
                        lemma_str_less_irreflexive(key@);
                    } else if j > i {
                        lemma_entry_map_at(before, j - 1);
                        assert(old_names[j - 1] == before[j - 1].0@);
                        if j - 1 > i {
                            assert(str_less(old_names[i as int], old_names[j - 1]));
                            lemma_str_less_transitive(key@, old_names[i as int], old_names[j - 1]);
                        }
                        assert(str_less(key@, after[j].0@));
                        lemma_str_less_irreflexive(key@);
                    }
                }
                assert forall|k: Seq<char>| entry_map(after).contains_key(k) implies entry_map(
                    after,
                )[k] == entry_map(before).insert(key@, value@)[k] by {
                    lemma_entry_map_keys(after, k);
                    let j = choose|j: int| 0 <= j < after.len() && after[j].0@ == k;
                }
                assert(entry_map(after) =~= entry_map(before).insert(key@, value@));
            }
            self.entries = entries;
            None
        }
    }

    /// Takes `key` out, giving back its value.
    pub fn remove(&mut self, key: &str) -> (old_value: Option<V>)
        ensures
            final(self)@ == old(self)@.remove(key@),
            old_value is Some == old(self)@.contains_key(key@),
            old_value matches Some(v) ==> v@ == old(self)@[key@],
    {
        proof {
            use_type_invariant(&*self);
        }
        let ghost before = self.entries@;
        let present = self.contains_key(key);
        if !present {
            assert(self@ =~= self@.remove(key@));
            return None;
        }
        let (i, found) = self.locate(key);
        let mut entries: Vec<(String, V)> = Vec::new();
        std::mem::swap(&mut entries, &mut self.entries);
        let ghost old_names = entry_names(before);
        proof {
            lemma_entry_map_keys(before, key@);
            let j = choose|j: int| 0 <= j < before.len() && before[j].0@ == key@;
            assert(old_names[j] == key@);
            if !found {
                if j < i {
                    lemma_str_less_irreflexive(key@);
                } else if j > i {
                    assert(str_less(old_names[i as int], old_names[j]));
                    lemma_str_less_asymmetric(key@, old_names[i as int]);
                } else {
                    lemma_str_less_irreflexive(key@);
                }
            }
            lemma_entry_map_at(before, i as int);
        }
        let (_k, v) = entries.remove(i);
        let ghost after = entries@;
        assert(entry_names(after) =~= old_names.remove(i as int));
        proof {
            assert forall|a: int, b: int|
                0 <= a < b < entry_names(after).len() implies str_less(
                #[trigger] entry_names(after)[a],
                #[trigger] entry_names(after)[b],
            ) by {
                let n = entry_names(after);
                if b < i {
                    assert(n[a] == old_names[a] && n[b] == old_names[b]);
                } else if a < i {
                    assert(n[a] == old_names[a] && n[b] == old_names[b + 1]);
                } else {
                    assert(n[a] == old_names[a + 1] && n[b] == old_names[b + 1]);
                }
            }
            assert forall|k: Seq<char>|
                #![trigger entry_map(after).contains_key(k)]
                entry_map(after).contains_key(k) == entry_map(before).remove(key@).contains_key(
                    k,
                ) by {
                lemma_entry_map_keys(after, k);
                lemma_entry_map_keys(before, k);
                if exists|j: int| 0 <= j < before.len() && before[j].0@ == k {
                    let j = choose|j: int| 0 <= j < before.len() && before[j].0@ == k;
                    if j < i {
                        assert(after[j].0@ == k);
                    } else if j > i {
                        assert(after[j - 1].0@ == k);
                    }
                }
                if exists|j: int| 0 <= j < after.len() && after[j].0@ == k {
                    let j = choose|j: int| 0 <= j < after.len() && after[j].0@ == k;
                    if j < i {
                        assert(before[j].0@ == k);
                        assert(str_less(old_names[j], old_names[i as int]));
                        lemma_str_less_irreflexive(key@);
                    } else {
                        assert(before[j + 1].0@ == k);
                        assert(str_less(old_names[i as int], old_names[j + 1]));
                        lemma_str_less_irreflexive(key@);
                    }
                }
            }
            assert forall|j: int| 0 <= j < after.len() implies entry_map(after)[after[j].0@]
                == entry_map(before).remove(key@)[after[j].0@] by {
                lemma_entry_map_at(after, j);
                if j < i {
                    lemma_entry_map_at(before, j);
                    assert(old_names[j] == after[j].0@);
                    assert(str_less(old_names[j], old_names[i as int]));
                    lemma_str_less_irreflexive(key@);
                } else {
                    lemma_entry_map_at(before, j + 1);
                    assert(old_names[j + 1] == after[j].0@);
                    assert(str_less(old_names[i as int], old_names[j + 1]));
                    lemma_str_less_irreflexive(key@);
                }
            }
            assert forall|k: Seq<char>| entry_map(after).contains_key(k) implies entry_map(
                after,
            )[k] == entry_map(before).remove(key@)[k] by {
                lemma_entry_map_keys(after, k);
                let j = choose|j: int| 0 <= j < after.len() && after[j].0@ == k;
            }
            assert(entry_map(after) =~= entry_map(before).remove(key@));
        }
        self.entries = entries;
        Some(v)
    }

    /// The names, in order.
    pub fn keys(&self) -> (r: Vec<String>)
        ensures
            views(r@) == self.names(),
            strictly_sorted(self.names()),
            forall|k: Seq<char>| self@.contains_key(k) <==> self.names().contains(k),
    {
        proof {
            use_type_invariant(self);
        }
        let mut r: Vec<String> = Vec::new();
        let mut i: usize = 0;
        while i < self.entries.len()
            invariant
                i <= self.entries.len(),
                views(r@) == self.names().take(i as int),
            decreases self.entries.len() - i,
        {
            let ghost prev = r@;
            let name = self.entries[i].0.clone();
            assert(name@ == self.names()[i as int]);
            r.push(name);
            assert(r@ == prev.push(name));
            assert(views(r@) =~= views(prev).push(name@));
            assert(self.names().take(i + 1) =~= self.names().take(i as int).push(self.names()[i as int]));
            i = i + 1;
        }
        assert(views(r@) =~= self.names());
        proof {
            assert forall|k: Seq<char>| self@.contains_key(k) <==> self.names().contains(k) by {
                lemma_entry_map_keys(self.entries@, k);
                if self.names().contains(k) {
                    let j = choose|j: int| 0 <= j < self.names().len() && self.names()[j] == k;
                    assert(self.entries@[j].0@ == k);
                }
            }
        }
        r
    }

    /// The `i`-th entry in name order.
    pub fn entry(&self, i: usize) -> (r: (&String, &V))
        requires
            i < self.names().len(),
        ensures
            r.0@ == self.names()[i as int],
            self@.contains_key(r.0@),
            r.1@ == self@[r.0@],
    {
        proof {
            use_type_invariant(self);
            lemma_entry_map_at(self.entries@, i as int);
        }
        let e = &self.entries[i];
        (&e.0, &e.1)
    }

    /// The value of the first name, as `values().next()` gives it.
    pub fn first_value(&self) -> (r: Option<&V>)
        ensures
            r is Some == (self.names().len() > 0),
            r matches Some(v) ==> self@.contains_key(self.names()[0]) && v@ == self@[self.names()[0]],
    {
        if self.entries.len() == 0 {
            None
        } else {
            let (_, v) = self.entry(0);
            Some(v)
        }
    }
}

} // verus!
