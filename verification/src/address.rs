//! Principals, and maps keyed by them.
//!
//! A principal is known by the text of its account key. Two principals are the
//! same exactly when their keys read the same, so every contract speaks of a
//! principal through its view, the sequence of characters of the key.

use vstd::prelude::*;

verus! {

/// An account identity: whoever holds it may act on its own behalf once the
/// host has checked its authorization.
#[derive(Debug, PartialEq, Eq)]
pub struct Address {
    pub key: String,
}

impl View for Address {
    type V = Seq<char>;

    open spec fn view(&self) -> Seq<char> {
        self.key@
    }
}

impl Clone for Address {
    fn clone(&self) -> (r: Self)
        ensures
            r == *self,
    {
        Address { key: self.key.clone() }
    }
}

impl Address {
    /// The principal whose key is `key`.
    pub fn new(key: &str) -> (r: Address)
        ensures
            r@ == key@,
    {
        Address { key: key.to_owned() }
    }

    /// Whether `self` and `other` are the same principal.
    pub fn same(&self, other: &Address) -> (r: bool)
        ensures
            r == (self@ == other@),
    {
        self.key == other.key
    }
}

/// One entry of an `AddressMap`.
#[derive(Debug, PartialEq, Eq)]
pub struct Entry<V> {
    pub who: Address,
    pub value: V,
}

/// A map from principals to values, kept as a list in which no principal
/// occurs twice. The order of the list is the order of first insertion.
#[derive(Debug, PartialEq, Eq)]
pub struct AddressMap<V> {
    pub entries: Vec<Entry<V>>,
}

/// No two entries of `s` are for the same principal.
pub open spec fn distinct_keys<V>(s: Seq<Entry<V>>) -> bool {
    forall|i: int, j: int|
        0 <= i < s.len() && 0 <= j < s.len() && i != j ==> (#[trigger] s[i]).who@ != (#[trigger] s[j]).who@
}

/// Some entry of `s` is for the principal `k`.
pub open spec fn has_key<V>(s: Seq<Entry<V>>, k: Seq<char>) -> bool {
    exists|i: int| 0 <= i < s.len() && (#[trigger] s[i]).who@ == k
}

/// The map that the entries of `s` stand for; a later entry for the same
/// principal would win, but a well-formed list has none.
pub open spec fn map_of<V>(s: Seq<Entry<V>>) -> Map<Seq<char>, V>
    decreases s.len(),
{
    if s.len() == 0 {
        Map::empty()
    } else {
        map_of(s.drop_last()).insert(s.last().who@, s.last().value)
    }
}

/// The keys of `map_of(s)` are the principals that occur in `s`, and there are
/// finitely many.
pub proof fn lemma_map_of_dom<V>(s: Seq<Entry<V>>)
    ensures
        map_of(s).dom().finite(),
        forall|k: Seq<char>| #[trigger] map_of(s).contains_key(k) <==> has_key(s, k),
    decreases s.len(),
{
    if s.len() > 0 {
        let t = s.drop_last();
        lemma_map_of_dom(t);
        assert forall|k: Seq<char>| #[trigger] map_of(s).contains_key(k) <==> has_key(s, k) by {
            if has_key(s, k) {
                let i = choose|i: int| 0 <= i < s.len() && (#[trigger] s[i]).who@ == k;
                if i < s.len() - 1 {
                    assert(t[i].who@ == k);
                    assert(has_key(t, k));
                }
            }
            if map_of(s).contains_key(k) {
                if k == s.last().who@ {
                    assert(s[s.len() - 1].who@ == k);
                } else {
                    assert(has_key(t, k));
                    let i = choose|i: int| 0 <= i < t.len() && (#[trigger] t[i]).who@ == k;
                    assert(s[i].who@ == k);
                }
            }
        }
    }
}

/// In a list without repeated principals, each entry's value is what the map
/// holds for its principal.
pub proof fn lemma_map_of_value<V>(s: Seq<Entry<V>>, i: int)
    requires
        distinct_keys(s),
        0 <= i < s.len(),
    ensures
        map_of(s).contains_key(s[i].who@),
        map_of(s)[s[i].who@] == s[i].value,
    decreases s.len(),
{
    let t = s.drop_last();
    if i < s.len() - 1 {
        assert(distinct_keys(t)) by {
            assert forall|a: int, b: int| 0 <= a < t.len() && 0 <= b < t.len() && a != b implies (#[trigger] t[a]).who@ != (#[trigger] t[b]).who@ by {
                assert(t[a] == s[a] && t[b] == s[b]);
            }
        }
        lemma_map_of_value(t, i);
        assert(t[i] == s[i]);
        assert(s[i].who@ != s[s.len() - 1].who@);
    }
}

/// In a list without repeated principals, the map has as many keys as the
/// list has entries.
pub proof fn lemma_map_of_len<V>(s: Seq<Entry<V>>)
    requires
        distinct_keys(s),
    ensures
        map_of(s).dom().finite(),
        map_of(s).dom().len() == s.len(),
    decreases s.len(),
{
    lemma_map_of_dom(s);
    if s.len() > 0 {
        let t = s.drop_last();
        assert(distinct_keys(t)) by {
            assert forall|a: int, b: int| 0 <= a < t.len() && 0 <= b < t.len() && a != b implies (#[trigger] t[a]).who@ != (#[trigger] t[b]).who@ by {
                assert(t[a] == s[a] && t[b] == s[b]);
            }
        }
        lemma_map_of_len(t);
        lemma_map_of_dom(t);
        let k = s.last().who@;
        assert(!has_key(t, k)) by {
            if has_key(t, k) {
                let i = choose|i: int| 0 <= i < t.len() && (#[trigger] t[i]).who@ == k;
                assert(s[i].who@ == s[s.len() - 1].who@);
            }
        }
        assert(map_of(s).dom() =~= map_of(t).dom().insert(k));
    }
}

/// Replacing the value of entry `i` replaces the value of its principal in
/// the map, and nothing else.
pub proof fn lemma_map_of_update<V>(s: Seq<Entry<V>>, i: int, e: Entry<V>)
    requires
        distinct_keys(s),
        0 <= i < s.len(),
        e.who@ == s[i].who@,
    ensures
        distinct_keys(s.update(i, e)),
        map_of(s.update(i, e)) == map_of(s).insert(e.who@, e.value),
{
    let u = s.update(i, e);
    assert(distinct_keys(u)) by {
        assert forall|a: int, b: int| 0 <= a < u.len() && 0 <= b < u.len() && a != b implies (#[trigger] u[a]).who@ != (#[trigger] u[b]).who@ by {
            assert(u[a].who@ == s[a].who@ && u[b].who@ == s[b].who@);
        }
    }
    lemma_map_of_dom(s);
    lemma_map_of_dom(u);
    let m = map_of(s).insert(e.who@, e.value);
    assert forall|k: Seq<char>| map_of(u).contains_key(k) <==> m.contains_key(k) by {
        if has_key(u, k) {
            let a = choose|a: int| 0 <= a < u.len() && (#[trigger] u[a]).who@ == k;
            assert(s[a].who@ == k);
        }
        if has_key(s, k) {
            let a = choose|a: int| 0 <= a < s.len() && (#[trigger] s[a]).who@ == k;
            assert(u[a].who@ == k);
        }
        if k == e.who@ {
            assert(u[i].who@ == k);
        }
    }
    assert forall|k: Seq<char>| map_of(u).contains_key(k) implies map_of(u)[k] == m[k] by {
        let a = choose|a: int| 0 <= a < u.len() && (#[trigger] u[a]).who@ == k;
        lemma_map_of_value(u, a);
        if a == i {
        } else {
            lemma_map_of_value(s, a);
            assert(s[a].who@ != s[i].who@);
        }
    }
    assert(map_of(u) =~= m);
}

/// Appending an entry for a principal that does not occur yet keeps the list
/// free of repetitions.
pub proof fn lemma_push_distinct<V>(s: Seq<Entry<V>>, e: Entry<V>)
    requires
        distinct_keys(s),
        !has_key(s, e.who@),
    ensures
        distinct_keys(s.push(e)),
        map_of(s.push(e)) == map_of(s).insert(e.who@, e.value),
{
    let u = s.push(e);
    assert forall|a: int, b: int| 0 <= a < u.len() && 0 <= b < u.len() && a != b implies (#[trigger] u[a]).who@ != (#[trigger] u[b]).who@ by {
        if a < s.len() {
            assert(s[a].who@ == u[a].who@);
        }
        if b < s.len() {
            assert(s[b].who@ == u[b].who@);
        }
    }
    assert(u.drop_last() =~= s);
}

impl<V> View for AddressMap<V> {
    type V = Map<Seq<char>, V>;

    open spec fn view(&self) -> Map<Seq<char>, V> {
        map_of(self.entries@)
    }
}

impl<V: Copy> AddressMap<V> {
    /// No principal occurs twice.
    pub open spec fn wf(&self) -> bool {
        distinct_keys(self.entries@)
    }

    /// The principals with an entry, in the order of their first insertion.
    pub open spec fn keys(&self) -> Seq<Seq<char>> {
        self.entries@.map_values(|e: Entry<V>| e.who@)
    }

    /// The map without entries.
    pub fn new() -> (r: Self)
        ensures
            r.wf(),
            r@ == Map::<Seq<char>, V>::empty(),
            r.entries@.len() == 0,
    {
        AddressMap { entries: Vec::new() }
    }

    /// The position of `who` in the list, if it occurs.
    pub fn position(&self, who: &Address) -> (r: Option<usize>)
        ensures
            match r {
                Some(i) => i < self.entries@.len() && self.entries@[i as int].who@ == who@,
                None => !has_key(self.entries@, who@),
            },
    {
        let n = self.entries.len();
        let mut i: usize = 0;
        while i < n
            invariant
                n == self.entries@.len(),
                i <= n,
                forall|j: int| 0 <= j < i ==> (#[trigger] self.entries@[j]).who@ != who@,
            decreases n - i,
        {
            if self.entries[i].who.same(who) {
                return Some(i);
            }
            i += 1;
        }
        None
    }

    /// Whether `who` has an entry.
    pub fn contains_key(&self, who: &Address) -> (r: bool)
        ensures
            r == self@.contains_key(who@),
    {
        proof {
            lemma_map_of_dom(self.entries@);
        }
        self.position(who).is_some()
    }

    /// The value recorded for `who`, if any.
    pub fn get(&self, who: &Address) -> (r: Option<V>)
        requires
            self.wf(),
        ensures
            r == (if self@.contains_key(who@) {
                Some(self@[who@])
            } else {
                None
            }),
    {
        proof {
            lemma_map_of_dom(self.entries@);
        }
        match self.position(who) {
            Some(i) => {
                proof {
                    lemma_map_of_value(self.entries@, i as int);
                }
                Some(self.entries[i].value)
            },
            None => None,
        }
    }

    /// Records `value` for `who`, in place of what was recorded before.
    pub fn set(&mut self, who: Address, value: V)
        requires
            old(self).wf(),
        ensures
            final(self).wf(),
            final(self)@ == old(self)@.insert(who@, value),
            final(self).keys() == (if old(self)@.contains_key(who@) {
                old(self).keys()
            } else {
                old(self).keys().push(who@)
            }),
    {
        proof {
            lemma_map_of_dom(self.entries@);
        }
        match self.position(&who) {
            Some(i) => {
                proof {
                    lemma_map_of_update(self.entries@, i as int, Entry { who, value });
                    assert(self.entries@.update(i as int, Entry { who, value }).map_values(
                        |e: Entry<V>| e.who@,
                    ) =~= self.keys());
                }
                self.entries.set(i, Entry { who, value });
            },
            None => {
                proof {
                    lemma_push_distinct(self.entries@, Entry { who, value });
                    assert(self.entries@.push(Entry { who, value }).map_values(|e: Entry<V>| e.who@)
                        =~= self.keys().push(who@));
                }
                self.entries.push(Entry { who, value });
            },
        }
    }

    /// Whether no principal occurs twice.
    pub fn is_valid(&self) -> (r: bool)
        ensures
            r == self.wf(),
    {
        let n = self.entries.len();
        let mut i: usize = 0;
        while i < n
            invariant
                i <= n,
                n == self.entries@.len(),
                forall|a: int, b: int|
                    0 <= a < i && 0 <= b < a ==> (#[trigger] self.entries@[a]).who@
                        != (#[trigger] self.entries@[b]).who@,
            decreases n - i,
        {
            let mut j: usize = 0;
            while j < i
                invariant
                    j <= i,
                    i < n,
                    n == self.entries@.len(),
                    forall|b: int|
                        0 <= b < j ==> self.entries@[i as int].who@ != (
                        #[trigger] self.entries@[b]).who@,
                decreases i - j,
            {
                if self.entries[i].who.same(&self.entries[j].who) {
                    assert(self.entries@[i as int].who@ == self.entries@[j as int].who@);
                    return false;
                }
                j += 1;
            }
            i += 1;
        }
        assert forall|a: int, b: int| 0 <= a < n && 0 <= b < n && a != b implies (
        #[trigger] self.entries@[a]).who@ != (#[trigger] self.entries@[b]).who@ by {
            if b < a {
            } else {
                assert(self.entries@[b].who@ != self.entries@[a].who@);
            }
        }
        true
    }

    /// The number of principals with an entry.
    pub fn len(&self) -> (r: usize)
        requires
            self.wf(),
        ensures
            r == self@.dom().len(),
            r == self.keys().len(),
    {
        proof {
            lemma_map_of_len(self.entries@);
        }
        self.entries.len()
    }
}

} // verus!
