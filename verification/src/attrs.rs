//! An ordered attribute map: name/value pairs kept in insertion order, with
//! unique names. It stands in for the hash map the underlying XML crate uses
//! for element attributes, so that lookups and updates can be reasoned about.

use vstd::prelude::*;

verus! {

/// First-match lookup over a sequence of name/value pairs.
pub open spec fn attr_get(m: Seq<(Seq<char>, Seq<char>)>, key: Seq<char>) -> Option<Seq<char>>
    decreases m.len(),
{
    if m.len() == 0 {
        None
    } else if m[0].0 == key {
        Some(m[0].1)
    } else {
        attr_get(m.drop_first(), key)
    }
}

/// First-match update: replaces the value at the first pair whose name is
/// `key`, or appends a new pair at the end when no pair has that name.
pub open spec fn attr_set(
    m: Seq<(Seq<char>, Seq<char>)>,
    key: Seq<char>,
    value: Seq<char>,
) -> Seq<(Seq<char>, Seq<char>)>
    decreases m.len(),
{
    if m.len() == 0 {
        seq![(key, value)]
    } else if m[0].0 == key {
        seq![(m[0].0, value)] + m.drop_first()
    } else {
        seq![m[0]] + attr_set(m.drop_first(), key, value)
    }
}

/// No two pairs share a name.
pub open spec fn keys_unique(m: Seq<(Seq<char>, Seq<char>)>) -> bool {
    forall|i: int, j: int| 0 <= i < j < m.len() ==> m[i].0 != m[j].0
}

/// Some pair has the given name.
pub open spec fn has_key(m: Seq<(Seq<char>, Seq<char>)>, key: Seq<char>) -> bool {
    exists|i: int| 0 <= i < m.len() && m[i].0 == key
}

pub proof fn lemma_attr_get_first_match(m: Seq<(Seq<char>, Seq<char>)>, key: Seq<char>, i: int)
    requires
        0 <= i < m.len(),
        m[i].0 == key,
        forall|j: int| 0 <= j < i ==> m[j].0 != key,
    ensures
        attr_get(m, key) == Some(m[i].1),
    decreases m.len(),
{
    if i > 0 {
        lemma_attr_get_first_match(m.drop_first(), key, i - 1);
    }
}

pub proof fn lemma_attr_get_absent(m: Seq<(Seq<char>, Seq<char>)>, key: Seq<char>)
    requires
        forall|j: int| 0 <= j < m.len() ==> m[j].0 != key,
    ensures
        attr_get(m, key) is None,
    decreases m.len(),
{
    if m.len() > 0 {
        lemma_attr_get_absent(m.drop_first(), key);
    }
}

pub proof fn lemma_attr_set_found(
    m: Seq<(Seq<char>, Seq<char>)>,
    key: Seq<char>,
    value: Seq<char>,
    i: int,
)
    requires
        0 <= i < m.len(),
        m[i].0 == key,
        forall|j: int| 0 <= j < i ==> m[j].0 != key,
    ensures
        attr_set(m, key, value) =~= m.update(i, (m[i].0, value)),
    decreases m.len(),
{
    if i > 0 {
        lemma_attr_set_found(m.drop_first(), key, value, i - 1);
        assert(attr_set(m, key, value) =~= seq![m[0]] + m.drop_first().update(i - 1, (m[i].0, value)));
    }
}

pub proof fn lemma_attr_set_absent(
    m: Seq<(Seq<char>, Seq<char>)>,
    key: Seq<char>,
    value: Seq<char>,
)
    requires
        forall|j: int| 0 <= j < m.len() ==> m[j].0 != key,
    ensures
        attr_set(m, key, value) =~= m.push((key, value)),
    decreases m.len(),
{
    if m.len() > 0 {
        lemma_attr_set_absent(m.drop_first(), key, value);
    }
}

/// Setting `key` makes a later lookup of `key` return `value`.
pub proof fn lemma_attr_get_set_same(
    m: Seq<(Seq<char>, Seq<char>)>,
    key: Seq<char>,
    value: Seq<char>,
)
    ensures
        attr_get(attr_set(m, key, value), key) == Some(value),
    decreases m.len(),
{
    if m.len() == 0 {
    } else if m[0].0 == key {
    } else {
        lemma_attr_get_set_same(m.drop_first(), key, value);
        assert((seq![m[0]] + attr_set(m.drop_first(), key, value)).drop_first()
            =~= attr_set(m.drop_first(), key, value));
    }
}

/// Setting `key` leaves lookups of any other name unchanged.
pub proof fn lemma_attr_get_set_other(
    m: Seq<(Seq<char>, Seq<char>)>,
    key: Seq<char>,
    value: Seq<char>,
    other: Seq<char>,
)
    requires
        other != key,
    ensures
        attr_get(attr_set(m, key, value), other) == attr_get(m, other),
    decreases m.len(),
{
    if m.len() == 0 {
        let r = attr_set(m, key, value);
        assert(r.len() == 1 && r[0] == (key, value));
        assert(r.drop_first().len() == 0);
        assert(attr_get(r.drop_first(), other) is None);
        assert(attr_get(r, other) is None);
    } else if m[0].0 == key {
        let r = attr_set(m, key, value);
        assert(r[0] == (m[0].0, value));
        assert(r.drop_first() =~= m.drop_first());
    } else {
        lemma_attr_get_set_other(m.drop_first(), key, value, other);
        let r = attr_set(m, key, value);
        assert(r[0] == m[0]);
        assert(r.drop_first() =~= attr_set(m.drop_first(), key, value));
    }
}

/// Every name in the updated map is either `key` or a name of the old map.
pub proof fn lemma_attr_set_keys(
    m: Seq<(Seq<char>, Seq<char>)>,
    key: Seq<char>,
    value: Seq<char>,
)
    ensures
        forall|i: int| 0 <= i < attr_set(m, key, value).len()
            ==> #[trigger] attr_set(m, key, value)[i].0 == key
                || has_key(m, attr_set(m, key, value)[i].0),
    decreases m.len(),
{
    let r = attr_set(m, key, value);
    if m.len() == 0 {
    } else if m[0].0 == key {
        assert forall|i: int| 0 <= i < r.len() implies #[trigger] r[i].0 == key
            || has_key(m, r[i].0) by {
            if i > 0 {
                assert(r[i] == m[i]);
                assert(m[i].0 == r[i].0);
            }
        }
    } else {
        lemma_attr_set_keys(m.drop_first(), key, value);
        let rr = attr_set(m.drop_first(), key, value);
        assert forall|i: int| 0 <= i < r.len() implies #[trigger] r[i].0 == key
            || has_key(m, r[i].0) by {
            if i == 0 {
                assert(m[0].0 == r[0].0);
            } else {
                assert(r[i] == rr[i - 1]);
                if rr[i - 1].0 != key {
                    let j = choose|j: int| 0 <= j < m.drop_first().len()
                        && m.drop_first()[j].0 == rr[i - 1].0;
                    assert(m[j + 1].0 == r[i].0);
                }
            }
        }
    }
}

/// A first-match update keeps the names unique.
pub proof fn lemma_attr_set_unique(
    m: Seq<(Seq<char>, Seq<char>)>,
    key: Seq<char>,
    value: Seq<char>,
)
    requires
        keys_unique(m),
    ensures
        keys_unique(attr_set(m, key, value)),
    decreases m.len(),
{
    let r = attr_set(m, key, value);
    if m.len() == 0 {
    } else if m[0].0 == key {
        assert forall|i: int, j: int| 0 <= i < j < r.len() implies r[i].0 != r[j].0 by {
            assert(r[j] == m[j]);
            if i > 0 {
                assert(r[i] == m[i]);
            }
        }
    } else {
        lemma_attr_set_unique(m.drop_first(), key, value);
        lemma_attr_set_keys(m.drop_first(), key, value);
        let rr = attr_set(m.drop_first(), key, value);
        assert forall|i: int, j: int| 0 <= i < j < r.len() implies r[i].0 != r[j].0 by {
            if i == 0 {
                assert(r[j] == rr[j - 1]);
                if rr[j - 1].0 != key {
                    let w = choose|w: int| 0 <= w < m.drop_first().len()
                        && m.drop_first()[w].0 == rr[j - 1].0;
                    assert(m[w + 1].0 == rr[j - 1].0);
                    assert(m[0].0 != m[w + 1].0);
                }
            } else {
                assert(r[i] == rr[i - 1]);
                assert(r[j] == rr[j - 1]);
            }
        }
    }
}

/// An ordered attribute map with unique names.
#[derive(Clone, Debug, PartialEq, Eq)]
pub struct AttrMap {
    pairs: Vec<(String, String)>,
}

impl View for AttrMap {
    type V = Seq<(Seq<char>, Seq<char>)>;

    closed spec fn view(&self) -> Seq<(Seq<char>, Seq<char>)> {
        self.pairs@.map_values(|p: (String, String)| (p.0@, p.1@))
    }
}

impl AttrMap {
    /// The map's invariant: no two pairs share a name.
    pub open spec fn wf(&self) -> bool {
        keys_unique(self@)
    }

    pub fn new() -> (r: AttrMap)
        ensures
            r@ == Seq::<(Seq<char>, Seq<char>)>::empty(),
            r.wf(),
    {
        let r = AttrMap { pairs: Vec::new() };
        proof {
            assert(r@ =~= Seq::<(Seq<char>, Seq<char>)>::empty());
        }
        r
    }

    pub fn len(&self) -> (n: usize)
        ensures
            n == self@.len(),
    {
        self.pairs.len()
    }

    /// The pairs themselves, in order; each entry views to the map's entry.
    pub fn entries(&self) -> (r: &Vec<(String, String)>)
        ensures
            r@.len() == self@.len(),
            forall|i: int| 0 <= i < r@.len()
                ==> (#[trigger] r@[i].0@, r@[i].1@) == self@[i],
    {
        &self.pairs
    }

    /// Index of the first pair named `key`, if any.
    fn index_of_key(&self, key: &String) -> (r: Option<usize>)
        ensures
            match r {
                Some(i) => i < self@.len() && self@[i as int].0 == key@
                    && forall|j: int| 0 <= j < i ==> self@[j].0 != key@,
                None => forall|j: int| 0 <= j < self@.len() ==> self@[j].0 != key@,
            },
    {
        let mut i: usize = 0;
        while i < self.pairs.len()
            invariant
                i <= self.pairs@.len(),
                self@.len() == self.pairs@.len(),
                forall|j: int| 0 <= j < i ==> self@[j].0 != key@,
            decreases self.pairs@.len() - i,
        {
            if self.pairs[i].0 == *key {
                return Some(i);
            }
            i += 1;
        }
        None
    }

    /// Value of the first pair named `key`, if any.
    pub fn get_value(&self, key: &str) -> (r: Option<String>)
        ensures
            match r {
                Some(v) => attr_get(self@, key@) == Some(v@),
                None => attr_get(self@, key@) is None,
            },
    {
        let k = key.to_owned();
        match self.index_of_key(&k) {
            Some(i) => {
                proof {
                    lemma_attr_get_first_match(self@, key@, i as int);
                }
                Some(self.pairs[i].1.clone())
            }
            None => {
                proof {
                    lemma_attr_get_absent(self@, key@);
                }
                None
            }
        }
    }

    /// First-match update, as `attr_set` describes.
    pub fn insert(&mut self, key: &str, value: &str)
        requires
            old(self).wf(),
        ensures
            final(self).wf(),
            final(self)@ == attr_set(old(self)@, key@, value@),
    {
        let k = key.to_owned();
        let v = value.to_owned();
        match self.index_of_key(&k) {
            Some(i) => {
                let p = self.pairs.remove(i);
                self.pairs.insert(i, (p.0, v));
                proof {
                    lemma_attr_set_found(old(self)@, key@, value@, i as int);
                    assert(self.pairs@ =~= old(self).pairs@.update(i as int, (old(self).pairs@[i as int].0, v)));
                    assert(self@ =~= old(self)@.update(i as int, (old(self)@[i as int].0, value@)));
                    lemma_attr_set_unique(old(self)@, key@, value@);
                }
            }
            None => {
                self.pairs.push((k, v));
                proof {
                    lemma_attr_set_absent(old(self)@, key@, value@);
                    assert(self@ =~= old(self)@.push((key@, value@)));
                    lemma_attr_set_unique(old(self)@, key@, value@);
                }
            }
        }
    }
}

} // verus!
