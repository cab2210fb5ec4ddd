use crate::text::str_eq;
use vstd::prelude::*;

verus! {

// The resolver and the serializer deduplicate names with an
// insertion-ordered name-to-path mapping, so that rendering the same
// circuit twice yields the same line order.

/// A name is bound in `m`.
pub open spec fn map_has(m: Seq<(Seq<char>, Seq<char>)>, k: Seq<char>) -> bool {
    exists|j: int| 0 <= j < m.len() && m[j].0 == k
}

/// The value bound to `k` in `m` (at its first occurrence).
pub open spec fn map_value(m: Seq<(Seq<char>, Seq<char>)>, k: Seq<char>) -> Seq<char>
    decreases m.len(),
{
    if m.len() == 0 {
        Seq::empty()
    } else if m[0].0 == k {
        m[0].1
    } else {
        map_value(m.drop_first(), k)
    }
}

/// `m` with `k` bound to `v`: the binding replaces the first entry named
/// `k`, or goes to the end when `k` is new.
pub open spec fn map_set(
    m: Seq<(Seq<char>, Seq<char>)>,
    k: Seq<char>,
    v: Seq<char>,
) -> Seq<(Seq<char>, Seq<char>)>
    decreases m.len(),
{
    if m.len() == 0 {
        seq![(k, v)]
    } else if m[0].0 == k {
        seq![(k, v)] + m.drop_first()
    } else {
        seq![m[0]] + map_set(m.drop_first(), k, v)
    }
}

/// `m` with `k` bound to `v` only when `k` is not yet bound.
pub open spec fn map_add_keep(
    m: Seq<(Seq<char>, Seq<char>)>,
    k: Seq<char>,
    v: Seq<char>,
) -> Seq<(Seq<char>, Seq<char>)> {
    if map_has(m, k) {
        m
    } else {
        m.push((k, v))
    }
}

/// An insertion-ordered mapping from symbolic names to file paths.
#[derive(Debug)]
pub struct PathMap {
    pub entries: Vec<(String, String)>,
}

impl View for PathMap {
    type V = Seq<(Seq<char>, Seq<char>)>;

    open spec fn view(&self) -> Seq<(Seq<char>, Seq<char>)> {
        self.entries@.map_values(|p: (String, String)| (p.0@, p.1@))
    }
}

proof fn lemma_map_set_found(m: Seq<(Seq<char>, Seq<char>)>, k: Seq<char>, v: Seq<char>, i: int)
    requires
        0 <= i < m.len(),
        m[i].0 == k,
        forall|j: int| 0 <= j < i ==> m[j].0 != k,
    ensures
        map_set(m, k, v) == m.update(i, (k, v)),
    decreases i,
{
    if i == 0 {
        assert(map_set(m, k, v) =~= m.update(0, (k, v)));
    } else {
        let rest = m.drop_first();
        assert(forall|j: int| 0 <= j < i - 1 ==> rest[j].0 != k);
        lemma_map_set_found(rest, k, v, i - 1);
        assert(map_set(m, k, v) =~= m.update(i, (k, v)));
    }
}

proof fn lemma_map_set_absent(m: Seq<(Seq<char>, Seq<char>)>, k: Seq<char>, v: Seq<char>)
    requires
        forall|j: int| 0 <= j < m.len() ==> m[j].0 != k,
    ensures
        map_set(m, k, v) == m.push((k, v)),
    decreases m.len(),
{
    if m.len() == 0 {
        assert(map_set(m, k, v) =~= m.push((k, v)));
    } else {
        lemma_map_set_absent(m.drop_first(), k, v);
        assert(map_set(m, k, v) =~= m.push((k, v)));
    }
}

proof fn lemma_map_value_found(m: Seq<(Seq<char>, Seq<char>)>, k: Seq<char>, i: int)
    requires
        0 <= i < m.len(),
        m[i].0 == k,
        forall|j: int| 0 <= j < i ==> m[j].0 != k,
    ensures
        map_value(m, k) == m[i].1,
    decreases i,
{
    if i == 0 {
    } else {
        let rest = m.drop_first();
        assert(forall|j: int| 0 <= j < i - 1 ==> rest[j].0 != k);
        lemma_map_value_found(rest, k, i - 1);
    }
}

impl PathMap {
    /// An empty mapping.
    pub fn new() -> (r: PathMap)
        ensures
            r@ == Seq::<(Seq<char>, Seq<char>)>::empty(),
    {
        let r = PathMap { entries: Vec::new() };
        proof {
            assert(r@ =~= Seq::<(Seq<char>, Seq<char>)>::empty());
        }
        r
    }

    /// How many names are bound.
    pub fn len(&self) -> (r: usize)
        ensures
            r == self@.len(),
    {
        self.entries.len()
    }

    /// The index of the first entry named `k`, if any.
    fn index_of(&self, k: &str) -> (r: Option<usize>)
        ensures
            match r {
                Some(i) => i < self@.len() && self@[i as int].0 == k@ && (forall|j: int|
                    0 <= j < i ==> self@[j].0 != k@),
                None => !map_has(self@, k@),
            },
    {
        let n = self.entries.len();
        let mut i: usize = 0;
        while i < n
            invariant
                n == self.entries@.len(),
                n == self@.len(),
                0 <= i <= n,
                forall|j: int| 0 <= j < i ==> self@[j].0 != k@,
            decreases n - i,
        {
            if str_eq(self.entries[i].0.as_str(), k) {
                assert(self@[i as int].0 == k@);
                return Some(i);
            }
            assert(self@[i as int].0 != k@);
            i += 1;
        }
        None
    }

    /// Whether `k` is bound.
    pub fn contains_key(&self, k: &str) -> (r: bool)
        ensures
            r == map_has(self@, k@),
    {
        match self.index_of(k) {
            Some(i) => {
                assert(map_has(self@, k@));
                true
            },
            None => false,
        }
    }

    /// The path bound to `k`, if any.
    pub fn get(&self, k: &str) -> (r: Option<&String>)
        ensures
            match r {
                Some(v) => map_has(self@, k@) && v@ == map_value(self@, k@),
                None => !map_has(self@, k@),
            },
    {
        match self.index_of(k) {
            Some(i) => {
                proof {
                    lemma_map_value_found(self@, k@, i as int);
                    assert(map_has(self@, k@));
                }
                Some(&self.entries[i].1)
            },
            None => None,
        }
    }

    /// Binds `k` to `v`, replacing the first earlier binding of `k` in
    /// place, or appending when `k` is new.
    pub fn set(&mut self, k: String, v: String)
        ensures
            final(self)@ == map_set(old(self)@, k@, v@),
    {
        match self.index_of(k.as_str()) {
            Some(i) => {
                proof {
                    lemma_map_set_found(self@, k@, v@, i as int);
                }
                self.entries.set(i, (k, v));
                proof {
                    assert(self@ =~= map_set(old(self)@, k@, v@));
                }
            },
            None => {
                proof {
                    lemma_map_set_absent(self@, k@, v@);
                }
                self.entries.push((k, v));
                proof {
                    assert(self@ =~= map_set(old(self)@, k@, v@));
                }
            },
        }
    }

    /// Binds `k` to `v` only when `k` is not yet bound: merging keeps the
    /// first-seen binding of every name.
    pub fn add_keep(&mut self, k: String, v: String)
        ensures
            final(self)@ == map_add_keep(old(self)@, k@, v@),
    {
        match self.index_of(k.as_str()) {
            Some(_) => {
                assert(map_has(self@, k@));
            },
            None => {
                self.entries.push((k, v));
                proof {
                    assert(self@ =~= old(self)@.push((k@, v@)));
                }
            },
        }
    }
}

} // verus!
