//! Per-board overrides by board name: an ordered map, kept as a list of entries
//! sorted by name.

use crate::config::{BoardOverrides, OverridesModel};
use crate::text;
use vstd::prelude::*;

verus! {

/// One board's overrides.
#[derive(Debug, PartialEq, Eq)]
struct BoardEntry {
    name: String,
    overrides: BoardOverrides,
}

/// Overrides by board name. Names are distinct and kept in dictionary order.
#[derive(Debug, PartialEq, Eq)]
pub struct Boards {
    entries: Vec<BoardEntry>,
}

/// The entries as name and overrides.
spec fn listing(entries: Seq<BoardEntry>) -> Seq<(Seq<char>, OverridesModel)> {
    Seq::new(entries.len(), |i: int| (entries[i].name@, entries[i].overrides@))
}

/// Whether entry `i` is the one named `n`.
spec fn named(l: Seq<(Seq<char>, OverridesModel)>, n: Seq<char>, i: int) -> bool {
    0 <= i < l.len() && l[i].0 == n
}

/// The names ascend.
spec fn ascending(l: Seq<(Seq<char>, OverridesModel)>) -> bool {
    forall|i: int, j: int| 0 <= i < j < l.len() ==> text::text_lt(#[trigger] l[i].0, #[trigger] l[j].0)
}

/// The map that the entries make up.
spec fn as_map(l: Seq<(Seq<char>, OverridesModel)>) -> Map<Seq<char>, OverridesModel> {
    Map::new(
        |n: Seq<char>| exists|i: int| #[trigger] named(l, n, i),
        |n: Seq<char>| l[choose|i: int| #[trigger] named(l, n, i)].1,
    )
}

/// In an ascending list a name has one place.
proof fn place_is_unique(l: Seq<(Seq<char>, OverridesModel)>, n: Seq<char>, i: int)
    requires
        ascending(l),
        named(l, n, i),
    ensures
        as_map(l).contains_key(n),
        as_map(l)[n] == l[i].1,
        forall|j: int| #[trigger] named(l, n, j) ==> j == i,
{
    assert forall|j: int| #[trigger] named(l, n, j) implies j == i by {
        if j < i {
            text::text_order_total(l[j].0, l[i].0);
        } else if i < j {
            text::text_order_total(l[i].0, l[j].0);
        }
    }
}

/// Two ascending lists with the same name-to-overrides relation make up the same
/// map.
proof fn same_map(
    l: Seq<(Seq<char>, OverridesModel)>,
    m: Map<Seq<char>, OverridesModel>,
)
    requires
        ascending(l),
        forall|i: int| 0 <= i < l.len() ==> m.contains_key(#[trigger] l[i].0) && m[l[i].0] == l[i].1,
        forall|n: Seq<char>| #[trigger] m.contains_key(n) ==> exists|i: int| #[trigger] named(l, n, i),
    ensures
        as_map(l) == m,
{
    assert forall|n: Seq<char>| #[trigger] m.contains_key(n) implies as_map(l)[n] == m[n] by {
        let i = choose|i: int| #[trigger] named(l, n, i);
        place_is_unique(l, n, i);
        assert(m.contains_key(l[i].0));
    }
    assert forall|n: Seq<char>| as_map(l).contains_key(n) implies m.contains_key(n) by {
        let i = choose|i: int| #[trigger] named(l, n, i);
        assert(m.contains_key(l[i].0));
    }
    assert(as_map(l) =~= m);
}

impl View for Boards {
    type V = Map<Seq<char>, OverridesModel>;

    closed spec fn view(&self) -> Map<Seq<char>, OverridesModel> {
        as_map(listing(self.entries@))
    }
}

/// The first entry whose name is not before `name`.
fn slot(entries: &Vec<BoardEntry>, name: &str) -> (r: usize)
    requires
        ascending(listing(entries@)),
    ensures
        r <= entries@.len(),
        forall|i: int| 0 <= i < r ==> text::text_lt(#[trigger] listing(entries@)[i].0, name@),
        forall|i: int| r <= i < entries@.len() ==> !text::text_lt(#[trigger] listing(entries@)[i].0, name@),
{
    let mut r: usize = 0;
    while r < entries.len() && text::comes_before(entries[r].name.as_str(), name)
        invariant
            r <= entries@.len(),
            forall|i: int| 0 <= i < r ==> text::text_lt(#[trigger] listing(entries@)[i].0, name@),
        decreases entries@.len() - r,
    {
        r += 1;
    }
    proof {
        let l = listing(entries@);
        assert forall|i: int| r <= i < l.len() implies !text::text_lt(#[trigger] l[i].0, name@) by {
            if i > r && text::text_lt(l[i].0, name@) {
                text::text_order_transitive(l[r as int].0, l[i].0, name@);
            }
        }
    }
    r
}

impl Boards {
    #[verifier::type_invariant]
    closed spec fn in_order(self) -> bool {
        ascending(listing(self.entries@))
    }

    /// No overrides at all.
    pub fn new() -> (r: Boards)
        ensures
            r@ == Map::<Seq<char>, OverridesModel>::empty(),
    {
        let r = Boards { entries: Vec::new() };
        assert(r@ =~= Map::<Seq<char>, OverridesModel>::empty());
        r
    }

    /// Whether no board has an entry.
    pub fn is_empty(&self) -> (r: bool)
        ensures
            r == (self@ == Map::<Seq<char>, OverridesModel>::empty()),
    {
        let ghost l = listing(self.entries@);
        if self.entries.len() == 0 {
            assert(self@ =~= Map::<Seq<char>, OverridesModel>::empty());
            true
        } else {
            assert(named(l, l[0].0, 0));
            assert(self@.contains_key(l[0].0));
            false
        }
    }

    /// The overrides of a board.
    pub fn get(&self, name: &str) -> (r: Option<&BoardOverrides>)
        ensures
            r is Some <==> self@.contains_key(name@),
            r matches Some(o) ==> o@ == self@[name@],
    {
        proof {
            use_type_invariant(self);
        }
        let ghost l = listing(self.entries@);
        let mut i: usize = 0;
        while i < self.entries.len()
            invariant
                i <= self.entries@.len(),
                l == listing(self.entries@),
                ascending(l),
                forall|j: int| 0 <= j < i ==> !#[trigger] named(l, name@, j),
            decreases self.entries@.len() - i,
        {
            if text::same_text(self.entries[i].name.as_str(), name) {
                proof {
                    assert(named(l, name@, i as int));
                    place_is_unique(l, name@, i as int);
                }
                return Some(&self.entries[i].overrides);
            }
            i += 1;
        }
        assert(forall|j: int| !#[trigger] named(l, name@, j));
        None
    }

    /// Whether a board has an entry.
    pub fn contains_key(&self, name: &str) -> (r: bool)
        ensures
            r == self@.contains_key(name@),
    {
        self.get(name).is_some()
    }

    /// The names of the boards with an entry, in dictionary order.
    pub fn names(&self) -> (r: Vec<String>)
        ensures
            forall|n: Seq<char>| self@.contains_key(n) <==> #[trigger] text::texts(r@).contains(n),
            forall|i: int, j: int|
                0 <= i < j < r@.len() ==> text::text_lt(
                    #[trigger] text::texts(r@)[i],
                    #[trigger] text::texts(r@)[j],
                ),
    {
        proof {
            use_type_invariant(self);
        }
        let ghost l = listing(self.entries@);
        let mut r: Vec<String> = Vec::new();
        let mut i: usize = 0;
        while i < self.entries.len()
            invariant
                i <= self.entries@.len(),
                l == listing(self.entries@),
                r@.len() == i,
                forall|j: int| 0 <= j < i ==> (#[trigger] r@[j])@ == l[j].0,
            decreases self.entries@.len() - i,
        {
            r.push(self.entries[i].name.clone());
            i += 1;
        }
        proof {
            let t = text::texts(r@);
            assert(forall|j: int| 0 <= j < l.len() ==> #[trigger] t[j] == l[j].0);
            assert forall|n: Seq<char>| self@.contains_key(n) <==> #[trigger] t.contains(n) by {
                if self@.contains_key(n) {
                    let j = choose|j: int| #[trigger] named(l, n, j);
                    assert(t[j] == n);
                }
                if t.contains(n) {
                    let j = choose|j: int| 0 <= j < t.len() && t[j] == n;
                    assert(named(l, n, j));
                }
            }
        }
        r
    }

    /// Sets the overrides of a board, replacing what it had.
    pub fn insert(&mut self, name: String, overrides: BoardOverrides)
        ensures
            final(self)@ == old(self)@.insert(name@, overrides@),
    {
        proof {
            use_type_invariant(&*self);
        }
        let mut entries: Vec<BoardEntry> = Vec::new();
        std::mem::swap(&mut entries, &mut self.entries);
        let ghost l = listing(entries@);
        let ghost key = name@;
        let ghost val = overrides@;
        let ghost m = as_map(l).insert(key, val);
        let at = slot(&entries, name.as_str());
        if at < entries.len() && text::same_text(entries[at].name.as_str(), name.as_str()) {
            entries.set(at, BoardEntry { name, overrides });
            proof {
                let k = listing(entries@);
                assert(k =~= l.update(at as int, (key, val)));
                assert forall|i: int, j: int| 0 <= i < j < k.len() implies text::text_lt(
                    #[trigger] k[i].0,
                    #[trigger] k[j].0,
                ) by {
                    assert(k[i].0 == l[i].0 && k[j].0 == l[j].0);
                }
                assert forall|i: int| 0 <= i < k.len() implies m.contains_key(#[trigger] k[i].0)
                    && m[k[i].0] == k[i].1 by {
                    if i != at {
                        assert(named(l, l[i].0, i));
                        place_is_unique(l, l[i].0, i);
                        place_is_unique(l, key, at as int);
                    }
                }
                assert forall|n: Seq<char>| #[trigger] m.contains_key(n) implies exists|i: int| #[trigger]
                    named(k, n, i) by {
                    if n == key {
                        assert(named(k, n, at as int));
                    } else {
                        let i = choose|i: int| #[trigger] named(l, n, i);
                        assert(named(k, n, i));
                    }
                }
                same_map(k, m);
            }
        } else {
            entries.insert(at, BoardEntry { name, overrides });
            proof {
                let k = listing(entries@);
                let p = at as int;
                assert(k =~= l.insert(p, (key, val)));
                assert forall|i: int, j: int| 0 <= i < j < k.len() implies text::text_lt(
                    #[trigger] k[i].0,
                    #[trigger] k[j].0,
                ) by {
                    if j == p {
                        assert(k[i].0 == l[i].0);
                    } else if i == p {
                        let q = j - 1;
                        assert(k[j].0 == l[q].0);
                        text::text_order_total(l[q].0, key);
                        if l[q].0 == key {
                            if q == p {
                            } else {
                                assert(text::text_lt(l[p].0, l[q].0));
                                assert(!text::text_lt(l[p].0, key));
                            }
                        }
                    } else {
                        let a = if i < p {
                            i
                        } else {
                            i - 1
                        };
                        let b = if j < p {
                            j
                        } else {
                            j - 1
                        };
                        assert(k[i].0 == l[a].0 && k[j].0 == l[b].0);
                    }
                }
                assert(k[p].0 == key);
                assert forall|i: int| 0 <= i < k.len() implies m.contains_key(#[trigger] k[i].0)
                    && m[k[i].0] == k[i].1 by {
                    if i != p {
                        let a = if i < p {
                            i
                        } else {
                            i - 1
                        };
                        assert(k[i] == l[a]);
                        assert(named(l, l[a].0, a));
                        place_is_unique(l, l[a].0, a);
                        if i < p {
                            text::text_order_total(k[i].0, k[p].0);
                        } else {
                            text::text_order_total(k[p].0, k[i].0);
                        }
                    }
                }
                assert forall|n: Seq<char>| #[trigger] m.contains_key(n) implies exists|i: int| #[trigger]
                    named(k, n, i) by {
                    if n == key {
                        assert(named(k, n, p));
                    } else {
                        let a = choose|a: int| #[trigger] named(l, n, a);
                        let i = if a < p {
                            a
                        } else {
                            a + 1
                        };
                        assert(k[i] == l[a]);
                        assert(named(k, n, i));
                    }
                }
                same_map(k, m);
            }
        }
        self.entries = entries;
    }

    /// Drops a board's entry and returns the overrides that it held.
    pub fn remove(&mut self, name: &str) -> (r: Option<BoardOverrides>)
        ensures
            final(self)@ == old(self)@.remove(name@),
            r is Some <==> old(self)@.contains_key(name@),
            r matches Some(o) ==> o@ == old(self)@[name@],
    {
        proof {
            use_type_invariant(&*self);
        }
        let mut entries: Vec<BoardEntry> = Vec::new();
        std::mem::swap(&mut entries, &mut self.entries);
        let ghost l = listing(entries@);
        let ghost m = as_map(l).remove(name@);
        let at = slot(&entries, name);
        if at < entries.len() && text::same_text(entries[at].name.as_str(), name) {
            let gone = entries.remove(at);
            proof {
                let k = listing(entries@);
                let p = at as int;
                assert(k =~= l.remove(p));
                assert(named(l, name@, p));
                place_is_unique(l, name@, p);
                assert forall|i: int, j: int| 0 <= i < j < k.len() implies text::text_lt(
                    #[trigger] k[i].0,
                    #[trigger] k[j].0,
                ) by {
                    let a = if i < p {
                        i
                    } else {
                        i + 1
                    };
                    let b = if j < p {
                        j
                    } else {
                        j + 1
                    };
                    assert(k[i].0 == l[a].0 && k[j].0 == l[b].0);
                }
                assert forall|i: int| 0 <= i < k.len() implies m.contains_key(#[trigger] k[i].0)
                    && m[k[i].0] == k[i].1 by {
                    let a = if i < p {
                        i
                    } else {
                        i + 1
                    };
                    assert(k[i] == l[a]);
                    assert(named(l, l[a].0, a));
                    place_is_unique(l, l[a].0, a);
                }
                assert forall|n: Seq<char>| #[trigger] m.contains_key(n) implies exists|i: int| #[trigger]
                    named(k, n, i) by {
                    let a = choose|a: int| #[trigger] named(l, n, a);
                    let i = if a < p {
                        a
                    } else {
                        a - 1
                    };
                    assert(k[i] == l[a]);
                    assert(named(k, n, i));
                }
                same_map(k, m);
            }
            self.entries = entries;
            Some(gone.overrides)
        } else {
            proof {
                if exists|i: int| #[trigger] named(l, name@, i) {
                    let i = choose|i: int| #[trigger] named(l, name@, i);
                    text::text_order_total(l[i].0, name@);
                    if i > at {
                        assert(text::text_lt(l[at as int].0, l[i].0));
                    }
                }
                assert(m =~= as_map(l));
            }
            self.entries = entries;
            None
        }
    }
}

impl Clone for Boards {
    fn clone(&self) -> (r: Self)
        ensures
            r@ == self@,
    {
        proof {
            use_type_invariant(self);
        }
        let ghost l = listing(self.entries@);
        let mut entries: Vec<BoardEntry> = Vec::new();
        let mut i: usize = 0;
        while i < self.entries.len()
            invariant
                i <= self.entries@.len(),
                l == listing(self.entries@),
                entries@.len() == i,
                forall|j: int|
                    0 <= j < i ==> (#[trigger] entries@[j]).name@ == l[j].0
                        && entries@[j].overrides@ == l[j].1,
            decreases self.entries@.len() - i,
        {
            let e = &self.entries[i];
            entries.push(BoardEntry { name: e.name.clone(), overrides: e.overrides.clone() });
            i += 1;
        }
        assert(listing(entries@) =~= l);
        Boards { entries }
    }
}

} // verus!
