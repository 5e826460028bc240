use vstd::prelude::*;
use std::collections::HashMap;
use crate::geometry::Coordinates;

verus! {

broadcast use vstd::std_specs::hash::group_hash_axioms;

/// What a lookup of `c` in `m` gives.
pub open spec fn entry(m: Map<Coordinates, u64>, c: Coordinates) -> Option<u64> {
    if m.contains_key(c) {
        Some(m[c])
    } else {
        None
    }
}

/// `m` without the coordinates that map to `cell`.
pub open spec fn without_cell(m: Map<Coordinates, u64>, cell: u64) -> Map<Coordinates, u64> {
    Map::new(|c: Coordinates| m.contains_key(c) && m[c] != cell, |c: Coordinates| m[c])
}

/// No two coordinates map to the same cell.
pub open spec fn one_to_one(m: Map<Coordinates, u64>) -> bool {
    forall|a: Coordinates, b: Coordinates|
        #![trigger m[a], m[b]]
        m.contains_key(a) && m.contains_key(b) && m[a] == m[b] ==> a == b
}

/// The key under which `c` is stored.
pub open spec fn key_of(c: Coordinates) -> u64 {
    (c.x * 256 + c.y) as u64
}

/// A lookup table from the coordinates of a cell to the handle by which the
/// host knows that cell. Each handle stands under one coordinate at most.
pub struct CellIndex {
    by_coord: HashMap<u64, u64>,
    by_cell: HashMap<u64, u64>,
}

impl View for CellIndex {
    type V = Map<Coordinates, u64>;

    closed spec fn view(&self) -> Map<Coordinates, u64> {
        Map::new(
            |c: Coordinates| self.by_coord@.contains_key(key_of(c)),
            |c: Coordinates| self.by_coord@[key_of(c)],
        )
    }
}

fn key(c: Coordinates) -> (r: u64)
    ensures
        r == key_of(c),
{
    c.x as u64 * 256 + c.y as u64
}

proof fn lemma_key_injective(a: Coordinates, b: Coordinates)
    requires
        key_of(a) == key_of(b),
    ensures
        a == b,
{
}

impl CellIndex {
    /// The two tables are inverse to each other, and every key is the key of
    /// some coordinates.
    pub closed spec fn wf(&self) -> bool {
        &&& forall|k: u64|
            #![trigger self.by_coord@[k]]
            self.by_coord@.contains_key(k) ==> {
                &&& k < 0x1_0000
                &&& self.by_cell@.contains_key(self.by_coord@[k])
                &&& self.by_cell@[self.by_coord@[k]] == k
            }
        &&& forall|h: u64|
            #![trigger self.by_cell@[h]]
            self.by_cell@.contains_key(h) ==> {
                &&& self.by_coord@.contains_key(self.by_cell@[h])
                &&& self.by_coord@[self.by_cell@[h]] == h
            }
    }

    /// No two coordinates of the index map to the same cell.
    pub proof fn lemma_view_one_to_one(&self)
        requires
            self.wf(),
        ensures
            one_to_one(self@),
    {
        assert forall|a: Coordinates, b: Coordinates|
            #![trigger self@[a], self@[b]]
            self@.contains_key(a) && self@.contains_key(b) && self@[a] == self@[b] implies a
                == b by {
            let ka = key_of(a);
            let kb = key_of(b);
            assert(self.by_cell@[self.by_coord@[ka]] == ka);
            assert(self.by_cell@[self.by_coord@[kb]] == kb);
            lemma_key_injective(a, b);
        }
    }

    pub fn new() -> (r: Self)
        ensures
            r.wf(),
            r@ == Map::<Coordinates, u64>::empty(),
    {
        let r = CellIndex { by_coord: HashMap::new(), by_cell: HashMap::new() };
        assert(r@ =~= Map::<Coordinates, u64>::empty());
        r
    }

    /// The cell stored under `c`, if any.
    pub fn lookup(&self, c: Coordinates) -> (r: Option<u64>)
        requires
            self.wf(),
        ensures
            r == entry(self@, c),
    {
        let k = key(c);
        match self.by_coord.get(&k) {
            Some(h) => Some(*h),
            None => None,
        }
    }

    /// Removes the coordinates under which `cell` stands, if any.
    pub fn remove_cell(&mut self, cell: u64)
        requires
            old(self).wf(),
        ensures
            final(self).wf(),
            final(self)@ == without_cell(old(self)@, cell),
            one_to_one(final(self)@),
    {
        proof {
            self.lemma_view_one_to_one();
        }
        let found = match self.by_cell.get(&cell) {
            Some(k) => Some(*k),
            None => None,
        };
        match found {
            Some(k) => {
                let ghost before = *self;
                proof {
                    let c = Coordinates { x: (k / 256) as u8, y: (k % 256) as u8 };
                    assert(key_of(c) == k);
                    assert(before@.contains_key(c));
                }
                self.by_coord.remove(&k);
                self.by_cell.remove(&cell);
                assert forall|k2: u64| #[trigger] self.by_coord@.contains_key(k2) implies self.by_cell@.contains_key(self.by_coord@[k2]) by {
                    assert(before.by_coord@[k2] != cell);
                }
                assert forall|h: u64| #[trigger] self.by_cell@.contains_key(h) implies self.by_coord@.contains_key(self.by_cell@[h]) by {
                    assert(before.by_cell@[h] != k);
                }
                assert(self@ =~= without_cell(before@, cell)) by {
                    assert forall|c: Coordinates| #[trigger]
                        self@.contains_key(c) == without_cell(before@, cell).contains_key(
                            c,
                        ) by {
                        if key_of(c) == k {
                            assert(before.by_coord@[k] == cell);
                        } else if before@.contains_key(c) && before@[c] == cell {
                            assert(before.by_cell@[cell] == key_of(c));
                        }
                    }
                }
            },
            None => {
                assert(self@ =~= without_cell(self@, cell)) by {
                    assert forall|c: Coordinates| #[trigger]
                        self@.contains_key(c) implies self@[c] != cell by {
                        assert(self.by_cell@.contains_key(self.by_coord@[key_of(c)]));
                    }
                }
            },
        }
        proof {
            self.lemma_view_one_to_one();
        }
    }

    /// Stores `cell` under `c`. The coordinates under which `cell` stood
    /// before are cleared, so that a cell that moved is found only at its new
    /// place; a cell that stood under `c` before leaves the index.
    pub fn insert(&mut self, c: Coordinates, cell: u64)
        requires
            old(self).wf(),
        ensures
            final(self).wf(),
            final(self)@ == without_cell(old(self)@, cell).insert(c, cell),
            one_to_one(final(self)@),
    {
        self.remove_cell(cell);
        let ghost mid = *self;
        proof {
            assert forall|h: u64| #[trigger] mid.by_cell@.contains_key(h) implies h != cell by {
                let kc = mid.by_cell@[h];
                assert(mid.by_coord@[kc] == h);
                assert(kc < 0x1_0000);
                let cc = Coordinates { x: (kc / 256) as u8, y: (kc % 256) as u8 };
                assert(key_of(cc) == kc);
                assert(mid@.contains_key(cc));
                assert(mid@[cc] == h);
                assert(without_cell(old(self)@, cell)[cc] != cell);
            }
            assert forall|k2: u64| #[trigger] mid.by_coord@.contains_key(k2) implies mid.by_coord@[k2] != cell by {
                assert(mid.by_cell@.contains_key(mid.by_coord@[k2]));
            }
        }
        let k = key(c);
        let prev = match self.by_coord.get(&k) {
            Some(h) => Some(*h),
            None => None,
        };
        match prev {
            Some(h0) => {
                self.by_cell.remove(&h0);
            },
            None => {},
        }
        self.by_coord.insert(k, cell);
        self.by_cell.insert(cell, k);
        proof {
            assert forall|k2: u64| #[trigger] self.by_coord@.contains_key(k2) implies {
                &&& k2 < 0x1_0000
                &&& self.by_cell@.contains_key(self.by_coord@[k2])
                &&& self.by_cell@[self.by_coord@[k2]] == k2
            } by {
                if k2 != k {
                    let h2 = mid.by_coord@[k2];
                    assert(mid.by_cell@[h2] == k2);
                }
            }
            assert forall|h: u64| #[trigger] self.by_cell@.contains_key(h) implies {
                &&& self.by_coord@.contains_key(self.by_cell@[h])
                &&& self.by_coord@[self.by_cell@[h]] == h
            } by {
                if h != cell {
                    let k2 = mid.by_cell@[h];
                    assert(mid.by_coord@[k2] == h);
                }
            }
            assert(self@ =~= without_cell(old(self)@, cell).insert(c, cell)) by {
                assert forall|d: Coordinates| #[trigger] self@.contains_key(d) == mid@.insert(c, cell).contains_key(d) by {
                    if key_of(d) == k {
                        lemma_key_injective(c, d);
                    }
                }
                assert forall|d: Coordinates| #[trigger] self@.contains_key(d) implies self@[d] == mid@.insert(c, cell)[d] by {
                    if key_of(d) == k {
                        lemma_key_injective(c, d);
                    }
                }
            }
            self.lemma_view_one_to_one();
        }
    }
}

/// Right after `cell` is stored under `c`, a lookup of `c` gives `cell`, and a
/// lookup of other coordinates that were never stored gives nothing.
pub proof fn lemma_insert_then_lookup(
    m: Map<Coordinates, u64>,
    c: Coordinates,
    cell: u64,
    other: Coordinates,
)
    requires
        other != c,
        !m.contains_key(other),
    ensures
        entry(without_cell(m, cell).insert(c, cell), c) == Some(cell),
        entry(without_cell(m, cell).insert(c, cell), other) == None::<u64>,
{
}

} // verus!
