//! Map tiles and sets of them.
//!
//! A tile is identified by its axial position; tile equality is coordinate
//! equality. A `TileSet` is a duplicate-free vector of tiles viewed as a
//! mathematical set, the building block for the selection engine's selected
//! and hovered collections.

use vstd::prelude::*;
use crate::coords::Position;

verus! {

/// The identity of a map tile: its axial position on the hex grid.
#[derive(Debug, Clone, Copy, PartialEq, Eq, Hash, Structural)]
pub struct TilePos {
    pub hex: Position,
}

impl TilePos {
    /// The tile at the given axial coordinates.
    pub fn new(alpha: isize, beta: isize) -> (t: TilePos)
        ensures
            t.hex == (Position { alpha, beta }),
    {
        TilePos { hex: Position { alpha, beta } }
    }
}

impl Default for TilePos {
    /// The tile at the origin.
    fn default() -> (t: Self)
        ensures
            t.hex == (Position { alpha: 0, beta: 0 }),
    {
        TilePos { hex: Position { alpha: 0, beta: 0 } }
    }
}

/// A finite set of tiles, stored as a duplicate-free vector.
#[derive(Debug, Clone)]
pub struct TileSet {
    items: Vec<TilePos>,
}

impl View for TileSet {
    type V = Set<TilePos>;

    closed spec fn view(&self) -> Set<TilePos> {
        self.items@.to_set()
    }
}

impl TileSet {
    /// Well-formedness: the backing vector never holds a tile twice.
    /// Constructors establish it and every method preserves it.
    pub closed spec fn wf(self) -> bool {
        self.items@.no_duplicates()
    }

    /// An empty set of tiles.
    pub fn new() -> (s: Self)
        ensures
            s.wf(),
            s@ == Set::<TilePos>::empty(),
    {
        let s = TileSet { items: Vec::new() };
        proof {
            assert(s@ =~= Set::<TilePos>::empty());
        }
        s
    }

    /// How many tiles the set holds.
    pub fn len(&self) -> (n: usize)
        requires
            self.wf(),
        ensures
            n == self@.len(),
    {
        proof {
            self.items@.unique_seq_to_set();
        }
        self.items.len()
    }

    /// Does the set hold no tiles at all?
    pub fn is_empty(&self) -> (r: bool)
        requires
            self.wf(),
        ensures
            r == (self@.len() == 0),
    {
        self.len() == 0
    }

    /// Is `tile` in the set?
    pub fn contains(&self, tile: TilePos) -> (r: bool)
        ensures
            r == self@.contains(tile),
    {
        let mut i: usize = 0;
        while i < self.items.len()
            invariant
                0 <= i <= self.items@.len(),
                forall|k: int| 0 <= k < i ==> self.items@[k] != tile,
            decreases self.items@.len() - i,
        {
            if self.items[i] == tile {
                return true;
            }
            i = i + 1;
        }
        false
    }

    /// Adds `tile` to the set; adding a tile already present changes
    /// nothing.
    pub fn insert(&mut self, tile: TilePos)
        requires
            old(self).wf(),
        ensures
            final(self).wf(),
            final(self)@ == old(self)@.insert(tile),
    {
        if !self.contains(tile) {
            self.items.push(tile);
            proof {
                assert(self.items@.no_duplicates());
                assert forall|t: TilePos|
                    self@.contains(t) <==> old(self)@.insert(tile).contains(t) by {
                    if self@.contains(t) {
                        let k = choose|k: int|
                            0 <= k < self.items@.len() && self.items@[k] == t;
                        if k < old(self).items@.len() {
                            assert(old(self).items@[k] == t);
                        } else {
                            assert(t == tile);
                        }
                    }
                    if old(self)@.contains(t) {
                        let k = choose|k: int|
                            0 <= k < old(self).items@.len() && old(self).items@[k] == t;
                        assert(self.items@[k] == t);
                    }
                    if t == tile {
                        assert(self.items@[self.items@.len() - 1] == tile);
                    }
                }
                assert(self@ =~= old(self)@.insert(tile));
            }
        } else {
            proof {
                assert(self@ =~= old(self)@.insert(tile));
            }
        }
    }

    /// Removes `tile` from the set; removing an absent tile changes
    /// nothing.
    pub fn remove(&mut self, tile: TilePos)
        requires
            old(self).wf(),
        ensures
            final(self).wf(),
            final(self)@ == old(self)@.remove(tile),
    {
        let mut i: usize = 0;
        while i < self.items.len()
            invariant
                0 <= i <= self.items@.len(),
                self.items@.no_duplicates(),
                self == old(self),
                forall|k: int| 0 <= k < i ==> self.items@[k] != tile,
            decreases self.items@.len() - i,
        {
            if self.items[i] == tile {
                self.items.remove(i);
                proof {
                    assert(self.items@.no_duplicates());
                    assert forall|t: TilePos| self@.contains(t) <==> old(
                        self,
                    )@.remove(tile).contains(t) by {
                        if old(self)@.remove(tile).contains(t) {
                            let k = choose|k: int|
                                0 <= k < old(self).items@.len() && old(self).items@[k] == t;
                            if k < i {
                                assert(self.items@[k] == t);
                            } else {
                                assert(old(self).items@[k] == t && k != i);
                                assert(self.items@[k - 1] == t);
                            }
                        }
                    }
                    assert(self@ =~= old(self)@.remove(tile));
                }
                return ;
            }
            i = i + 1;
        }
        proof {
            assert(!old(self)@.contains(tile));
            assert(self@ =~= old(self)@.remove(tile));
        }
    }

    /// Empties the set.
    pub fn clear(&mut self)
        ensures
            final(self).wf(),
            final(self)@ == Set::<TilePos>::empty(),
    {
        self.items = Vec::new();
        proof {
            assert(self@ =~= Set::<TilePos>::empty());
        }
    }

    /// The tiles of the set as a duplicate-free vector, for bulk consumers.
    pub fn as_vec(&self) -> (v: &Vec<TilePos>)
        requires
            self.wf(),
        ensures
            v@.to_set() == self@,
            v@.no_duplicates(),
    {
        &self.items
    }
}

} // verus!
