use vstd::prelude::*;
use crate::model::Cell;

verus! {

/// What must be redrawn of one cell: its position, its life state and
/// whether the selection cursor is on it.
#[derive(PartialEq, Eq, Structural, Clone, Copy, Debug)]
pub struct Change {
    pub x: usize,
    pub y: usize,
    pub state: Cell,
    pub selected: bool,
}

pub open spec fn position(c: Change) -> (int, int) {
    (c.x as int, c.y as int)
}

pub open spec fn look(c: Change) -> (Cell, bool) {
    (c.state, c.selected)
}

impl Change {
    pub fn new(x: usize, y: usize, state: &Cell, selected: bool) -> (r: Change)
        ensures
            r == (Change { x, y, state: *state, selected }),
    {
        Change { x, y, state: *state, selected }
    }
}

/// A set of redraw instructions, at most one for each position. Seen as a
/// map from position to the state and selection flag to draw there.
pub struct ChangeSet {
    changes: Vec<Change>,
    entries: Ghost<Map<(int, int), (Cell, bool)>>,
}

impl View for ChangeSet {
    type V = Map<(int, int), (Cell, bool)>;

    closed spec fn view(&self) -> Map<(int, int), (Cell, bool)> {
        self.entries@
    }
}

impl ChangeSet {
    pub closed spec fn wf(&self) -> bool {
        &&& self.entries@.dom().finite()
        &&& self.entries@.len() == self.changes@.len()
        &&& forall|i: int| 0 <= i < self.changes@.len() ==>
            #[trigger] self.entries@.contains_key(position(self.changes@[i]))
                && self.entries@[position(self.changes@[i])] == look(self.changes@[i])
        &&& forall|i: int, j: int| 0 <= i < j < self.changes@.len() ==>
            position(self.changes@[i]) != position(self.changes@[j])
        &&& forall|p: (int, int)| #[trigger] self.entries@.contains_key(p) ==>
            exists|i: int| 0 <= i < self.changes@.len() && position(self.changes@[i]) == p
    }

    /// An empty set.
    pub fn new() -> (r: ChangeSet)
        ensures
            r.wf(),
            r@ == Map::<(int, int), (Cell, bool)>::empty(),
    {
        ChangeSet { changes: Vec::new(), entries: Ghost(Map::empty()) }
    }

    /// Adds a change whose position is not in the set yet.
    pub(crate) fn push_new(&mut self, c: Change)
        requires
            old(self).wf(),
            !old(self)@.contains_key(position(c)),
        ensures
            final(self).wf(),
            final(self)@ == old(self)@.insert(position(c), look(c)),
    {
        let ghost prev = self.changes@;
        assert forall|i: int| 0 <= i < prev.len() implies position(#[trigger] prev[i]) != position(c) by {
            assert(self.entries@.contains_key(position(prev[i])));
        }
        self.changes.push(c);
        self.entries = Ghost(self.entries@.insert(position(c), look(c)));
        assert forall|p: (int, int)| #[trigger] self.entries@.contains_key(p) implies
            exists|i: int| 0 <= i < self.changes@.len() && position(self.changes@[i]) == p by {
            if p == position(c) {
                assert(position(self.changes@[prev.len() as int]) == p);
            } else {
                let i = choose|i: int| 0 <= i < prev.len() && position(prev[i]) == p;
                assert(self.changes@[i] == prev[i]);
            }
        }
        assert forall|i: int| 0 <= i < self.changes@.len() implies
            #[trigger] self.entries@.contains_key(position(self.changes@[i]))
                && self.entries@[position(self.changes@[i])] == look(self.changes@[i]) by {
            if i < prev.len() {
                assert(self.changes@[i] == prev[i]);
            }
        }
    }

    /// Records a change; one already recorded at the same position is
    /// replaced, so the last change written for a position wins.
    pub fn insert(&mut self, c: Change)
        requires
            old(self).wf(),
        ensures
            final(self).wf(),
            final(self)@ == old(self)@.insert(position(c), look(c)),
    {
        let mut k: usize = 0;
        while k < self.changes.len()
            invariant
                self.wf(),
                self@ == old(self)@,
                self.changes@ == old(self).changes@,
                k <= self.changes@.len(),
                forall|i: int| 0 <= i < k ==> position(#[trigger] self.changes@[i]) != position(c),
            decreases self.changes@.len() - k,
        {
            if self.changes[k].x == c.x && self.changes[k].y == c.y {
                let ghost prev = self.changes@;
                let ghost prev_entries = self.entries@;
                assert(self.entries@.contains_key(position(self.changes@[k as int])));
                self.changes[k] = c;
                self.entries = Ghost(self.entries@.insert(position(c), look(c)));
                assert(self.entries@.dom() =~= old(self)@.dom());
                assert forall|p: (int, int)| #[trigger] self.entries@.contains_key(p) implies
                    exists|i: int| 0 <= i < self.changes@.len() && position(self.changes@[i]) == p by {
                    if p == position(c) {
                        assert(position(self.changes@[k as int]) == p);
                    } else {
                        let i = choose|i: int| 0 <= i < prev.len() && position(prev[i]) == p;
                        assert(self.changes@[i] == prev[i]);
                    }
                }
                assert forall|i: int, j: int| 0 <= i < j < self.changes@.len() implies
                    position(self.changes@[i]) != position(self.changes@[j]) by {
                    assert(position(prev[i]) != position(prev[j]));
                }
                assert forall|i: int| 0 <= i < self.changes@.len() implies
                    #[trigger] self.entries@.contains_key(position(self.changes@[i]))
                        && self.entries@[position(self.changes@[i])] == look(self.changes@[i]) by {
                    if i != k {
                        assert(self.changes@[i] == prev[i]);
                        assert(position(prev[i]) != position(prev[k as int]));
                        assert(prev_entries.contains_key(position(prev[i])));
                    }
                }
                return;
            }
            k = k + 1;
        }
        self.push_new(c);
    }

    /// The number of positions in the set.
    pub fn len(&self) -> (r: usize)
        requires
            self.wf(),
        ensures
            r == self@.len(),
    {
        self.changes.len()
    }

    /// The change recorded at `(x, y)`, if any.
    pub fn get(&self, x: usize, y: usize) -> (r: Option<Change>)
        requires
            self.wf(),
        ensures
            r == (if self@.contains_key((x as int, y as int)) {
                Some(Change { x, y, state: self@[(x as int, y as int)].0, selected: self@[(x as int, y as int)].1 })
            } else {
                None
            }),
    {
        let mut k: usize = 0;
        while k < self.changes.len()
            invariant
                self.wf(),
                k <= self.changes@.len(),
                forall|i: int| 0 <= i < k ==> position(#[trigger] self.changes@[i]) != (x as int, y as int),
            decreases self.changes@.len() - k,
        {
            if self.changes[k].x == x && self.changes[k].y == y {
                assert(self.entries@.contains_key(position(self.changes@[k as int])));
                return Some(self.changes[k]);
            }
            k = k + 1;
        }
        None
    }

    /// The changes, one per position, in no particular order.
    pub fn to_vec(&self) -> (r: Vec<Change>)
        requires
            self.wf(),
        ensures
            r@.len() == self@.len(),
            forall|i: int| 0 <= i < r@.len() ==>
                #[trigger] self@.contains_key(position(r@[i])) && self@[position(r@[i])] == look(r@[i]),
            forall|i: int, j: int| 0 <= i < j < r@.len() ==> position(r@[i]) != position(r@[j]),
    {
        self.changes.clone()
    }
}

/// Converts a pixel coordinate to the index of the cell it falls in, for
/// cells `unit` pixels wide.
pub fn to_model_space(n: i32, unit: u32) -> (r: usize)
    requires
        n >= 0,
        unit > 0,
    ensures
        r == n as int / unit as int,
{
    (n as u32 / unit) as usize
}

} // verus!
