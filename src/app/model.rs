use vstd::prelude::*;
use crate::app::ui::{Change, ChangeSet};
use crate::model::{
    blinker_grid, block_grid, flips, grid_height, grid_width, in_grid, interior, lemma_blinker, live, lemma_block_still,
    neighbor_count, next_generation, next_state, well_formed,
};

pub use crate::model::Cell;

verus! {

/// A direction in which the selection cursor moves.
#[derive(PartialEq, Eq, Structural, Clone, Copy, Debug)]
pub enum Direction {
    Up,
    Down,
    Left,
    Right,
}

/// The cursor after one step in direction `d` on a `w` by `h` grid; a step
/// past an edge leaves it where it is.
pub open spec fn offset_cursor(cursor: (int, int), d: Direction, w: int, h: int) -> (int, int) {
    let (x, y) = cursor;
    match d {
        Direction::Up => if y > 0 { (x, y - 1) } else { (x, y) },
        Direction::Down => if y < h - 1 { (x, y + 1) } else { (x, y) },
        Direction::Left => if x > 0 { (x - 1, y) } else { (x, y) },
        Direction::Right => if x < w - 1 { (x + 1, y) } else { (x, y) },
    }
}

/// The redraw of a cursor move: the old tile loses its highlight, the new one
/// gains it; where the two coincide the tile stays highlighted.
pub open spec fn cursor_changes(g: Seq<Seq<Cell>>, from: (int, int), to: (int, int)) -> Map<(int, int), (Cell, bool)> {
    map![from => (g[from.1][from.0], false)].insert(to, (g[to.1][to.0], true))
}

/// The redraw of one generation: every cell that changes state, unselected.
pub open spec fn generation_changes(g: Seq<Seq<Cell>>) -> Map<(int, int), (Cell, bool)> {
    Map::new(|p: (int, int)| flips(g, p.0, p.1), |p: (int, int)| (next_state(g, p.0, p.1), false))
}

pub open spec fn toggled(c: Cell) -> Cell {
    match c {
        Cell::Alive => Cell::Dead,
        Cell::Dead => Cell::Alive,
    }
}

/// `g` with the cell at `(x, y)` replaced by `c`.
pub open spec fn with_cell(g: Seq<Seq<Cell>>, x: int, y: int, c: Cell) -> Seq<Seq<Cell>> {
    g.update(y, g[y].update(x, c))
}

/// The redraw of one generation of `blinker_grid(w, h, cx, cy, vertical)`:
/// the two ends of the line die and the two cells across its middle are born.
pub open spec fn blinker_changes(cx: int, cy: int, vertical: bool) -> Map<(int, int), (Cell, bool)> {
    if !vertical {
        map![(cx - 1, cy) => (Cell::Dead, false), (cx + 1, cy) => (Cell::Dead, false),
            (cx, cy - 1) => (Cell::Alive, false), (cx, cy + 1) => (Cell::Alive, false)]
    } else {
        map![(cx, cy - 1) => (Cell::Dead, false), (cx, cy + 1) => (Cell::Dead, false),
            (cx - 1, cy) => (Cell::Alive, false), (cx + 1, cy) => (Cell::Alive, false)]
    }
}

/// A cell with exactly two live neighbours is never part of a generation's
/// redraw.
pub proof fn lemma_two_neighbors_not_reported(g: Seq<Seq<Cell>>, x: int, y: int)
    requires
        well_formed(g),
        interior(g, x, y),
        neighbor_count(g, x, y) == 2,
    ensures
        !generation_changes(g).contains_key((x, y)),
{
}

/// A generation of a lone 2 by 2 block reports nothing and changes nothing.
pub proof fn lemma_block_no_changes(w: int, h: int, bx: int, by: int)
    requires
        w >= 3,
        h >= 3,
        0 <= bx && bx + 1 < w,
        0 <= by && by + 1 < h,
    ensures
        next_generation(block_grid(w, h, bx, by)) == block_grid(w, h, bx, by),
        generation_changes(block_grid(w, h, bx, by)) == Map::<(int, int), (Cell, bool)>::empty(),
{
    lemma_block_still(w, h, bx, by);
    assert(generation_changes(block_grid(w, h, bx, by)) =~= Map::<(int, int), (Cell, bool)>::empty());
}

#[verifier::rlimit(60)]
proof fn lemma_blinker_changes_once(w: int, h: int, cx: int, cy: int, vertical: bool)
    requires
        2 <= cx <= w - 3,
        2 <= cy <= h - 3,
    ensures
        generation_changes(blinker_grid(w, h, cx, cy, vertical)) == blinker_changes(cx, cy, vertical),
{
    lemma_blinker(w, h, cx, cy, vertical);
    let g = blinker_grid(w, h, cx, cy, vertical);
    let k = blinker_grid(w, h, cx, cy, !vertical);
    let m = blinker_changes(cx, cy, vertical);
    assert forall|p: (int, int)| #[trigger] generation_changes(g).contains_key(p) == m.contains_key(p) by {
        if 0 <= p.0 < w && 0 <= p.1 < h {
            assert(next_state(g, p.0, p.1) == k[p.1][p.0]);
        }
    }
    assert forall|p: (int, int)| #[trigger] m.contains_key(p) implies generation_changes(g)[p] == m[p] by {
        assert(next_state(g, p.0, p.1) == k[p.1][p.0]);
    }
    assert(generation_changes(g) =~= m);
}

/// Each of the two generations of a blinker reports exactly the four cells
/// that flip, and the second brings the grid back to where it started.
pub proof fn lemma_blinker_changes(w: int, h: int, cx: int, cy: int, vertical: bool)
    requires
        2 <= cx <= w - 3,
        2 <= cy <= h - 3,
    ensures
        generation_changes(blinker_grid(w, h, cx, cy, vertical)) == blinker_changes(cx, cy, vertical),
        generation_changes(next_generation(blinker_grid(w, h, cx, cy, vertical))) == blinker_changes(cx, cy, !vertical),
        next_generation(next_generation(blinker_grid(w, h, cx, cy, vertical))) == blinker_grid(w, h, cx, cy, vertical),
{
    lemma_blinker(w, h, cx, cy, vertical);
    lemma_blinker_changes_once(w, h, cx, cy, vertical);
    lemma_blinker_changes_once(w, h, cx, cy, !vertical);
}

/// A step of the cursor keeps it in the grid, and its redraw covers the old
/// and the new tile and nothing else. A step outward from an edge leaves the
/// cursor in place, and the one tile it reports stays highlighted.
pub proof fn lemma_offset_in_bounds(g: Seq<Seq<Cell>>, cursor: (int, int), d: Direction)
    requires
        well_formed(g),
        in_grid(g, cursor.0, cursor.1),
    ensures
        in_grid(g, offset_cursor(cursor, d, grid_width(g), grid_height(g)).0,
            offset_cursor(cursor, d, grid_width(g), grid_height(g)).1),
        cursor_changes(g, cursor, offset_cursor(cursor, d, grid_width(g), grid_height(g))).dom()
            == set![cursor, offset_cursor(cursor, d, grid_width(g), grid_height(g))],
        ((d == Direction::Up && cursor.1 == 0) || (d == Direction::Down && cursor.1 == grid_height(g) - 1)
            || (d == Direction::Left && cursor.0 == 0) || (d == Direction::Right && cursor.0 == grid_width(g) - 1))
            ==> {
            &&& offset_cursor(cursor, d, grid_width(g), grid_height(g)) == cursor
            &&& cursor_changes(g, cursor, cursor) == map![cursor => (g[cursor.1][cursor.0], true)]
        },
{
    let to = offset_cursor(cursor, d, grid_width(g), grid_height(g));
    assert(cursor_changes(g, cursor, to).dom() =~= set![cursor, to]);
    assert(cursor_changes(g, cursor, cursor) =~= map![cursor => (g[cursor.1][cursor.0], true)]);
}

/// Toggling the same cell twice gives back the grid it started from; each
/// toggle reports that one cell.
pub proof fn lemma_flip_twice(g: Seq<Seq<Cell>>, x: int, y: int)
    requires
        well_formed(g),
        in_grid(g, x, y),
    ensures
        with_cell(with_cell(g, x, y, toggled(g[y][x])), x, y, toggled(with_cell(g, x, y, toggled(g[y][x]))[y][x])) == g,
{
    let once = with_cell(g, x, y, toggled(g[y][x]));
    assert(toggled(once[y][x]) == g[y][x]);
    assert(with_cell(once, x, y, g[y][x]) =~= g) by {
        assert(with_cell(once, x, y, g[y][x])[y] =~= g[y]);
    }
}

/// The grid together with the selection cursor.
pub struct Model {
    grid: crate::model::Model,
    selected_tile: (usize, usize),
}

impl Model {
    /// The cells, row by row.
    pub closed spec fn cells(&self) -> Seq<Seq<Cell>> {
        self.grid@
    }

    /// The position of the selection cursor.
    pub closed spec fn cursor(&self) -> (int, int) {
        (self.selected_tile.0 as int, self.selected_tile.1 as int)
    }

    pub closed spec fn wf(&self) -> bool {
        &&& self.grid.wf()
        &&& in_grid(self.grid@, self.selected_tile.0 as int, self.selected_tile.1 as int)
    }

    pub open spec fn width(&self) -> int {
        grid_width(self.cells())
    }

    pub open spec fn height(&self) -> int {
        grid_height(self.cells())
    }

    /// A `w` by `h` grid of dead cells, with the cursor at its centre.
    pub fn new(w: usize, h: usize) -> (r: Model)
        requires
            w >= 3,
            h >= 3,
        ensures
            r.wf(),
            well_formed(r.cells()),
            r.width() == w,
            r.height() == h,
            forall|x: int, y: int| in_grid(r.cells(), x, y) ==> #[trigger] r.cells()[y][x] == Cell::Dead,
            r.cursor() == (w as int / 2, h as int / 2),
    {
        Model { grid: crate::model::Model::new(w, h), selected_tile: (w / 2, h / 2) }
    }

    /// 1 where the cell is alive, 0 where it is dead.
    pub fn get(&self, x: usize, y: usize) -> (r: u8)
        requires
            self.wf(),
            in_grid(self.cells(), x as int, y as int),
        ensures
            r == live(self.cells(), x as int, y as int),
    {
        self.grid.get(x, y)
    }

    fn cell(&self, x: usize, y: usize) -> (r: Cell)
        requires
            self.wf(),
            in_grid(self.cells(), x as int, y as int),
        ensures
            r == self.cells()[y as int][x as int],
    {
        if self.grid.get(x, y) == 1 { Cell::Alive } else { Cell::Dead }
    }

    /// The width of the grid, in cells.
    pub fn width_cells(&self) -> (r: usize)
        requires
            self.wf(),
        ensures
            r == self.width(),
    {
        self.grid.width()
    }

    /// The height of the grid, in cells.
    pub fn height_cells(&self) -> (r: usize)
        requires
            self.wf(),
        ensures
            r == self.height(),
    {
        self.grid.height()
    }

    /// The position of the selection cursor.
    pub fn selected(&self) -> (r: (usize, usize))
        ensures
            (r.0 as int, r.1 as int) == self.cursor(),
    {
        self.selected_tile
    }

    /// Overwrites one cell and reports it, with the given selection flag.
    pub fn set(&mut self, x: usize, y: usize, state: &Cell, select: bool) -> (r: ChangeSet)
        requires
            old(self).wf(),
            in_grid(old(self).cells(), x as int, y as int),
        ensures
            final(self).wf(),
            final(self).cells() == with_cell(old(self).cells(), x as int, y as int, *state),
            final(self).cursor() == old(self).cursor(),
            r.wf(),
            r@ == map![(x as int, y as int) => (*state, select)],
    {
        let mut res = ChangeSet::new();
        res.push_new(Change::new(x, y, state, select));
        self.grid.set(x, y, *state);
        assert(res@ =~= map![(x as int, y as int) => (*state, select)]);
        res
    }

    /// Advances the grid by one generation and reports each cell that changed.
    pub fn update(&mut self) -> (r: ChangeSet)
        requires
            old(self).wf(),
        ensures
            final(self).wf(),
            final(self).cells() == next_generation(old(self).cells()),
            final(self).cursor() == old(self).cursor(),
            r.wf(),
            r@ == generation_changes(old(self).cells()),
    {
        let ghost g = self.cells();
        let flipped = self.grid.update();
        let mut res = ChangeSet::new();
        let mut k: usize = 0;
        while k < flipped.len()
            invariant
                k <= flipped@.len(),
                res.wf(),
                forall|i: int| 0 <= i < flipped@.len() ==> {
                    let (x, y, c) = #[trigger] flipped@[i];
                    flips(g, x as int, y as int) && c == next_state(g, x as int, y as int)
                },
                forall|i: int, j: int| 0 <= i < j < flipped@.len() ==>
                    (flipped@[i].0, flipped@[i].1) != (flipped@[j].0, flipped@[j].1),
                forall|i: int| 0 <= i < k ==>
                    #[trigger] res@.contains_key((flipped@[i].0 as int, flipped@[i].1 as int))
                        && res@[(flipped@[i].0 as int, flipped@[i].1 as int)] == (flipped@[i].2, false),
                forall|p: (int, int)| #[trigger] res@.contains_key(p) ==>
                    exists|i: int| 0 <= i < k && (flipped@[i].0 as int, flipped@[i].1 as int) == p,
            decreases flipped@.len() - k,
        {
            let (x, y, c) = flipped[k];
            let ghost prev = res@;
            proof {
                if res@.contains_key((x as int, y as int)) {
                    let i = choose|i: int| 0 <= i < k && (flipped@[i].0 as int, flipped@[i].1 as int) == (x as int, y as int);
                    assert((flipped@[i].0, flipped@[i].1) != (flipped@[k as int].0, flipped@[k as int].1));
                }
            }
            res.push_new(Change::new(x, y, &c, false));
            assert forall|i: int| 0 <= i < k + 1 implies
                #[trigger] res@.contains_key((flipped@[i].0 as int, flipped@[i].1 as int))
                    && res@[(flipped@[i].0 as int, flipped@[i].1 as int)] == (flipped@[i].2, false) by {
                if i < k {
                    assert((flipped@[i].0, flipped@[i].1) != (flipped@[k as int].0, flipped@[k as int].1));
                    assert(prev.contains_key((flipped@[i].0 as int, flipped@[i].1 as int)));
                }
            }
            assert forall|p: (int, int)| #[trigger] res@.contains_key(p) implies
                exists|i: int| 0 <= i < k + 1 && (flipped@[i].0 as int, flipped@[i].1 as int) == p by {
                if p != (x as int, y as int) {
                    assert(prev.contains_key(p));
                }
            }
            k = k + 1;
        }
        assert forall|p: (int, int)| #[trigger] generation_changes(g).contains_key(p) implies res@.contains_key(p) by {
            assert(flips(g, p.0, p.1));
            let i = choose|i: int| 0 <= i < flipped@.len() && flipped@[i].0 == p.0 && flipped@[i].1 == p.1;
            assert(res@.contains_key((flipped@[i].0 as int, flipped@[i].1 as int)));
        }
        assert(res@ =~= generation_changes(g));
        res
    }

    fn move_to(&mut self, x: usize, y: usize) -> (r: ChangeSet)
        requires
            old(self).wf(),
            in_grid(old(self).cells(), x as int, y as int),
        ensures
            final(self).wf(),
            final(self).cells() == old(self).cells(),
            final(self).cursor() == (x as int, y as int),
            r.wf(),
            r@ == cursor_changes(old(self).cells(), old(self).cursor(), (x as int, y as int)),
    {
        let (x_old, y_old) = self.selected_tile;
        let mut res = ChangeSet::new();
        res.push_new(Change::new(x_old, y_old, &self.cell(x_old, y_old), false));
        self.selected_tile = (x, y);
        res.insert(Change::new(x, y, &self.cell(x, y), true));
        assert(res@ =~= cursor_changes(old(self).cells(), old(self).cursor(), (x as int, y as int)));
        res
    }

    /// Moves the cursor one cell in direction `d`, staying in the grid, and
    /// reports the old and the new cursor tile.
    pub fn offset_selected(&mut self, d: Direction) -> (r: ChangeSet)
        requires
            old(self).wf(),
        ensures
            final(self).wf(),
            final(self).cells() == old(self).cells(),
            final(self).cursor() == offset_cursor(old(self).cursor(), d, old(self).width(), old(self).height()),
            r.wf(),
            r@ == cursor_changes(old(self).cells(), old(self).cursor(), final(self).cursor()),
    {
        let (mut x, mut y) = self.selected_tile;
        let w = self.grid.width();
        let h = self.grid.height();
        match d {
            Direction::Up => if y > 0 { y = y - 1; },
            Direction::Down => if y < h - 1 { y = y + 1; },
            Direction::Left => if x > 0 { x = x - 1; },
            Direction::Right => if x < w - 1 { x = x + 1; },
        }
        self.move_to(x, y)
    }

    /// Moves the cursor to `(x, y)` and reports the old and the new cursor tile.
    pub fn move_selected(&mut self, x: usize, y: usize) -> (r: ChangeSet)
        requires
            old(self).wf(),
            in_grid(old(self).cells(), x as int, y as int),
        ensures
            final(self).wf(),
            final(self).cells() == old(self).cells(),
            final(self).cursor() == (x as int, y as int),
            r.wf(),
            r@ == cursor_changes(old(self).cells(), old(self).cursor(), (x as int, y as int)),
    {
        self.move_to(x, y)
    }

    /// Toggles the cell under the cursor and reports it, selected.
    pub fn flip_selected(&mut self) -> (r: ChangeSet)
        requires
            old(self).wf(),
        ensures
            final(self).wf(),
            final(self).cursor() == old(self).cursor(),
            final(self).cells() == with_cell(old(self).cells(), old(self).cursor().0, old(self).cursor().1,
                toggled(old(self).cells()[old(self).cursor().1][old(self).cursor().0])),
            r.wf(),
            r@ == map![old(self).cursor() => (toggled(old(self).cells()[old(self).cursor().1][old(self).cursor().0]), true)],
    {
        let (x, y) = self.selected_tile;
        match self.cell(x, y) {
            Cell::Dead => self.set(x, y, &Cell::Alive, true),
            Cell::Alive => self.set(x, y, &Cell::Dead, true),
        }
    }

    /// Makes the cell at `(x, y)` alive and reports it, unselected; the cursor
    /// does not move.
    pub fn paint(&mut self, x: usize, y: usize) -> (r: ChangeSet)
        requires
            old(self).wf(),
            in_grid(old(self).cells(), x as int, y as int),
        ensures
            final(self).wf(),
            final(self).cells() == with_cell(old(self).cells(), x as int, y as int, Cell::Alive),
            final(self).cursor() == old(self).cursor(),
            r.wf(),
            r@ == map![(x as int, y as int) => (Cell::Alive, false)],
    {
        self.set(x, y, &Cell::Alive, false)
    }
}

} // verus!
