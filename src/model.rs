use vstd::prelude::*;

verus! {

/// The state of one cell of the grid.
#[derive(PartialEq, Eq, Structural, Clone, Copy, Debug, Hash, PartialOrd, Ord)]
pub enum Cell {
    Alive,
    Dead,
}

/// A grid is a non-empty sequence of rows of equal length, at least three
/// cells wide and three cells high.
pub open spec fn well_formed(g: Seq<Seq<Cell>>) -> bool {
    &&& g.len() >= 3
    &&& g[0].len() >= 3
    &&& forall|j: int| 0 <= j < g.len() ==> #[trigger] g[j].len() == g[0].len()
}

pub open spec fn grid_width(g: Seq<Seq<Cell>>) -> int {
    g[0].len() as int
}

pub open spec fn grid_height(g: Seq<Seq<Cell>>) -> int {
    g.len() as int
}

pub open spec fn in_grid(g: Seq<Seq<Cell>>, x: int, y: int) -> bool {
    0 <= x < grid_width(g) && 0 <= y < grid_height(g)
}

/// The cells that the evolution rule looks at: all but the outermost ring.
pub open spec fn interior(g: Seq<Seq<Cell>>, x: int, y: int) -> bool {
    1 <= x < grid_width(g) - 1 && 1 <= y < grid_height(g) - 1
}

pub open spec fn live(g: Seq<Seq<Cell>>, x: int, y: int) -> int {
    if g[y][x] == Cell::Alive { 1 } else { 0 }
}

/// The number of live cells among the eight around `(x, y)`.
pub open spec fn neighbor_count(g: Seq<Seq<Cell>>, x: int, y: int) -> int {
    live(g, x - 1, y - 1) + live(g, x, y - 1) + live(g, x + 1, y - 1)
        + live(g, x - 1, y) + live(g, x + 1, y)
        + live(g, x - 1, y + 1) + live(g, x, y + 1) + live(g, x + 1, y + 1)
}

/// The rule: two neighbours keep a cell as it is, three make it live, any
/// other count makes it dead.
pub open spec fn rule(current: Cell, neighbors: int) -> Cell {
    if neighbors == 2 {
        current
    } else if neighbors == 3 {
        Cell::Alive
    } else {
        Cell::Dead
    }
}

/// The state of `(x, y)` in the next generation; the outer ring never changes.
pub open spec fn next_state(g: Seq<Seq<Cell>>, x: int, y: int) -> Cell {
    if interior(g, x, y) {
        rule(g[y][x], neighbor_count(g, x, y))
    } else {
        g[y][x]
    }
}

pub open spec fn next_generation(g: Seq<Seq<Cell>>) -> Seq<Seq<Cell>> {
    Seq::new(g.len(), |y: int| Seq::new(g[y].len(), |x: int| next_state(g, x, y)))
}

/// Whether the cell at `(x, y)` changes state from `g` to the next generation.
pub open spec fn flips(g: Seq<Seq<Cell>>, x: int, y: int) -> bool {
    in_grid(g, x, y) && next_state(g, x, y) != g[y][x]
}

/// A `w` by `h` grid whose only live cells form the 2 by 2 block with top
/// left corner `(bx, by)`.
pub open spec fn block_grid(w: int, h: int, bx: int, by: int) -> Seq<Seq<Cell>> {
    Seq::new(h as nat, |y: int| Seq::new(w as nat, |x: int|
        if bx <= x <= bx + 1 && by <= y <= by + 1 { Cell::Alive } else { Cell::Dead }))
}

/// A `w` by `h` grid whose only live cells are three in a line centred on
/// `(cx, cy)`, across when `vertical` is false, down when it is true.
pub open spec fn blinker_grid(w: int, h: int, cx: int, cy: int, vertical: bool) -> Seq<Seq<Cell>> {
    Seq::new(h as nat, |y: int| Seq::new(w as nat, |x: int|
        if (!vertical && y == cy && cx - 1 <= x <= cx + 1) || (vertical && x == cx && cy - 1 <= y <= cy + 1) {
            Cell::Alive
        } else {
            Cell::Dead
        }))
}

/// A generation leaves the outermost ring of cells as it was, and keeps the
/// grid's shape.
pub proof fn lemma_border_fixed(g: Seq<Seq<Cell>>)
    requires
        well_formed(g),
    ensures
        well_formed(next_generation(g)),
        grid_width(next_generation(g)) == grid_width(g),
        grid_height(next_generation(g)) == grid_height(g),
        forall|x: int, y: int| in_grid(g, x, y) && !interior(g, x, y) ==>
            #[trigger] next_generation(g)[y][x] == g[y][x],
{
}

/// A 2 by 2 block with nothing else alive is a still life: a generation
/// changes no cell.
pub proof fn lemma_block_still(w: int, h: int, bx: int, by: int)
    requires
        w >= 3,
        h >= 3,
        0 <= bx && bx + 1 < w,
        0 <= by && by + 1 < h,
    ensures
        next_generation(block_grid(w, h, bx, by)) == block_grid(w, h, bx, by),
        forall|x: int, y: int| !#[trigger] flips(block_grid(w, h, bx, by), x, y),
{
    let g = block_grid(w, h, bx, by);
    assert forall|x: int, y: int| 0 <= x < w && 0 <= y < h implies #[trigger] next_state(g, x, y) == g[y][x] by {
        if interior(g, x, y) {
            assert(live(g, x - 1, y - 1) == if bx <= x - 1 <= bx + 1 && by <= y - 1 <= by + 1 { 1int } else { 0 });
            assert(live(g, x, y - 1) == if bx <= x <= bx + 1 && by <= y - 1 <= by + 1 { 1int } else { 0 });
            assert(live(g, x + 1, y - 1) == if bx <= x + 1 <= bx + 1 && by <= y - 1 <= by + 1 { 1int } else { 0 });
            assert(live(g, x - 1, y) == if bx <= x - 1 <= bx + 1 && by <= y <= by + 1 { 1int } else { 0 });
            assert(live(g, x + 1, y) == if bx <= x + 1 <= bx + 1 && by <= y <= by + 1 { 1int } else { 0 });
            assert(live(g, x - 1, y + 1) == if bx <= x - 1 <= bx + 1 && by <= y + 1 <= by + 1 { 1int } else { 0 });
            assert(live(g, x, y + 1) == if bx <= x <= bx + 1 && by <= y + 1 <= by + 1 { 1int } else { 0 });
            assert(live(g, x + 1, y + 1) == if bx <= x + 1 <= bx + 1 && by <= y + 1 <= by + 1 { 1int } else { 0 });
        }
    }
    assert forall|y: int| 0 <= y < h implies #[trigger] next_generation(g)[y] =~= g[y] by {
        assert forall|x: int| 0 <= x < w implies next_generation(g)[y][x] == g[y][x] by {
            assert(next_state(g, x, y) == g[y][x]);
        }
    }
    assert(next_generation(g) =~= g);
}

/// The state of `blinker_grid(w, h, cx, cy, vertical)` at `(x, y)`.
proof fn lemma_blinker_next(w: int, h: int, cx: int, cy: int, vertical: bool, x: int, y: int)
    requires
        2 <= cx <= w - 3,
        2 <= cy <= h - 3,
        0 <= x < w,
        0 <= y < h,
    ensures
        next_state(blinker_grid(w, h, cx, cy, vertical), x, y) == blinker_grid(w, h, cx, cy, !vertical)[y][x],
{
    let g = blinker_grid(w, h, cx, cy, vertical);
    if interior(g, x, y) {
        assert(live(g, x - 1, y - 1) == if g[y - 1][x - 1] == Cell::Alive { 1int } else { 0 });
        assert(live(g, x, y - 1) == if g[y - 1][x] == Cell::Alive { 1int } else { 0 });
        assert(live(g, x + 1, y - 1) == if g[y - 1][x + 1] == Cell::Alive { 1int } else { 0 });
        assert(live(g, x - 1, y) == if g[y][x - 1] == Cell::Alive { 1int } else { 0 });
        assert(live(g, x + 1, y) == if g[y][x + 1] == Cell::Alive { 1int } else { 0 });
        assert(live(g, x - 1, y + 1) == if g[y + 1][x - 1] == Cell::Alive { 1int } else { 0 });
        assert(live(g, x, y + 1) == if g[y + 1][x] == Cell::Alive { 1int } else { 0 });
        assert(live(g, x + 1, y + 1) == if g[y + 1][x + 1] == Cell::Alive { 1int } else { 0 });
    }
}

/// A blinker turns from across to down and back: it returns to where it
/// started after exactly two generations.
pub proof fn lemma_blinker(w: int, h: int, cx: int, cy: int, vertical: bool)
    requires
        2 <= cx <= w - 3,
        2 <= cy <= h - 3,
    ensures
        next_generation(blinker_grid(w, h, cx, cy, vertical)) == blinker_grid(w, h, cx, cy, !vertical),
        next_generation(blinker_grid(w, h, cx, cy, vertical)) != blinker_grid(w, h, cx, cy, vertical),
        next_generation(next_generation(blinker_grid(w, h, cx, cy, vertical))) == blinker_grid(w, h, cx, cy, vertical),
        forall|x: int, y: int| 0 <= x < w && 0 <= y < h ==>
            #[trigger] next_state(blinker_grid(w, h, cx, cy, vertical), x, y) == blinker_grid(w, h, cx, cy, !vertical)[y][x],
{
    let g = blinker_grid(w, h, cx, cy, vertical);
    let k = blinker_grid(w, h, cx, cy, !vertical);
    assert forall|x: int, y: int| 0 <= x < w && 0 <= y < h implies #[trigger] next_state(g, x, y) == k[y][x] by {
        lemma_blinker_next(w, h, cx, cy, vertical, x, y);
    }
    assert forall|x: int, y: int| 0 <= x < w && 0 <= y < h implies #[trigger] next_state(k, x, y) == g[y][x] by {
        lemma_blinker_next(w, h, cx, cy, !vertical, x, y);
    }
    assert forall|y: int| 0 <= y < h implies #[trigger] next_generation(g)[y] =~= k[y] by {
        assert forall|x: int| 0 <= x < w implies next_generation(g)[y][x] == k[y][x] by {
            assert(next_state(g, x, y) == k[y][x]);
        }
    }
    assert(next_generation(g) =~= k);
    assert forall|y: int| 0 <= y < h implies #[trigger] next_generation(k)[y] =~= g[y] by {
        assert forall|x: int| 0 <= x < w implies next_generation(k)[y][x] == g[y][x] by {
            assert(next_state(k, x, y) == g[y][x]);
        }
    }
    assert(next_generation(k) =~= g);
    assert(g[cy - 1][cx] != k[cy - 1][cx]);
}

/// The grid of cells, stored row by row.
pub struct Model {
    grid: Vec<Vec<Cell>>,
}

impl View for Model {
    type V = Seq<Seq<Cell>>;

    closed spec fn view(&self) -> Seq<Seq<Cell>> {
        self.grid@.map_values(|r: Vec<Cell>| r@)
    }
}

impl Model {
    pub open spec fn wf(&self) -> bool {
        &&& well_formed(self@)
        &&& grid_width(self@) <= usize::MAX
        &&& grid_height(self@) <= usize::MAX
    }

    /// A `w` by `h` grid of dead cells.
    pub fn new(w: usize, h: usize) -> (r: Model)
        requires
            w >= 3,
            h >= 3,
        ensures
            r.wf(),
            grid_width(r@) == w,
            grid_height(r@) == h,
            forall|x: int, y: int| in_grid(r@, x, y) ==> #[trigger] r@[y][x] == Cell::Dead,
    {
        let mut grid: Vec<Vec<Cell>> = Vec::new();
        let mut j: usize = 0;
        while j < h
            invariant
                j <= h,
                grid@.len() == j,
                forall|k: int| 0 <= k < j ==> #[trigger] grid@[k]@.len() == w,
                forall|k: int, i: int| 0 <= k < j && 0 <= i < w ==> #[trigger] grid@[k]@[i] == Cell::Dead,
            decreases h - j,
        {
            let mut row: Vec<Cell> = Vec::new();
            let mut i: usize = 0;
            while i < w
                invariant
                    i <= w,
                    row@.len() == i,
                    forall|k: int| 0 <= k < i ==> #[trigger] row@[k] == Cell::Dead,
                decreases w - i,
            {
                row.push(Cell::Dead);
                i = i + 1;
            }
            grid.push(row);
            j = j + 1;
        }
        let r = Model { grid };
        assert forall|x: int, y: int| in_grid(r@, x, y) implies #[trigger] r@[y][x] == Cell::Dead by {
            assert(r@[y] == r.grid@[y]@);
        }
        r
    }

    /// The width of the grid, in cells.
    pub fn width(&self) -> (r: usize)
        requires
            self.wf(),
        ensures
            r == grid_width(self@),
    {
        self.grid[0].len()
    }

    /// The height of the grid, in cells.
    pub fn height(&self) -> (r: usize)
        requires
            self.wf(),
        ensures
            r == grid_height(self@),
    {
        self.grid.len()
    }

    /// 1 where the cell is alive, 0 where it is dead.
    pub fn get(&self, x: usize, y: usize) -> (r: u8)
        requires
            self.wf(),
            in_grid(self@, x as int, y as int),
        ensures
            r == live(self@, x as int, y as int),
    {
        assert(self@[y as int] == self.grid@[y as int]@);
        match &self.grid[y][x] {
            Cell::Alive => 1,
            Cell::Dead => 0,
        }
    }

    fn get_neighbors(&self, x: usize, y: usize) -> (r: u8)
        requires
            self.wf(),
            interior(self@, x as int, y as int),
        ensures
            r == neighbor_count(self@, x as int, y as int),
    {
        self.get(x - 1, y - 1) + self.get(x, y - 1) + self.get(x + 1, y - 1)
            + self.get(x - 1, y) + self.get(x + 1, y)
            + self.get(x - 1, y + 1) + self.get(x, y + 1) + self.get(x + 1, y + 1)
    }

    /// Advances the grid by one generation and returns, for each cell whose
    /// state changed, its position and its new state. Every cell is computed
    /// from the generation before the call.
    pub fn update(&mut self) -> (r: Vec<(usize, usize, Cell)>)
        requires
            old(self).wf(),
        ensures
            final(self).wf(),
            final(self)@ == next_generation(old(self)@),
            forall|k: int| 0 <= k < r@.len() ==> {
                let (x, y, c) = #[trigger] r@[k];
                flips(old(self)@, x as int, y as int) && c == next_state(old(self)@, x as int, y as int)
            },
            forall|k: int, l: int| 0 <= k < l < r@.len() ==> (r@[k].0, r@[k].1) != (r@[l].0, r@[l].1),
            forall|x: int, y: int| #[trigger] flips(old(self)@, x, y) ==>
                exists|k: int| 0 <= k < r@.len() && r@[k].0 == x && r@[k].1 == y,
    {
        let ghost g = self@;
        let h = self.height();
        let w = self.width();
        let mut next: Vec<Vec<Cell>> = Vec::new();
        let mut res: Vec<(usize, usize, Cell)> = Vec::new();
        let mut j: usize = 0;
        while j < h
            invariant
                self@ == g,
                well_formed(g),
                h == grid_height(g),
                w == grid_width(g),
                j <= h,
                next@.len() == j,
                forall|k: int| 0 <= k < j ==> #[trigger] next@[k]@ == next_generation(g)[k],
                forall|k: int| 0 <= k < res@.len() ==> {
                    let (x, y, c) = #[trigger] res@[k];
                    flips(g, x as int, y as int) && c == next_state(g, x as int, y as int) && y < j
                },
                forall|k: int, l: int| 0 <= k < l < res@.len() ==>
                    res@[k].1 < res@[l].1 || (res@[k].1 == res@[l].1 && res@[k].0 < res@[l].0),
                forall|x: int, y: int| #[trigger] flips(g, x, y) && y < j ==>
                    exists|k: int| 0 <= k < res@.len() && res@[k].0 == x && res@[k].1 == y,
            decreases h - j,
        {
            let mut row: Vec<Cell> = Vec::new();
            let mut i: usize = 0;
            let ghost before = res@.len();
            while i < w
                invariant
                    self@ == g,
                    well_formed(g),
                    h == grid_height(g),
                    w == grid_width(g),
                    j < h,
                    i <= w,
                    before <= res@.len(),
                    row@.len() == i,
                    forall|k: int| 0 <= k < i ==> #[trigger] row@[k] == next_state(g, k, j as int),
                    forall|k: int| 0 <= k < res@.len() ==> {
                        let (x, y, c) = #[trigger] res@[k];
                        flips(g, x as int, y as int) && c == next_state(g, x as int, y as int)
                            && (y < j || (y == j && x < i))
                    },
                    forall|k: int| before <= k < res@.len() ==> #[trigger] res@[k].1 == j,
                    forall|k: int, l: int| 0 <= k < l < res@.len() ==>
                        res@[k].1 < res@[l].1 || (res@[k].1 == res@[l].1 && res@[k].0 < res@[l].0),
                    forall|x: int, y: int| #[trigger] flips(g, x, y) && (y < j || (y == j && x < i)) ==>
                        exists|k: int| 0 <= k < res@.len() && res@[k].0 == x && res@[k].1 == y,
                decreases w - i,
            {
                assert(g[j as int] == self.grid@[j as int]@);
                let ghost prev = res@;
                let current = self.grid[j][i];
                let cell = if 1 <= i && i < w - 1 && 1 <= j && j < h - 1 {
                    match self.get_neighbors(i, j) {
                        2 => current,
                        3 => Cell::Alive,
                        _ => Cell::Dead,
                    }
                } else {
                    current
                };
                row.push(cell);
                if cell != current {
                    res.push((i, j, cell));
                    assert(res@[res@.len() - 1].0 == i && res@[res@.len() - 1].1 == j);
                }
                assert forall|x: int, y: int| #[trigger] flips(g, x, y) && (y < j || (y == j && x < i + 1)) implies
                    exists|k: int| 0 <= k < res@.len() && res@[k].0 == x && res@[k].1 == y by {
                    if y == j && x == i {
                        assert(res@[res@.len() - 1].0 == x && res@[res@.len() - 1].1 == y);
                    } else {
                        let k = choose|k: int| 0 <= k < prev.len() && prev[k].0 == x && prev[k].1 == y;
                        assert(res@[k] == prev[k]);
                    }
                }
                i = i + 1;
            }
            assert(row@ =~= next_generation(g)[j as int]);
            next.push(row);
            j = j + 1;
        }
        self.grid = next;
        assert(self@ =~= next_generation(g));
        res
    }

    /// Overwrites one cell.
    pub fn set(&mut self, x: usize, y: usize, state: Cell)
        requires
            old(self).wf(),
            in_grid(old(self)@, x as int, y as int),
        ensures
            final(self)@ == old(self)@.update(y as int, old(self)@[y as int].update(x as int, state)),
            final(self).wf(),
    {
        assert(old(self)@[y as int] == old(self).grid@[y as int]@);
        self.grid[y][x] = state;
        assert(self@ =~= old(self)@.update(y as int, old(self)@[y as int].update(x as int, state)));
        assert(self@[0].len() == old(self)@[0].len());
    }
}

} // verus!
