use vstd::prelude::*;

verus! {

/// The mathematical picture of a grid: its dimensions and the set of
/// coordinates whose cell is alive. Every coordinate in
/// `[0, width) x [0, height)` not in `live` is dead.
#[verifier::ext_equal]
pub struct GridModel {
    pub width: nat,
    pub height: nat,
    pub live: Set<(int, int)>,
}

impl GridModel {
    pub open spec fn in_bounds(self, x: int, y: int) -> bool {
        0 <= x < self.width && 0 <= y < self.height
    }

    /// Whether `(x, y)` is a live cell; anything outside the grid is dead.
    pub open spec fn is_live(self, x: int, y: int) -> bool {
        self.in_bounds(x, y) && self.live.contains((x, y))
    }

    /// A grid of the given size with every cell dead.
    pub open spec fn dead(width: nat, height: nat) -> GridModel {
        GridModel { width, height, live: Set::empty() }
    }

    /// The same grid with the cell at `(x, y)` set to `value`.
    pub open spec fn with_cell(self, x: int, y: int, value: bool) -> GridModel {
        GridModel {
            live: if value {
                self.live.insert((x, y))
            } else {
                self.live.remove((x, y))
            },
            ..self
        }
    }

    /// The same grid with the cell at `(x, y)` flipped.
    pub open spec fn toggled(self, x: int, y: int) -> GridModel {
        self.with_cell(x, y, !self.live.contains((x, y)))
    }

    /// The same grid with every cell dead.
    pub open spec fn cleared(self) -> GridModel {
        GridModel::dead(self.width, self.height)
    }
}

/// Position of cell `(x, y)` in the flat buffer of a grid `height` cells tall.
pub open spec fn cell_index(height: int, x: int, y: int) -> int {
    x * height + y
}

/// The coordinates listed in `cells`, as a set.
pub open spec fn listed(cells: Seq<(usize, usize)>) -> Set<(int, int)> {
    Set::new(
        |p: (int, int)|
            exists|i: int|
                0 <= i < cells.len() && #[trigger] cells[i].0 as int == p.0 && cells[i].1 as int
                    == p.1,
    )
}

proof fn lemma_cell_index_in_range(width: int, height: int, x: int, y: int)
    requires
        0 <= x < width,
        0 <= y < height,
    ensures
        0 <= cell_index(height, x, y) < width * height,
{
    assert(0 <= x * height + y < width * height) by (nonlinear_arith)
        requires
            0 <= x < width,
            0 <= y < height,
    ;
}

proof fn lemma_cell_index_injective(height: int, x1: int, y1: int, x2: int, y2: int)
    requires
        0 <= x1,
        0 <= x2,
        0 <= y1 < height,
        0 <= y2 < height,
        cell_index(height, x1, y1) == cell_index(height, x2, y2),
    ensures
        x1 == x2,
        y1 == y2,
{
    if x1 < x2 {
        assert(x1 * height + height <= x2 * height) by (nonlinear_arith)
            requires
                x1 < x2,
                0 <= height,
        ;
    } else if x2 < x1 {
        assert(x2 * height + height <= x1 * height) by (nonlinear_arith)
            requires
                x2 < x1,
                0 <= height,
        ;
    }
}

/// A fixed-size rectangular grid of cells, each alive or dead, stored as one
/// flat buffer with cell `(x, y)` at `x * height + y`.
pub struct Grid {
    width: usize,
    height: usize,
    cells: Vec<bool>,
}

impl View for Grid {
    type V = GridModel;

    closed spec fn view(&self) -> GridModel {
        GridModel {
            width: self.width as nat,
            height: self.height as nat,
            live: Set::new(
                |p: (int, int)|
                    0 <= p.0 < self.width && 0 <= p.1 < self.height
                        && self.cells@[cell_index(self.height as int, p.0, p.1)],
            ),
        }
    }
}

impl Grid {
    #[verifier::type_invariant]
    closed spec fn inv(&self) -> bool {
        self.cells.len() == self.width * self.height
    }

    /// Number of cells, `width * height`.
    pub fn cell_count(&self) -> (r: usize)
        ensures
            r == self@.width * self@.height,
    {
        proof {
            use_type_invariant(self);
        }
        self.cells.len()
    }

    /// A `width` x `height` grid with every cell dead.
    pub fn new(width: usize, height: usize) -> (r: Grid)
        requires
            width * height <= usize::MAX,
        ensures
            r@ == GridModel::dead(width as nat, height as nat),
    {
        let n: usize = width * height;
        let mut cells: Vec<bool> = Vec::with_capacity(n);
        let mut i: usize = 0;
        while i < n
            invariant
                i <= n,
                cells@.len() == i,
                forall|k: int| 0 <= k < i ==> !#[trigger] cells@[k],
            decreases n - i,
        {
            cells.push(false);
            i = i + 1;
        }
        let r = Grid { width, height, cells };
        assert forall|p: (int, int)| !#[trigger] r@.live.contains(p) by {
            if 0 <= p.0 < width && 0 <= p.1 < height {
                lemma_cell_index_in_range(width as int, height as int, p.0, p.1);
            }
        }
        assert(r@.live =~= Set::empty());
        r
    }

    /// A `width` x `height` grid whose live cells are exactly those listed.
    pub fn from_live_cells(width: usize, height: usize, live: &Vec<(usize, usize)>) -> (r: Grid)
        requires
            width * height <= usize::MAX,
            forall|i: int| 0 <= i < live@.len() ==> #[trigger] live@[i].0 < width && live@[i].1 < height,
        ensures
            r@ == (GridModel { width: width as nat, height: height as nat, live: listed(live@) }),
    {
        let mut r = Grid::new(width, height);
        let mut i: usize = 0;
        while i < live.len()
            invariant
                i <= live@.len(),
                forall|j: int| 0 <= j < live@.len() ==> #[trigger] live@[j].0 < width && live@[j].1 < height,
                r@ == (GridModel {
                    width: width as nat,
                    height: height as nat,
                    live: listed(live@.subrange(0, i as int)),
                }),
            decreases live@.len() - i,
        {
            let (x, y) = live[i];
            r.set(x, y, true);
            proof {
                let before = live@.subrange(0, i as int);
                let after = live@.subrange(0, i + 1);
                assert forall|p: (int, int)| #[trigger]
                    listed(after).contains(p) == listed(before).insert((x as int, y as int)).contains(p) by {
                    if listed(after).contains(p) {
                        let k = choose|k: int|
                            0 <= k < after.len() && #[trigger] after[k].0 as int == p.0 && after[k].1 as int
                                == p.1;
                        if k < i {
                            assert(before[k] == after[k]);
                        }
                    }
                    if listed(before).contains(p) {
                        let k = choose|k: int|
                            0 <= k < before.len() && #[trigger] before[k].0 as int == p.0
                                && before[k].1 as int == p.1;
                        assert(after[k] == before[k]);
                    }
                    if p == (x as int, y as int) {
                        assert(after[i as int] == live@[i as int]);
                    }
                }
                assert(listed(after) =~= listed(before).insert((x as int, y as int)));
            }
            i = i + 1;
        }
        assert(live@.subrange(0, live@.len() as int) =~= live@);
        r
    }

    pub fn width(&self) -> (r: usize)
        ensures
            r == self@.width,
    {
        self.width
    }

    pub fn height(&self) -> (r: usize)
        ensures
            r == self@.height,
    {
        self.height
    }

    /// Whether the cell at `(x, y)` is alive.
    pub fn get(&self, x: usize, y: usize) -> (r: bool)
        requires
            x < self@.width,
            y < self@.height,
        ensures
            r == self@.live.contains((x as int, y as int)),
    {
        proof {
            use_type_invariant(self);
            lemma_cell_index_in_range(self.width as int, self.height as int, x as int, y as int);
        }
        self.cells[x * self.height + y]
    }

    /// Makes the cell at `(x, y)` alive or dead.
    pub fn set(&mut self, x: usize, y: usize, value: bool)
        requires
            x < old(self)@.width,
            y < old(self)@.height,
        ensures
            final(self)@ == old(self)@.with_cell(x as int, y as int, value),
    {
        proof {
            use_type_invariant(&*self);
            lemma_cell_index_in_range(self.width as int, self.height as int, x as int, y as int);
        }
        let ghost before = self@;
        let i: usize = x * self.height + y;
        self.cells[i] = value;
        proof {
            let h = self.height as int;
            assert forall|p: (int, int)| #[trigger]
                self@.live.contains(p) == before.with_cell(x as int, y as int, value).live.contains(p) by {
                if 0 <= p.0 < self.width && 0 <= p.1 < self.height && p != (x as int, y as int) {
                    lemma_cell_index_in_range(self.width as int, h, p.0, p.1);
                    if cell_index(h, p.0, p.1) == i as int {
                        lemma_cell_index_injective(h, p.0, p.1, x as int, y as int);
                    }
                }
            }
            assert(self@.live =~= before.with_cell(x as int, y as int, value).live);
        }
    }

    /// Flips the cell at `(x, y)` between alive and dead.
    pub fn toggle(&mut self, x: usize, y: usize)
        requires
            x < old(self)@.width,
            y < old(self)@.height,
        ensures
            final(self)@ == old(self)@.toggled(x as int, y as int),
    {
        let value = self.get(x, y);
        self.set(x, y, !value);
    }

    /// Makes every cell dead, keeping the dimensions.
    pub fn clear(&mut self)
        ensures
            final(self)@ == old(self)@.cleared(),
    {
        proof {
            use_type_invariant(&*self);
        }
        *self = Grid::new(self.width, self.height);
    }
}

} // verus!
