use vstd::prelude::*;
use vstd::arithmetic::div_mod::{
    lemma_fundamental_div_mod,
    lemma_fundamental_div_mod_converse,
    lemma_mod_add_multiples_vanish,
    lemma_mod_pos_bound,
    lemma_mod_self_0,
    lemma_multiply_divide_lt,
    lemma_small_mod,
};
use crate::cell::{Cell, live_value, flipped, next_state};

verus! {

/// The mathematical model of a universe: its dimensions and its cells in
/// row-major order.
pub struct Grid {
    pub width: nat,
    pub height: nat,
    pub cells: Seq<Cell>,
}

/// A coordinate reduced onto `0..n` the way the torus wraps it, for a value
/// at most one step outside that range.
pub open spec fn wrapped(x: int, n: int) -> int {
    if x < 0 {
        n - 1
    } else if x >= n {
        0
    } else {
        x
    }
}

/// The seed state of the cell at linear index `i`.
pub open spec fn seed_cell(i: int) -> Cell {
    if i % 9 == 0 || i % 7 == 0 {
        Cell::Alive
    } else {
        Cell::Dead
    }
}

/// Whether one of the first `n` pairs of `coords` is `(r, c)`.
pub open spec fn listed(coords: Seq<(usize, usize)>, n: int, r: int, c: int) -> bool {
    exists|k: int| 0 <= k < n && coords[k].0 == r && coords[k].1 == c
}

impl Grid {
    /// Positive dimensions and exactly `width * height` cells.
    pub open spec fn wf(self) -> bool {
        &&& self.width > 0
        &&& self.height > 0
        &&& self.cells.len() == self.width * self.height
    }

    /// The cell at `(r, c)`, for coordinates inside the grid.
    #[verifier::opaque]
    pub open spec fn cell(self, r: int, c: int) -> Cell {
        self.cells[r * self.width + c]
    }

    /// The live value of the cell at `(r, c)` with both coordinates taken
    /// modulo the dimensions.
    #[verifier::opaque]
    pub open spec fn alive_at(self, r: int, c: int) -> nat {
        live_value(self.cell(r % (self.height as int), c % (self.width as int)))
    }

    /// The neighbor of `(r, c)` at offset `(dr, dc)`, across the edges where
    /// the offset leaves the grid.
    pub open spec fn neighbor(self, r: int, c: int, dr: int, dc: int) -> Cell {
        self.cell(wrapped(r + dr, self.height as int), wrapped(c + dc, self.width as int))
    }

    /// The number of live cells among the eight toroidal neighbors of `(r, c)`.
    pub open spec fn live_neighbors(self, r: int, c: int) -> nat {
        self.alive_at(r - 1, c - 1) + self.alive_at(r - 1, c) + self.alive_at(r - 1, c + 1)
            + self.alive_at(r, c - 1) + self.alive_at(r, c + 1)
            + self.alive_at(r + 1, c - 1) + self.alive_at(r + 1, c) + self.alive_at(
            r + 1,
            c + 1,
        )
    }

    /// The next generation: every cell updated at once from this one.
    pub open spec fn next(self) -> Grid {
        Grid {
            width: self.width,
            height: self.height,
            cells: Seq::new(
                self.width * self.height,
                |i: int|
                    next_state(
                        self.cells[i],
                        self.live_neighbors(i / (self.width as int), i % (self.width as int))
                            as int,
                    ),
            ),
        }
    }

    /// The seed pattern on a `width` by `height` grid.
    pub open spec fn seed(width: nat, height: nat) -> Grid {
        Grid { width, height, cells: Seq::new(width * height, |i: int| seed_cell(i)) }
    }

    /// This grid with the cell at `(r, c)` flipped.
    pub open spec fn toggled(self, r: int, c: int) -> Grid {
        Grid {
            width: self.width,
            height: self.height,
            cells: self.cells.update(r * self.width + c, flipped(self.cell(r, c))),
        }
    }

    /// A grid of the same size where exactly the in-range cells listed in
    /// `coords` are alive.
    pub open spec fn with_live(self, coords: Seq<(usize, usize)>) -> Grid {
        Grid {
            width: self.width,
            height: self.height,
            cells: Seq::new(
                self.width * self.height,
                |i: int|
                    if listed(
                        coords,
                        coords.len() as int,
                        i / (self.width as int),
                        i % (self.width as int),
                    ) {
                        Cell::Alive
                    } else {
                        Cell::Dead
                    },
            ),
        }
    }
}

/// Row-major indexing is a bijection between the coordinates inside a
/// `w` by `h` grid and `0..w * h`.
pub proof fn lemma_index(w: int, h: int, r: int, c: int)
    requires
        0 < w,
        0 <= r < h,
        0 <= c < w,
    ensures
        0 <= r * w + c < w * h,
        (r * w + c) / w == r,
        (r * w + c) % w == c,
{
    assert(0 <= r * w + c < w * h) by (nonlinear_arith)
        requires
            0 < w,
            0 <= r < h,
            0 <= c < w,
    ;
    lemma_fundamental_div_mod_converse(r * w + c, w, r, c);
}

/// Every linear index inside the grid comes from a row and a column inside it.
pub proof fn lemma_split_index(w: int, h: int, i: int)
    requires
        0 < w,
        0 <= i < w * h,
    ensures
        0 <= i / w < h,
        0 <= i % w < w,
        i == (i / w) * w + i % w,
{
    lemma_multiply_divide_lt(i, w, h);
    lemma_mod_pos_bound(i, w);
    lemma_fundamental_div_mod(i, w);
    assert(0 <= i / w) by (nonlinear_arith)
        requires
            0 < w,
            0 <= i,
            i == w * (i / w) + i % w,
            i % w < w,
    ;
}

/// Reducing a coordinate one step outside `0..n` modulo `n` wraps it to the
/// opposite edge.
pub proof fn lemma_wrap(x: int, n: int)
    requires
        0 < n,
        -1 <= x <= n,
    ensures
        x % n == wrapped(x, n),
{
    if x < 0 {
        lemma_mod_add_multiples_vanish(x, n);
        lemma_small_mod((n + x) as nat, n as nat);
    } else if x == n {
        lemma_mod_self_0(n);
    } else {
        lemma_small_mod(x as nat, n as nat);
    }
}

/// Neighbor lookups wrap around the torus: a step off one edge reads the
/// cell on the opposite edge (row `height - 1` above row 0, column
/// `width - 1` left of column 0, and back to 0 past the last row or column).
pub proof fn lemma_wraparound(g: Grid, r: int, c: int, dr: int, dc: int)
    requires
        g.wf(),
        0 <= r < g.height,
        0 <= c < g.width,
        -1 <= dr <= 1,
        -1 <= dc <= 1,
    ensures
        g.alive_at(r + dr, c + dc) == live_value(
            g.cell(wrapped(r + dr, g.height as int), wrapped(c + dc, g.width as int)),
        ),
{
    reveal(Grid::alive_at);
    lemma_wrap(r + dr, g.height as int);
    lemma_wrap(c + dc, g.width as int);
}

/// The live-neighbor count as a sum over the eight wrapped neighbor
/// coordinates: rows `up`, `r`, `down` and columns `left`, `c`, `right`.
proof fn lemma_neighbor_sum(g: Grid, r: int, c: int, up: int, down: int, left: int, right: int)
    requires
        g.wf(),
        0 <= r < g.height,
        0 <= c < g.width,
        up == wrapped(r - 1, g.height as int),
        down == wrapped(r + 1, g.height as int),
        left == wrapped(c - 1, g.width as int),
        right == wrapped(c + 1, g.width as int),
    ensures
        g.live_neighbors(r, c) == live_value(g.cell(up, left)) + live_value(g.cell(up, c))
            + live_value(g.cell(up, right)) + live_value(g.cell(r, left)) + live_value(
            g.cell(r, right),
        ) + live_value(g.cell(down, left)) + live_value(g.cell(down, c)) + live_value(
            g.cell(down, right),
        ),
{
    lemma_wraparound(g, r, c, -1, -1);
    lemma_wraparound(g, r, c, -1, 0);
    lemma_wraparound(g, r, c, -1, 1);
    lemma_wraparound(g, r, c, 0, -1);
    lemma_wraparound(g, r, c, 0, 1);
    lemma_wraparound(g, r, c, 1, -1);
    lemma_wraparound(g, r, c, 1, 0);
    lemma_wraparound(g, r, c, 1, 1);
}

/// A toroidal Game of Life grid: `width * height` cells in row-major order.
pub struct Universe {
    width: usize,
    height: usize,
    cells: Vec<Cell>,
}

impl View for Universe {
    type V = Grid;

    closed spec fn view(&self) -> Grid {
        Grid { width: self.width as nat, height: self.height as nat, cells: self.cells@ }
    }
}

/// The coordinate before `x` on a ring of `n` positions.
fn wrap_before(x: usize, n: usize) -> (r: usize)
    requires
        x < n,
    ensures
        r == wrapped(x - 1, n as int),
        r < n,
{
    if x == 0 {
        n - 1
    } else {
        x - 1
    }
}

/// The coordinate after `x` on a ring of `n` positions.
fn wrap_after(x: usize, n: usize) -> (r: usize)
    requires
        x < n,
    ensures
        r == wrapped(x + 1, n as int),
        r < n,
{
    if x + 1 == n {
        0
    } else {
        x + 1
    }
}

/// Builds the seed pattern of `len` cells.
fn seed_cells(len: usize) -> (r: Vec<Cell>)
    ensures
        r@ == Seq::new(len as nat, |i: int| seed_cell(i)),
{
    let mut cells: Vec<Cell> = Vec::new();
    let mut i: usize = 0;
    while i < len
        invariant
            i <= len,
            cells@.len() == i,
            forall|j: int| 0 <= j < i ==> cells@[j] == seed_cell(j),
        decreases len - i,
    {
        if i % 9 == 0 || i % 7 == 0 {
            cells.push(Cell::Alive);
        } else {
            cells.push(Cell::Dead);
        }
        i += 1;
    }
    assert(cells@ =~= Seq::new(len as nat, |i: int| seed_cell(i)));
    cells
}

impl Universe {
    /// A `width` by `height` universe holding the seed pattern.
    pub fn new(width: usize, height: usize) -> (r: Universe)
        requires
            width > 0,
            height > 0,
            width * height <= usize::MAX,
        ensures
            r@ == Grid::seed(width as nat, height as nat),
            r@.wf(),
    {
        let r = Universe { width, height, cells: seed_cells(width * height) };
        assert(r@.cells =~= Grid::seed(width as nat, height as nat).cells);
        r
    }

    pub fn width(&self) -> (r: usize)
        ensures
            r == self@.width,
    {
        self.width
    }

    pub fn height(&self) -> (r: usize)
        ensures
            r == self@.height,
    {
        self.height
    }

    /// The current generation, row by row.
    pub fn cells(&self) -> (r: &[Cell])
        ensures
            r@ == self@.cells,
    {
        self.cells.as_slice()
    }

    /// The linear position of `(row, col)` in the cell buffer.
    pub fn index(&self, row: usize, col: usize) -> (r: usize)
        requires
            self@.wf(),
            row < self@.height,
            col < self@.width,
        ensures
            r == row * self@.width + col,
            r < self@.cells.len(),
    {
        proof {
            lemma_index(self.width as int, self.height as int, row as int, col as int);
            assert(self.cells@.len() == self.cells.len());
        }
        row * self.width + col
    }

    /// The state of the cell at `(row, col)`.
    pub fn get(&self, row: usize, col: usize) -> (r: Cell)
        requires
            self@.wf(),
            row < self@.height,
            col < self@.width,
        ensures
            r == self@.cell(row as int, col as int),
    {
        proof {
            reveal(Grid::cell);
        }
        self.cells[self.index(row, col)]
    }

    /// One if the cell at `(row, col)` is alive, zero if it is dead.
    fn live_at(&self, row: usize, col: usize) -> (r: u8)
        requires
            self@.wf(),
            row < self@.height,
            col < self@.width,
        ensures
            r as nat == live_value(self@.cell(row as int, col as int)),
            r <= 1,
    {
        self.get(row, col).value()
    }

    /// The number of live cells among the eight neighbors of `(row, col)`,
    /// wrapping around the edges.
    pub fn live_neighbor_count(&self, row: usize, col: usize) -> (r: u8)
        requires
            self@.wf(),
            row < self@.height,
            col < self@.width,
        ensures
            r as nat == self@.live_neighbors(row as int, col as int),
            r <= 8,
    {
        let up = wrap_before(row, self.height);
        let down = wrap_after(row, self.height);
        let left = wrap_before(col, self.width);
        let right = wrap_after(col, self.width);
        let ghost g = self@;
        proof {
            lemma_neighbor_sum(
                g,
                row as int,
                col as int,
                up as int,
                down as int,
                left as int,
                right as int,
            );
        }
        self.live_at(up, left) + self.live_at(up, col) + self.live_at(up, right)
            + self.live_at(row, left) + self.live_at(row, right)
            + self.live_at(down, left) + self.live_at(down, col) + self.live_at(down, right)
    }

    /// Advances one generation: every cell is recomputed from the previous
    /// generation into a fresh buffer, which then replaces the old one.
    pub fn tick(&mut self)
        requires
            old(self)@.wf(),
        ensures
            final(self)@ == old(self)@.next(),
            final(self)@.wf(),
            forall|r: int, c: int|
                0 <= r < old(self)@.height && 0 <= c < old(self)@.width
                    ==> #[trigger] final(self)@.cell(r, c) == next_state(
                    old(self)@.cell(r, c),
                    old(self)@.live_neighbors(r, c) as int,
                ),
    {
        let ghost g = self@;
        let mut next: Vec<Cell> = Vec::new();
        let mut row: usize = 0;
        while row < self.height
            invariant
                self@ == g,
                g.wf(),
                row <= g.height,
                next@.len() == row * g.width,
                forall|i: int| 0 <= i < next@.len() ==> next@[i] == g.next().cells[i],
            decreases g.height - row,
        {
            let mut col: usize = 0;
            while col < self.width
                invariant
                    self@ == g,
                    g.wf(),
                    row < g.height,
                    col <= g.width,
                    next@.len() == row * g.width + col,
                    forall|i: int| 0 <= i < next@.len() ==> next@[i] == g.next().cells[i],
                decreases g.width - col,
            {
                let n = self.live_neighbor_count(row, col);
                let c = self.get(row, col);
                proof {
                    lemma_index(g.width as int, g.height as int, row as int, col as int);
                    reveal(Grid::cell);
                }
                next.push(c.next(n));
                col += 1;
            }
            proof {
                let (r, w) = (row as int, g.width as int);
                assert((r + 1) * w == r * w + w) by (nonlinear_arith);
            }
            row += 1;
        }
        proof {
            assert(g.height * g.width == g.width * g.height) by (nonlinear_arith);
            assert(next@ =~= g.next().cells);
        }
        self.cells = next;
        proof {
            assert forall|r: int, c: int|
                0 <= r < g.height && 0 <= c < g.width implies #[trigger] self@.cell(r, c)
                == next_state(g.cell(r, c), g.live_neighbors(r, c) as int) by {
                lemma_next_cell(g, r, c);
            }
        }
    }

    /// Flips the cell at `(row, col)` and nothing else.
    pub fn toggle_cell(&mut self, row: usize, col: usize)
        requires
            old(self)@.wf(),
            row < old(self)@.height,
            col < old(self)@.width,
        ensures
            final(self)@ == old(self)@.toggled(row as int, col as int),
            final(self)@.wf(),
    {
        let i = self.index(row, col);
        let c = self.cells[i];
        proof {
            reveal(Grid::cell);
        }
        self.cells.set(i, c.toggled());
    }

    /// Restores the seed pattern, whatever the grid held before.
    pub fn reset(&mut self)
        requires
            old(self)@.wf(),
        ensures
            final(self)@ == Grid::seed(old(self)@.width, old(self)@.height),
            final(self)@.wf(),
    {
        proof {
            assert(self.cells@.len() == self.cells.len());
        }
        self.cells = seed_cells(self.width * self.height);
        assert(self@.cells =~= Grid::seed(self@.width, self@.height).cells);
    }

    /// Clears the grid, then makes alive every listed `(row, col)` pair that
    /// lies inside it; pairs outside the grid are skipped.
    pub fn set_cells(&mut self, coords: &[(usize, usize)])
        requires
            old(self)@.wf(),
        ensures
            final(self)@ == old(self)@.with_live(coords@),
            final(self)@.wf(),
            forall|r: int, c: int|
                0 <= r < old(self)@.height && 0 <= c < old(self)@.width
                    ==> #[trigger] final(self)@.cell(r, c) == (if listed(
                    coords@,
                    coords@.len() as int,
                    r,
                    c,
                ) {
                    Cell::Alive
                } else {
                    Cell::Dead
                }),
    {
        let ghost g = self@;
        let ghost (w, h) = (g.width as int, g.height as int);
        let len = self.cells.len();
        let mut cleared: Vec<Cell> = Vec::new();
        let mut i: usize = 0;
        while i < len
            invariant
                i <= len,
                cleared@.len() == i,
                forall|j: int| 0 <= j < i ==> cleared@[j] == Cell::Dead,
            decreases len - i,
        {
            cleared.push(Cell::Dead);
            i += 1;
        }
        self.cells = cleared;
        let mut k: usize = 0;
        while k < coords.len()
            invariant
                g.wf(),
                w == g.width,
                h == g.height,
                self.width == g.width,
                self.height == g.height,
                self.cells@.len() == g.width * g.height,
                k <= coords@.len(),
                forall|j: int|
                    0 <= j < self.cells@.len() ==> self.cells@[j] == (if listed(
                        coords@,
                        k as int,
                        j / w,
                        j % w,
                    ) {
                        Cell::Alive
                    } else {
                        Cell::Dead
                    }),
            decreases coords.len() - k,
        {
            let ghost before = self.cells@;
            let (r, c) = coords[k];
            if r < self.height && c < self.width {
                let idx = self.index(r, c);
                self.cells.set(idx, Cell::Alive);
            }
            proof {
                assert forall|j: int| 0 <= j < self.cells@.len() implies self.cells@[j] == (if listed(
                    coords@,
                    k + 1,
                    j / w,
                    j % w,
                ) {
                    Cell::Alive
                } else {
                    Cell::Dead
                }) by {
                    lemma_listed_step(coords@, k as int, j / w, j % w);
                    lemma_split_index(w, h, j);
                    if r < h && c < w {
                        lemma_index(w, h, r as int, c as int);
                    }
                }
            }
            k += 1;
        }
        assert(self@.cells =~= g.with_live(coords@).cells);
        proof {
            assert forall|r: int, c: int| 0 <= r < g.height && 0 <= c < g.width implies #[trigger] self@.cell(r, c)
                == (if listed(coords@, coords@.len() as int, r, c) {
                Cell::Alive
            } else {
                Cell::Dead
            }) by {
                lemma_set_cells_exact(g, coords@, r, c);
            }
        }
    }
}

/// The first `n + 1` pairs list `(r, c)` exactly when the first `n` do or
/// pair `n` is `(r, c)`.
proof fn lemma_listed_step(coords: Seq<(usize, usize)>, n: int, r: int, c: int)
    requires
        0 <= n < coords.len(),
    ensures
        listed(coords, n + 1, r, c) == (listed(coords, n, r, c) || (coords[n].0 == r
            && coords[n].1 == c)),
{
    if listed(coords, n + 1, r, c) {
        let k = choose|k: int| 0 <= k < n + 1 && coords[k].0 == r && coords[k].1 == c;
        if k < n {
            assert(listed(coords, n, r, c));
        }
    }
    if coords[n].0 == r && coords[n].1 == c {
        assert(listed(coords, n + 1, r, c));
    }
    if listed(coords, n, r, c) {
        let k = choose|k: int| 0 <= k < n && coords[k].0 == r && coords[k].1 == c;
        assert(listed(coords, n + 1, r, c));
    }
}

/// One generation updates the cell at `(r, c)` by the rule, from that cell's
/// previous state and its previous live-neighbor count.
pub proof fn lemma_next_cell(g: Grid, r: int, c: int)
    requires
        g.wf(),
        0 <= r < g.height,
        0 <= c < g.width,
    ensures
        g.next().cell(r, c) == next_state(g.cell(r, c), g.live_neighbors(r, c) as int),
{
    reveal(Grid::cell);
    lemma_index(g.width as int, g.height as int, r, c);
}

/// The next state of a cell depends only on that cell's state and its
/// live-neighbor count: two grids that agree on both at `(r, c)` agree there
/// after a generation, whatever else they hold.
pub proof fn lemma_tick_is_local(a: Grid, b: Grid, r: int, c: int)
    requires
        a.wf(),
        b.wf(),
        0 <= r < a.height,
        0 <= c < a.width,
        0 <= r < b.height,
        0 <= c < b.width,
        a.cell(r, c) == b.cell(r, c),
        a.live_neighbors(r, c) == b.live_neighbors(r, c),
    ensures
        a.next().cell(r, c) == b.next().cell(r, c),
{
    lemma_next_cell(a, r, c);
    lemma_next_cell(b, r, c);
}

/// A generation is determined by the grid alone: equal grids have equal
/// successors.
pub proof fn lemma_tick_deterministic(a: Grid, b: Grid)
    requires
        a.wf(),
        a.width == b.width,
        a.height == b.height,
        a.cells =~= b.cells,
    ensures
        a.next() == b.next(),
{
    assert(a == b);
}

/// Toggling the same cell twice gives back the original grid.
pub proof fn lemma_toggle_involution(g: Grid, r: int, c: int)
    requires
        g.wf(),
        0 <= r < g.height,
        0 <= c < g.width,
    ensures
        g.toggled(r, c).toggled(r, c) == g,
{
    reveal(Grid::cell);
    lemma_index(g.width as int, g.height as int, r, c);
    assert(g.toggled(r, c).toggled(r, c).cells =~= g.cells);
}

/// Loading a pattern leaves dead every cell that the pattern does not list,
/// whether or not it was alive before, and alive every cell that it lists.
pub proof fn lemma_set_cells_exact(g: Grid, coords: Seq<(usize, usize)>, r: int, c: int)
    requires
        g.wf(),
        0 <= r < g.height,
        0 <= c < g.width,
    ensures
        !listed(coords, coords.len() as int, r, c) ==> g.with_live(coords).cell(r, c)
            == Cell::Dead,
        listed(coords, coords.len() as int, r, c) ==> g.with_live(coords).cell(r, c)
            == Cell::Alive,
{
    reveal(Grid::cell);
    lemma_index(g.width as int, g.height as int, r, c);
}

/// Whether the live cells of `g` are exactly row 1, columns 0 to 2.
pub open spec fn is_horizontal_blinker(g: Grid) -> bool {
    forall|r: int, c: int|
        0 <= r < g.height && 0 <= c < g.width ==> #[trigger] g.cell(r, c) == (if r == 1 && c
            <= 2 {
            Cell::Alive
        } else {
            Cell::Dead
        })
}

/// Whether the live cells of `g` are exactly column 1, rows 0 to 2.
pub open spec fn is_vertical_blinker(g: Grid) -> bool {
    forall|r: int, c: int|
        0 <= r < g.height && 0 <= c < g.width ==> #[trigger] g.cell(r, c) == (if c == 1 && r
            <= 2 {
            Cell::Alive
        } else {
            Cell::Dead
        })
}

/// Whether the live cells of `g` are exactly the 2x2 block whose top-left
/// cell is `(r0, c0)`.
pub open spec fn is_block(g: Grid, r0: int, c0: int) -> bool {
    forall|r: int, c: int|
        0 <= r < g.height && 0 <= c < g.width ==> #[trigger] g.cell(r, c) == (if r0 <= r <= r0
            + 1 && c0 <= c <= c0 + 1 {
            Cell::Alive
        } else {
            Cell::Dead
        })
}

/// The rule at `(r, c)` from the states of the cell and its eight wrapped
/// neighbors.
proof fn lemma_next_cell_from_neighbors(g: Grid, r: int, c: int)
    requires
        g.wf(),
        0 <= r < g.height,
        0 <= c < g.width,
    ensures
        g.next().cell(r, c) == next_state(
            g.cell(r, c),
            g.live_neighbors(r, c) as int,
        ),
        g.live_neighbors(r, c) == ({
            let (h, w) = (g.height as int, g.width as int);
            let (up, down) = (wrapped(r - 1, h), wrapped(r + 1, h));
            let (left, right) = (wrapped(c - 1, w), wrapped(c + 1, w));
            live_value(g.cell(up, left)) + live_value(g.cell(up, c)) + live_value(
                g.cell(up, right),
            ) + live_value(g.cell(r, left)) + live_value(g.cell(r, right)) + live_value(
                g.cell(down, left),
            ) + live_value(g.cell(down, c)) + live_value(g.cell(down, right))
        }),
{
    lemma_next_cell(g, r, c);
    let (h, w) = (g.height as int, g.width as int);
    lemma_neighbor_sum(
        g,
        r,
        c,
        wrapped(r - 1, h),
        wrapped(r + 1, h),
        wrapped(c - 1, w),
        wrapped(c + 1, w),
    );
}

/// The blinker: on a grid at least 4x4, a horizontal line of three in row 1
/// becomes a vertical line of three in column 1.
pub proof fn lemma_blinker_turns_vertical(g: Grid)
    requires
        g.wf(),
        g.width >= 4,
        g.height >= 4,
        is_horizontal_blinker(g),
    ensures
        g.next().wf(),
        is_vertical_blinker(g.next()),
{
    reveal(live_value);
    assert forall|r: int, c: int| 0 <= r < g.height && 0 <= c < g.width implies #[trigger] g.next().cell(r, c)
        == (if c == 1 && r <= 2 { Cell::Alive } else { Cell::Dead }) by {
        lemma_next_cell_from_neighbors(g, r, c);
    }
}

/// The blinker's second step: the vertical line of three in column 1 turns
/// back into the horizontal line in row 1, so the pattern has period two.
pub proof fn lemma_blinker_turns_horizontal(g: Grid)
    requires
        g.wf(),
        g.width >= 4,
        g.height >= 4,
        is_vertical_blinker(g),
    ensures
        g.next().wf(),
        is_horizontal_blinker(g.next()),
{
    reveal(live_value);
    assert forall|r: int, c: int| 0 <= r < g.height && 0 <= c < g.width implies #[trigger] g.next().cell(r, c)
        == (if r == 1 && c <= 2 { Cell::Alive } else { Cell::Dead }) by {
        lemma_next_cell_from_neighbors(g, r, c);
    }
}

/// The 2x2 block is a still life: on a grid at least 4x4 where the block
/// does not touch the far edges, each block cell has exactly three live
/// neighbors and a generation leaves the grid unchanged.
pub proof fn lemma_block_is_still_life(g: Grid, r0: int, c0: int)
    requires
        g.wf(),
        g.width >= 4,
        g.height >= 4,
        0 <= r0,
        r0 + 1 < g.height,
        0 <= c0,
        c0 + 1 < g.width,
        is_block(g, r0, c0),
    ensures
        g.live_neighbors(r0, c0) == 3,
        g.live_neighbors(r0, c0 + 1) == 3,
        g.live_neighbors(r0 + 1, c0) == 3,
        g.live_neighbors(r0 + 1, c0 + 1) == 3,
        g.next() == g,
{
    reveal(live_value);
    let (h, w) = (g.height as int, g.width as int);
    assert forall|r: int, c: int| 0 <= r < h && 0 <= c < w implies #[trigger] g.next().cell(r, c)
        == g.cell(r, c) by {
        lemma_next_cell_from_neighbors(g, r, c);
    }
    lemma_next_cell_from_neighbors(g, r0, c0);
    lemma_next_cell_from_neighbors(g, r0, c0 + 1);
    lemma_next_cell_from_neighbors(g, r0 + 1, c0);
    lemma_next_cell_from_neighbors(g, r0 + 1, c0 + 1);
    assert forall|i: int| 0 <= i < g.cells.len() implies g.next().cells[i] == g.cells[i] by {
        lemma_split_index(w, h, i);
        assert(g.next().cell(i / w, i % w) == g.cell(i / w, i % w));
        reveal(Grid::cell);
    }
    assert(g.next().cells =~= g.cells);
}

/// A live cell whose eight neighbors are all dead dies of underpopulation.
pub proof fn lemma_isolated_cell_dies(g: Grid, r: int, c: int)
    requires
        g.wf(),
        0 <= r < g.height,
        0 <= c < g.width,
        g.cell(r, c) == Cell::Alive,
        forall|dr: int, dc: int|
            -1 <= dr <= 1 && -1 <= dc <= 1 && (dr != 0 || dc != 0) ==> #[trigger] g.neighbor(
                r,
                c,
                dr,
                dc,
            ) == Cell::Dead,
    ensures
        g.live_neighbors(r, c) == 0,
        g.next().cell(r, c) == Cell::Dead,
{
    reveal(live_value);
    assert(g.neighbor(r, c, -1, -1) == Cell::Dead);
    assert(g.neighbor(r, c, -1, 0) == Cell::Dead);
    assert(g.neighbor(r, c, -1, 1) == Cell::Dead);
    assert(g.neighbor(r, c, 0, -1) == Cell::Dead);
    assert(g.neighbor(r, c, 0, 1) == Cell::Dead);
    assert(g.neighbor(r, c, 1, -1) == Cell::Dead);
    assert(g.neighbor(r, c, 1, 0) == Cell::Dead);
    assert(g.neighbor(r, c, 1, 1) == Cell::Dead);
    lemma_next_cell_from_neighbors(g, r, c);
}

} // verus!
