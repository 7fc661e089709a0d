use vstd::prelude::*;

verus! {

/// Number of columns of the grid.
pub const WIDTH: usize = 64;

/// Number of rows of the grid.
pub const HEIGHT: usize = 48;

/// Number of cells of the grid (`WIDTH * HEIGHT`).
pub const CELLS: usize = WIDTH * HEIGHT;

/// Row-major position of the cell at column `x`, row `y`.
pub open spec fn index_of(x: int, y: int) -> int {
    y * WIDTH + x
}

/// Whether the cell at column `x`, row `y` of the flat grid `g` is alive.
pub open spec fn cell(g: Seq<bool>, x: int, y: int) -> bool {
    g[index_of(x, y)]
}

/// A `WIDTH` by `HEIGHT` grid of cells, each alive or dead, stored row by row.
pub struct GameMap {
    cells: Vec<bool>,
}

impl View for GameMap {
    type V = Seq<bool>;

    closed spec fn view(&self) -> Seq<bool> {
        self.cells@
    }
}

impl GameMap {
    /// The grid holds exactly one entry per cell.
    pub open spec fn wf(&self) -> bool {
        self@.len() == CELLS
    }

    /// A grid on which every cell is dead.
    pub fn new() -> (r: GameMap)
        ensures
            r.wf(),
            forall|i: int| 0 <= i < CELLS ==> !#[trigger] r@[i],
    {
        GameMap { cells: vec![false; CELLS] }
    }

    /// Whether the cell at `c = (x, y)` is alive.
    pub fn get(&self, c: (usize, usize)) -> (r: bool)
        requires
            self.wf(),
            c.0 < WIDTH,
            c.1 < HEIGHT,
        ensures
            r == cell(self@, c.0 as int, c.1 as int),
    {
        let (x, y) = c;
        self.cells[y * WIDTH + x]
    }

    /// Makes the cell at `c = (x, y)` alive or dead; no other cell changes.
    pub fn set(&mut self, c: (usize, usize), new_alive: bool)
        requires
            old(self).wf(),
            c.0 < WIDTH,
            c.1 < HEIGHT,
        ensures
            final(self)@ == old(self)@.update(index_of(c.0 as int, c.1 as int), new_alive),
    {
        let (x, y) = c;
        self.cells.set(y * WIDTH + x, new_alive);
    }
}

/// Whether the cell at column `x`, row `y` of `map` is alive.
pub fn is_cell_alive(map: &GameMap, x: usize, y: usize) -> (r: bool)
    requires
        map.wf(),
        x < WIDTH,
        y < HEIGHT,
    ensures
        r == cell(map@, x as int, y as int),
{
    map.get((x, y))
}

/// Column shift that moves one cell to the left once taken modulo `WIDTH`.
pub const NEG_X: usize = WIDTH - 1;

/// Row shift that moves one cell up once taken modulo `HEIGHT`.
pub const NEG_Y: usize = HEIGHT - 1;

/// The `k`-th of the eight neighbour offsets, as non-negative shifts that
/// wrap around when taken modulo the grid's dimensions.
pub open spec fn offset(k: int) -> (int, int) {
    if k == 0 {
        (NEG_X as int, NEG_Y as int)
    } else if k == 1 {
        (NEG_X as int, 0)
    } else if k == 2 {
        (NEG_X as int, 1)
    } else if k == 3 {
        (0, NEG_Y as int)
    } else if k == 4 {
        (0, 1)
    } else if k == 5 {
        (1, NEG_Y as int)
    } else if k == 6 {
        (1, 0)
    } else {
        (1, 1)
    }
}

/// 1 when the `k`-th toroidal neighbour of `(x, y)` is alive, else 0.
pub open spec fn neighbour_alive(g: Seq<bool>, x: int, y: int, k: int) -> int {
    if cell(g, (x + offset(k).0) % (WIDTH as int), (y + offset(k).1) % (HEIGHT as int)) {
        1
    } else {
        0
    }
}

/// How many of the first `k` toroidal neighbours of `(x, y)` are alive.
pub open spec fn alive_among(g: Seq<bool>, x: int, y: int, k: int) -> int
    decreases k,
{
    if k <= 0 {
        0
    } else {
        alive_among(g, x, y, k - 1) + neighbour_alive(g, x, y, k - 1)
    }
}

/// How many of the eight toroidal neighbours of `(x, y)` are alive.
pub open spec fn live_neighbours(g: Seq<bool>, x: int, y: int) -> int {
    alive_among(g, x, y, 8)
}

/// Conway's rule: a live cell survives with two or three live neighbours, a
/// dead cell comes alive with exactly three.
pub open spec fn next_alive(alive: bool, n: int) -> bool {
    if alive {
        n == 2 || n == 3
    } else {
        n == 3
    }
}

/// The generation that follows `g`: every cell moves by the rule at once,
/// from the neighbour counts of `g` itself.
pub open spec fn next_generation(g: Seq<bool>) -> Seq<bool> {
    Seq::new(
        CELLS as nat,
        |i: int|
            next_alive(
                g[i],
                live_neighbours(g, i % (WIDTH as int), i / (WIDTH as int)),
            ),
    )
}

/// The `k`-th neighbour offset, `k < 8`.
fn neighbour_offset(k: usize) -> (r: (usize, usize))
    requires
        k < 8,
    ensures
        r.0 as int == offset(k as int).0,
        r.1 as int == offset(k as int).1,
{
    if k == 0 {
        (NEG_X, NEG_Y)
    } else if k == 1 {
        (NEG_X, 0)
    } else if k == 2 {
        (NEG_X, 1)
    } else if k == 3 {
        (0, NEG_Y)
    } else if k == 4 {
        (0, 1)
    } else if k == 5 {
        (1, NEG_Y)
    } else if k == 6 {
        (1, 0)
    } else {
        (1, 1)
    }
}

proof fn lemma_alive_among_bounds(g: Seq<bool>, x: int, y: int, k: int)
    requires
        0 <= k,
    ensures
        0 <= alive_among(g, x, y, k) <= k,
    decreases k,
{
    if k > 0 {
        lemma_alive_among_bounds(g, x, y, k - 1);
    }
}

/// Whether the cell at `c = (x, y)` of `map` is alive in the next generation.
pub fn does_cell_live(map: &GameMap, c: (usize, usize)) -> (r: bool)
    requires
        map.wf(),
        c.0 < WIDTH,
        c.1 < HEIGHT,
    ensures
        r == next_alive(
            cell(map@, c.0 as int, c.1 as int),
            live_neighbours(map@, c.0 as int, c.1 as int),
        ),
{
    let (x, y) = c;
    let mut live_neighbour_count: u8 = 0;
    let mut k: usize = 0;
    while k < 8
        invariant
            map.wf(),
            x < WIDTH,
            y < HEIGHT,
            k <= 8,
            live_neighbour_count as int == alive_among(map@, x as int, y as int, k as int),
        decreases 8 - k,
    {
        let (x_diff, y_diff) = neighbour_offset(k);
        let is_alive = is_cell_alive(map, (x + x_diff) % WIDTH, (y + y_diff) % HEIGHT);
        proof {
            lemma_alive_among_bounds(map@, x as int, y as int, k as int);
        }
        if is_alive {
            live_neighbour_count = live_neighbour_count + 1;
        }
        k = k + 1;
    }
    if map.get((x, y)) {
        live_neighbour_count == 2 || live_neighbour_count == 3
    } else {
        live_neighbour_count == 3
    }
}

/// Advances `map` by one generation. `scratchpad` first receives a copy of
/// `map` and stays the read-only source of every neighbour count while `map`
/// is overwritten cell by cell.
pub fn update_life(map: &mut GameMap, scratchpad: &mut GameMap)
    requires
        old(map).wf(),
        old(scratchpad).wf(),
    ensures
        final(map)@ == next_generation(old(map)@),
        final(scratchpad)@ == old(map)@,
{
    let mut i: usize = 0;
    while i < CELLS
        invariant
            map.wf(),
            scratchpad.wf(),
            i <= CELLS,
            forall|j: int| 0 <= j < i ==> scratchpad@[j] == map@[j],
        decreases CELLS - i,
    {
        scratchpad.cells.set(i, map.cells[i]);
        i = i + 1;
    }
    proof {
        assert(scratchpad@ =~= map@);
    }
    let ghost before = map@;
    let mut i: usize = 0;
    while i < CELLS
        invariant
            map.wf(),
            scratchpad@ == before,
            before.len() == CELLS,
            i <= CELLS,
            forall|j: int| 0 <= j < i ==> map@[j] == #[trigger] next_generation(before)[j],
        decreases CELLS - i,
    {
        let x = i % WIDTH;
        let y = i / WIDTH;
        assert(index_of(x as int, y as int) == i);
        let alive = does_cell_live(scratchpad, (x, y));
        map.cells.set(i, alive);
        i = i + 1;
    }
    proof {
        assert(map@ =~= next_generation(before));
    }
}

/// The cells alive in the starting pattern: two gliders at rows 2 to 4 and 8
/// to 10 of columns 0 to 2, and a horizontal bar of three cells on row 3.
pub open spec fn is_seed(x: int, y: int) -> bool {
    ||| (x == 1 && y == 2)
    ||| (x == 2 && y == 3)
    ||| (0 <= x <= 2 && y == 4)
    ||| (x == 1 && y == 8)
    ||| (x == 2 && y == 9)
    ||| (0 <= x <= 2 && y == 10)
    ||| (30 <= x <= 32 && y == 3)
}

/// The starting grid: alive exactly on the seed pattern.
pub open spec fn seeded_grid() -> Seq<bool> {
    Seq::new(CELLS as nat, |i: int| is_seed(i % (WIDTH as int), i / (WIDTH as int)))
}

/// A fresh grid holding the starting pattern; every call gives the same grid.
pub fn fill_map() -> (r: GameMap)
    ensures
        r.wf(),
        r@ == seeded_grid(),
{
    let mut ret = GameMap::new();

    //  x
    //   x
    // xxx
    ret.set((1, 2), true);
    ret.set((2, 3), true);
    ret.set((0, 4), true);
    ret.set((1, 4), true);
    ret.set((2, 4), true);

    //  x
    //   x
    // xxx
    ret.set((1, 8), true);
    ret.set((2, 9), true);
    ret.set((0, 10), true);
    ret.set((1, 10), true);
    ret.set((2, 10), true);

    // xxx
    ret.set((30, 3), true);
    ret.set((31, 3), true);
    ret.set((32, 3), true);

    assert(ret@ =~= seeded_grid());
    ret
}

/// Stepping one position forward or back modulo a grid dimension.
proof fn lemma_wrap(c: int, n: int)
    requires
        0 <= c < n,
        n == WIDTH || n == HEIGHT,
    ensures
        c % n == c,
        (c + 1) % n == if c + 1 == n {
            0
        } else {
            c + 1
        },
        (c + n - 1) % n == if c == 0 {
            n - 1
        } else {
            c - 1
        },
{
}

/// The cell at `(x, y)` of the next generation follows the rule applied to
/// the cell and its neighbour count in `g`.
pub proof fn lemma_next_generation_at(g: Seq<bool>, x: int, y: int)
    requires
        0 <= x < WIDTH,
        0 <= y < HEIGHT,
    ensures
        0 <= index_of(x, y) < CELLS,
        cell(next_generation(g), x, y) == next_alive(cell(g, x, y), live_neighbours(g, x, y)),
{
    let i = index_of(x, y);
    assert(i % (WIDTH as int) == x && i / (WIDTH as int) == y);
}

proof fn lemma_dead_grid_no_neighbours(g: Seq<bool>, x: int, y: int, k: int)
    requires
        g.len() == CELLS,
        forall|i: int| 0 <= i < CELLS ==> !#[trigger] g[i],
        0 <= x < WIDTH,
        0 <= y < HEIGHT,
        0 <= k <= 8,
    ensures
        alive_among(g, x, y, k) == 0,
    decreases k,
{
    if k > 0 {
        lemma_dead_grid_no_neighbours(g, x, y, k - 1);
        let nx = (x + offset(k - 1).0) % (WIDTH as int);
        let ny = (y + offset(k - 1).1) % (HEIGHT as int);
        assert(0 <= index_of(nx, ny) < CELLS);
    }
}

/// No cell comes alive on an all-dead grid: its next generation is all dead.
pub proof fn law_dead_grid_stays_dead(g: Seq<bool>)
    requires
        g.len() == CELLS,
        forall|i: int| 0 <= i < CELLS ==> !#[trigger] g[i],
    ensures
        next_generation(g) == g,
{
    assert forall|i: int| 0 <= i < CELLS implies next_generation(g)[i] == g[i] by {
        lemma_dead_grid_no_neighbours(g, i % (WIDTH as int), i / (WIDTH as int), 8);
    }
    assert(next_generation(g) =~= g);
}

/// A live cell without a single live neighbour is dead in the next
/// generation.
pub proof fn law_isolated_cell_dies(g: Seq<bool>, x: int, y: int)
    requires
        g.len() == CELLS,
        0 <= x < WIDTH,
        0 <= y < HEIGHT,
        cell(g, x, y),
        live_neighbours(g, x, y) == 0,
    ensures
        !cell(next_generation(g), x, y),
{
    lemma_next_generation_at(g, x, y);
}

/// Across the left edge: making the cell at column `WIDTH - 1` of row `y`
/// alive raises the neighbour count of the cell at column 0 of that row by
/// exactly one.
pub proof fn law_wrap_columns(g: Seq<bool>, y: int)
    requires
        g.len() == CELLS,
        0 <= y < HEIGHT,
    ensures
        live_neighbours(g.update(index_of(WIDTH - 1, y), true), 0, y) == live_neighbours(
            g.update(index_of(WIDTH - 1, y), false),
            0,
            y,
        ) + 1,
{
    reveal_with_fuel(alive_among, 9);
}

/// Across the top edge: making the cell at row `HEIGHT - 1` of column `x`
/// alive raises the neighbour count of the cell at row 0 of that column by
/// exactly one.
pub proof fn law_wrap_rows(g: Seq<bool>, x: int)
    requires
        g.len() == CELLS,
        0 <= x < WIDTH,
    ensures
        live_neighbours(g.update(index_of(x, HEIGHT - 1), true), x, 0) == live_neighbours(
            g.update(index_of(x, HEIGHT - 1), false),
            x,
            0,
        ) + 1,
{
    reveal_with_fuel(alive_among, 9);
}

/// The grid that is dead but for the 2 by 2 block with top-left cell
/// `(x, y)`, wrapping at the grid's edges.
pub open spec fn block_at(x: int, y: int) -> Seq<bool> {
    Seq::new(
        CELLS as nat,
        |i: int|
            in_pair(i % (WIDTH as int), x, WIDTH as int) && in_pair(
                i / (WIDTH as int),
                y,
                HEIGHT as int,
            ),
    )
}

/// Whether `a` is `x` or the position after `x`, modulo `n`.
pub open spec fn in_pair(a: int, x: int, n: int) -> bool {
    a == x || a == (x + 1) % n
}

proof fn lemma_block_cell(x: int, y: int, a: int, b: int)
    requires
        0 <= x < WIDTH,
        0 <= y < HEIGHT,
        0 <= a < WIDTH,
        0 <= b < HEIGHT,
    ensures
        cell(block_at(x, y), a, b) == (in_pair(a, x, WIDTH as int) && in_pair(b, y, HEIGHT as int)),
{
    let i = index_of(a, b);
    assert(i % (WIDTH as int) == a && i / (WIDTH as int) == b);
}

/// Of the three positions around `c` (before, at, after, modulo `n`), how
/// many lie in the pair that starts at `x`: at most two, and two exactly
/// when `c` does.
proof fn lemma_pair_hits(x: int, c: int, n: int)
    requires
        0 <= x < n,
        0 <= c < n,
        n == WIDTH || n == HEIGHT,
    ensures
        ({
            let before = (if in_pair((c + n - 1) % n, x, n) { 1int } else { 0 });
            let at = (if in_pair(c, x, n) { 1int } else { 0 });
            let after = (if in_pair((c + 1) % n, x, n) { 1int } else { 0 });
            before + at + after <= 2 && (before + at + after == 2 <==> in_pair(c, x, n))
        }),
{
}

/// A 2 by 2 block alone on the grid is still: its next generation is the
/// same grid.
pub proof fn law_block_is_stable(x: int, y: int)
    requires
        0 <= x < WIDTH,
        0 <= y < HEIGHT,
    ensures
        next_generation(block_at(x, y)) == block_at(x, y),
{
    let g = block_at(x, y);
    let w = WIDTH as int;
    let h = HEIGHT as int;
    assert forall|i: int| 0 <= i < CELLS implies next_generation(g)[i] == g[i] by {
        let cx = i % w;
        let cy = i / w;
        let xm = (cx + w - 1) % w;
        let xp = (cx + 1) % w;
        let ym = (cy + h - 1) % h;
        let yp = (cy + 1) % h;
        assert(index_of(cx, cy) == i);
        lemma_wrap(cx, w);
        lemma_wrap(cy, h);
        lemma_next_generation_at(g, cx, cy);
        reveal_with_fuel(alive_among, 9);
        lemma_block_cell(x, y, xm, ym);
        lemma_block_cell(x, y, xm, cy);
        lemma_block_cell(x, y, xm, yp);
        lemma_block_cell(x, y, cx, ym);
        lemma_block_cell(x, y, cx, cy);
        lemma_block_cell(x, y, cx, yp);
        lemma_block_cell(x, y, xp, ym);
        lemma_block_cell(x, y, xp, cy);
        lemma_block_cell(x, y, xp, yp);
        lemma_pair_hits(x, cx, w);
        lemma_pair_hits(y, cy, h);
    }
    assert(next_generation(g) =~= g);
}

/// The grid that is dead but for the L of three cells `(x, y)`,
/// `(x + 1, y)` and `(x, y + 1)`, wrapping at the grid's edges.
pub open spec fn l_tromino_at(x: int, y: int) -> Seq<bool> {
    Seq::new(
        CELLS as nat,
        |i: int|
            block_at(x, y)[i] && !(i % (WIDTH as int) == (x + 1) % (WIDTH as int) && i / (
            WIDTH as int) == (y + 1) % (HEIGHT as int)),
    )
}

proof fn lemma_live_neighbours_unrolled(g: Seq<bool>, x: int, y: int)
    ensures
        live_neighbours(g, x, y) == neighbour_alive(g, x, y, 0) + neighbour_alive(g, x, y, 1)
            + neighbour_alive(g, x, y, 2) + neighbour_alive(g, x, y, 3) + neighbour_alive(
            g,
            x,
            y,
            4,
        ) + neighbour_alive(g, x, y, 5) + neighbour_alive(g, x, y, 6) + neighbour_alive(
            g,
            x,
            y,
            7,
        ),
{
    reveal_with_fuel(alive_among, 9);
}

proof fn lemma_l_tromino_cell(x: int, y: int, a: int, b: int)
    requires
        0 <= x < WIDTH,
        0 <= y < HEIGHT,
        0 <= a < WIDTH,
        0 <= b < HEIGHT,
    ensures
        cell(l_tromino_at(x, y), a, b) == (in_pair(a, x, WIDTH as int) && in_pair(
            b,
            y,
            HEIGHT as int,
        ) && !(a == (x + 1) % (WIDTH as int) && b == (y + 1) % (HEIGHT as int))),
{
    let i = index_of(a, b);
    assert(i % (WIDTH as int) == a && i / (WIDTH as int) == b);
}

/// Three live cells in an L, alone on the grid, bring the empty corner that
/// completes their 2 by 2 square to life in the next generation.
pub proof fn law_l_tromino_fills_corner(x: int, y: int)
    requires
        0 <= x < WIDTH,
        0 <= y < HEIGHT,
    ensures
        ({
            let x1 = (x + 1) % (WIDTH as int);
            let y1 = (y + 1) % (HEIGHT as int);
            !cell(l_tromino_at(x, y), x1, y1) && cell(next_generation(l_tromino_at(x, y)), x1, y1)
        }),
{
    let w = WIDTH as int;
    let h = HEIGHT as int;
    let g = l_tromino_at(x, y);
    let x1 = (x + 1) % w;
    let y1 = (y + 1) % h;
    let xp = (x1 + 1) % w;
    let yp = (y1 + 1) % h;
    lemma_wrap(x, w);
    lemma_wrap(y, h);
    lemma_wrap(x1, w);
    lemma_wrap(y1, h);
    lemma_next_generation_at(g, x1, y1);
    lemma_live_neighbours_unrolled(g, x1, y1);
    lemma_l_tromino_cell(x, y, x1, y1);
    assert(neighbour_alive(g, x1, y1, 0) == 1) by {
        lemma_l_tromino_cell(x, y, x, y);
    }
    assert(neighbour_alive(g, x1, y1, 1) == 1) by {
        lemma_l_tromino_cell(x, y, x, y1);
    }
    assert(neighbour_alive(g, x1, y1, 2) == 0) by {
        lemma_l_tromino_cell(x, y, x, yp);
    }
    assert(neighbour_alive(g, x1, y1, 3) == 1) by {
        lemma_l_tromino_cell(x, y, x1, y);
    }
    assert(neighbour_alive(g, x1, y1, 4) == 0) by {
        lemma_l_tromino_cell(x, y, x1, yp);
    }
    assert(neighbour_alive(g, x1, y1, 5) == 0) by {
        lemma_l_tromino_cell(x, y, xp, y);
    }
    assert(neighbour_alive(g, x1, y1, 6) == 0) by {
        lemma_l_tromino_cell(x, y, xp, y1);
    }
    assert(neighbour_alive(g, x1, y1, 7) == 0) by {
        lemma_l_tromino_cell(x, y, xp, yp);
    }
}

} // verus!
