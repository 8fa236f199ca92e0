//! The playing field: a grid that wraps around at its edges, each cell empty
//! or occupied by the trail of a player.
use crate::packets::MoveDirection;
use vstd::prelude::*;

verus! {

/// The cells of the playing field, row by row.
struct Grid {
    cells: Vec<Vec<Option<usize>>>,
    width: usize,
    height: usize,
}

/// The grid as the contracts see it: `cells[y][x]` is the cell in column `x`
/// of row `y`.
pub struct WorldView {
    pub width: usize,
    pub height: usize,
    pub cells: Seq<Seq<Option<usize>>>,
}

impl View for Grid {
    type V = WorldView;

    closed spec fn view(&self) -> WorldView {
        WorldView {
            width: self.width,
            height: self.height,
            cells: self.cells@.map_values(|row: Vec<Option<usize>>| row@),
        }
    }
}

/// A cell after the trail of `player_id` is removed.
pub open spec fn clear_cell(c: Option<usize>, player_id: usize) -> Option<usize> {
    if c == Some(player_id) {
        None
    } else {
        c
    }
}

impl WorldView {
    /// `height` rows of `width` cells each.
    pub open spec fn shaped(self) -> bool {
        &&& self.cells.len() == self.height
        &&& forall|y: int| 0 <= y < self.height ==> (#[trigger] self.cells[y]).len() == self.width
    }

    /// The grid of the given size with every cell empty.
    pub open spec fn empty(width: usize, height: usize) -> WorldView {
        WorldView {
            width,
            height,
            cells: Seq::new(height as nat, |y: int| Seq::new(width as nat, |x: int| None)),
        }
    }

    /// The cell at `(x, y)`, coordinates taken modulo the size; a grid with
    /// no cells has only empty cells.
    pub open spec fn lookup(self, x: usize, y: usize) -> Option<usize> {
        if self.width == 0 || self.height == 0 {
            None
        } else {
            self.cells[(y % self.height) as int][(x % self.width) as int]
        }
    }

    /// The grid after `val` is written to the cell at `(x, y)`, coordinates
    /// taken modulo the size; a grid with no cells stays as it is.
    pub open spec fn place(self, x: usize, y: usize, val: usize) -> WorldView {
        if self.width == 0 || self.height == 0 {
            self
        } else {
            let yy = (y % self.height) as int;
            let xx = (x % self.width) as int;
            WorldView {
                width: self.width,
                height: self.height,
                cells: self.cells.update(yy, self.cells[yy].update(xx, Some(val))),
            }
        }
    }

    /// The grid with every cell of `player_id` emptied.
    pub open spec fn without_player(self, player_id: usize) -> WorldView {
        WorldView {
            width: self.width,
            height: self.height,
            cells: self.cells.map_values(
                |row: Seq<Option<usize>>| row.map_values(|c: Option<usize>| clear_cell(c, player_id)),
            ),
        }
    }

    /// One step from `(x, y)` is computed without a division by zero or an
    /// overflow.
    pub open spec fn step_defined(self, x: usize, y: usize, d: MoveDirection) -> bool {
        match d {
            MoveDirection::Up => self.height > 0 && y + self.height <= usize::MAX,
            MoveDirection::Down => self.height > 0 && y + 1 <= usize::MAX,
            MoveDirection::Left => self.width > 0 && x + self.width <= usize::MAX,
            MoveDirection::Right => self.width > 0 && x + 1 <= usize::MAX,
        }
    }

    /// The coordinates one step from `(x, y)`, wrapping around the edge; the
    /// coordinate that does not change is left as it is.
    pub open spec fn step_to(self, x: usize, y: usize, d: MoveDirection) -> (usize, usize) {
        match d {
            MoveDirection::Up => (x, ((y + self.height - 1) % (self.height as int)) as usize),
            MoveDirection::Down => (x, ((y + 1) % (self.height as int)) as usize),
            MoveDirection::Left => (((x + self.width - 1) % (self.width as int)) as usize, y),
            MoveDirection::Right => (((x + 1) % (self.width as int)) as usize, y),
        }
    }

    /// The cell one step from `(x, y)` is occupied.
    pub open spec fn blocked(self, x: usize, y: usize, d: MoveDirection) -> bool {
        let (nx, ny) = self.step_to(x, y, d);
        self.lookup(nx, ny) is Some
    }
}

impl Grid {
    /// The grid has the size that it records.
    spec fn wf(&self) -> bool {
        self@.shaped()
    }

    /// A grid of the given size with every cell empty.
    fn new(width: usize, height: usize) -> (r: Grid)
        ensures
            r.wf(),
            r@ == WorldView::empty(width, height),
    {
        let mut cells: Vec<Vec<Option<usize>>> = Vec::new();
        let mut y: usize = 0;
        while y < height
            invariant
                y <= height,
                cells@.len() == y,
                forall|j: int|
                    0 <= j < y ==> (#[trigger] cells@[j])@ == Seq::new(
                        width as nat,
                        |x: int| None::<usize>,
                    ),
            decreases height - y,
        {
            let mut row: Vec<Option<usize>> = Vec::new();
            let mut x: usize = 0;
            while x < width
                invariant
                    x <= width,
                    row@ == Seq::new(x as nat, |i: int| None::<usize>),
                decreases width - x,
            {
                row.push(None);
                x += 1;
                assert(row@ =~= Seq::new(x as nat, |i: int| None::<usize>));
            }
            cells.push(row);
            y += 1;
        }
        let r = Grid { cells, width, height };
        assert(r@.cells =~= WorldView::empty(width, height).cells);
        r
    }

    /// Returns (width, height).
    fn size(&self) -> (r: (usize, usize))
        ensures
            r == (self@.width, self@.height),
    {
        (self.width, self.height)
    }

    fn width(&self) -> (r: usize)
        ensures
            r == self@.width,
    {
        self.width
    }

    fn height(&self) -> (r: usize)
        ensures
            r == self@.height,
    {
        self.height
    }

    /// Get returns either None if the field is empty or Some with the id of
    /// the user occupying it.
    fn get(&self, x: usize, y: usize) -> (r: Option<usize>)
        requires
            self.wf(),
        ensures
            r == self@.lookup(x, y),
    {
        if self.width == 0 || self.height == 0 {
            return None;
        }
        let x = x % self.width;
        let y = y % self.height;
        assert(self@.cells[y as int] == self.cells@[y as int]@);
        self.cells[y][x]
    }

    /// Marks the cell at `(x, y)` as occupied by `val`.
    fn set(&mut self, x: usize, y: usize, val: usize)
        requires
            old(self).wf(),
        ensures
            final(self).wf(),
            final(self)@ == old(self)@.place(x, y, val),
    {
        if self.width == 0 || self.height == 0 {
            return;
        }
        let x = x % self.width;
        let y = y % self.height;
        let ghost before = self@;
        assert(before.cells[y as int] == self.cells@[y as int]@);
        self.cells[y][x] = Some(val);
        assert(self@.cells =~= before.cells.update(
            y as int,
            before.cells[y as int].update(x as int, Some(val)),
        ));
    }

    /// Clear every cell occupied by `player_id`.
    fn clear_player(&mut self, player_id: usize)
        requires
            old(self).wf(),
        ensures
            final(self).wf(),
            final(self)@ == old(self)@.without_player(player_id),
    {
        let ghost before = self@;
        let ghost after = before.without_player(player_id);
        let mut y: usize = 0;
        while y < self.height
            invariant
                before.shaped(),
                after == before.without_player(player_id),
                y <= self.height,
                self.width == before.width,
                self.height == before.height,
                self@.shaped(),
                forall|j: int|
                    0 <= j < y ==> #[trigger] self@.cells[j] == after.cells[j],
                forall|j: int|
                    y <= j < self.height ==> #[trigger] self@.cells[j] == before.cells[j],
            decreases self.height - y,
        {
            let mut x: usize = 0;
            assert(self@.cells[y as int] == self.cells@[y as int]@);
            while x < self.width
                invariant
                    before.shaped(),
                    after == before.without_player(player_id),
                    x <= self.width,
                    y < self.height,
                    self.width == before.width,
                    self.height == before.height,
                    self@.shaped(),
                    forall|j: int|
                        0 <= j < y ==> #[trigger] self@.cells[j] == after.cells[j],
                    forall|j: int|
                        y < j < self.height ==> #[trigger] self@.cells[j] == before.cells[j],
                    forall|i: int|
                        0 <= i < x ==> #[trigger] self@.cells[y as int][i] == clear_cell(
                            before.cells[y as int][i],
                            player_id,
                        ),
                    forall|i: int|
                        x <= i < self.width ==> #[trigger] self@.cells[y as int][i]
                            == before.cells[y as int][i],
                decreases self.width - x,
            {
                let ghost cur = self@;
                assert(cur.cells[y as int] == self.cells@[y as int]@);
                assert(self.cells@[y as int].len() == self.width);
                if let Some(v) = self.cells[y][x] {
                    if v == player_id {
                        self.cells[y][x] = None;
                        assert(self@.cells =~= cur.cells.update(
                            y as int,
                            cur.cells[y as int].update(x as int, None),
                        ));
                    }
                }
                x += 1;
            }
            assert(after.cells[y as int] == before.cells[y as int].map_values(
                |c: Option<usize>| clear_cell(c, player_id),
            ));
            assert(self@.cells[y as int] =~= after.cells[y as int]);
            y += 1;
        }
        assert(self@.cells =~= after.cells);
    }

    /// Returns the (x, y) coordinate after stepping once in a direction.
    fn step(&self, x: usize, y: usize, direction: MoveDirection) -> (r: (usize, usize))
        requires
            self@.step_defined(x, y, direction),
        ensures
            r == self@.step_to(x, y, direction),
    {
        let (width, height) = (self.width, self.height);
        match direction {
            MoveDirection::Up => (x, (y + height - 1) % height),
            MoveDirection::Down => (x, (y + 1) % height),
            MoveDirection::Left => ((x + width - 1) % width, y),
            MoveDirection::Right => ((x + 1) % width, y),
        }
    }

    /// True if the cell in `direction` from `(x, y)` is occupied.
    fn is_blocked(&self, x: usize, y: usize, direction: MoveDirection) -> (r: bool)
        requires
            self.wf(),
            self@.step_defined(x, y, direction),
        ensures
            r == self@.blocked(x, y, direction),
    {
        let (nx, ny) = self.step(x, y, direction);
        self.get(nx, ny).is_some()
    }
}

/// Grid of the playing field with None being empty fields and Some if it's
/// occupied with the occupant's user id.
pub struct WorldMap {
    grid: Grid,
}

impl View for WorldMap {
    type V = WorldView;

    closed spec fn view(&self) -> WorldView {
        self.grid@
    }
}

impl WorldMap {
    /// The grid has the size that it records.
    #[verifier::type_invariant]
    pub(crate) open spec fn inv(self) -> bool {
        self@.shaped()
    }

    /// A grid of the given size with every cell empty.
    pub(crate) fn new(width: usize, height: usize) -> (r: WorldMap)
        ensures
            r@ == WorldView::empty(width, height),
    {
        WorldMap { grid: Grid::new(width, height) }
    }

    /// Returns (width, height).
    pub fn size(&self) -> (r: (usize, usize))
        ensures
            r == (self@.width, self@.height),
    {
        self.grid.size()
    }

    pub fn width(&self) -> (r: usize)
        ensures
            r == self@.width,
    {
        self.grid.width()
    }

    pub fn height(&self) -> (r: usize)
        ensures
            r == self@.height,
    {
        self.grid.height()
    }

    /// Get returns either None if the field is empty or Some with the id of
    /// the user occupying it.
    pub fn get(&self, x: usize, y: usize) -> (r: Option<usize>)
        ensures
            r == self@.lookup(x, y),
    {
        proof {
            use_type_invariant(self);
        }
        self.grid.get(x, y)
    }

    /// Marks the cell at `(x, y)` as occupied by `val`.
    pub fn set(&mut self, x: usize, y: usize, val: usize)
        ensures
            final(self)@ == old(self)@.place(x, y, val),
    {
        proof {
            use_type_invariant(&*self);
        }
        let mut grid = Grid::new(0, 0);
        std::mem::swap(&mut grid, &mut self.grid);
        grid.set(x, y, val);
        self.grid = grid;
    }

    /// Clear every cell occupied by `player_id`.
    pub fn clear_player(&mut self, player_id: usize)
        ensures
            final(self)@ == old(self)@.without_player(player_id),
    {
        proof {
            use_type_invariant(&*self);
        }
        let mut grid = Grid::new(0, 0);
        std::mem::swap(&mut grid, &mut self.grid);
        grid.clear_player(player_id);
        self.grid = grid;
    }

    /// Returns the (x, y) coordinate after stepping once in a direction.
    pub fn step(&self, x: usize, y: usize, direction: MoveDirection) -> (r: (usize, usize))
        requires
            self@.step_defined(x, y, direction),
        ensures
            r == self@.step_to(x, y, direction),
    {
        self.grid.step(x, y, direction)
    }

    /// True if the cell in `direction` from `(x, y)` is occupied.
    pub fn is_blocked(&self, x: usize, y: usize, direction: MoveDirection) -> (r: bool)
        requires
            self@.step_defined(x, y, direction),
        ensures
            r == self@.blocked(x, y, direction),
    {
        proof {
            use_type_invariant(self);
        }
        self.grid.is_blocked(x, y, direction)
    }
}

/// The direction that goes back.
pub open spec fn opposite(d: MoveDirection) -> MoveDirection {
    match d {
        MoveDirection::Up => MoveDirection::Down,
        MoveDirection::Down => MoveDirection::Up,
        MoveDirection::Left => MoveDirection::Right,
        MoveDirection::Right => MoveDirection::Left,
    }
}

/// After writing `val` at `(x, y)` the cell reads `val`, and every other
/// cell reads as before.
pub proof fn lemma_lookup_after_place(v: WorldView, x: usize, y: usize, val: usize, qx: usize, qy: usize)
    requires
        v.shaped(),
        v.width > 0,
        v.height > 0,
    ensures
        v.place(x, y, val).shaped(),
        v.place(x, y, val).lookup(x, y) == Some(val),
        (qx % v.width != x % v.width || qy % v.height != y % v.height) ==> v.place(
            x,
            y,
            val,
        ).lookup(qx, qy) == v.lookup(qx, qy),
{
}

/// The grid wraps around: a cell is found again one full width to the right
/// or one full height further down.
pub proof fn lemma_lookup_wraps(v: WorldView, x: usize, y: usize)
    requires
        x + v.width <= usize::MAX,
        y + v.height <= usize::MAX,
    ensures
        v.lookup((x + v.width) as usize, y) == v.lookup(x, y),
        v.lookup(x, (y + v.height) as usize) == v.lookup(x, y),
{
    if v.width > 0 && v.height > 0 {
        vstd::arithmetic::div_mod::lemma_mod_add_multiples_vanish(x as int, v.width as int);
        vstd::arithmetic::div_mod::lemma_mod_add_multiples_vanish(y as int, v.height as int);
    }
}

/// After the trail of `player_id` is cleared, no cell holds that player, and
/// every other cell reads as before.
pub proof fn lemma_cleared_player_gone(v: WorldView, player_id: usize, x: usize, y: usize)
    requires
        v.shaped(),
    ensures
        v.without_player(player_id).shaped(),
        v.without_player(player_id).lookup(x, y) != Some(player_id),
        v.lookup(x, y) != Some(player_id) ==> v.without_player(player_id).lookup(x, y) == v.lookup(
            x,
            y,
        ),
{
}

/// A step always lands inside the grid on the axis it moves along, and a
/// step back returns to the starting cell.
pub proof fn lemma_step_back(v: WorldView, x: usize, y: usize, d: MoveDirection)
    requires
        v.step_defined(x, y, d),
        v.step_defined(v.step_to(x, y, d).0, v.step_to(x, y, d).1, opposite(d)),
    ensures
        (d == MoveDirection::Up || d == MoveDirection::Down) ==> v.step_to(x, y, d).1 < v.height,
        (d == MoveDirection::Left || d == MoveDirection::Right) ==> v.step_to(x, y, d).0 < v.width,
        v.step_to(v.step_to(x, y, d).0, v.step_to(x, y, d).1, opposite(d)) == match d {
            MoveDirection::Up | MoveDirection::Down => (x, (y % v.height) as usize),
            MoveDirection::Left | MoveDirection::Right => ((x % v.width) as usize, y),
        },
{
    let h = v.height as int;
    let w = v.width as int;
    match d {
        MoveDirection::Up => {
            let a = y + h - 1;
            vstd::arithmetic::div_mod::lemma_add_mod_noop_right(1, a, h);
            vstd::arithmetic::div_mod::lemma_mod_add_multiples_vanish(y as int, h);
            assert(1 + a == h + y);
        },
        MoveDirection::Down => {
            let a = y + 1;
            vstd::arithmetic::div_mod::lemma_add_mod_noop_right(h - 1, a, h);
            vstd::arithmetic::div_mod::lemma_mod_add_multiples_vanish(y as int, h);
            assert(h - 1 + a == h + y);
        },
        MoveDirection::Left => {
            let a = x + w - 1;
            vstd::arithmetic::div_mod::lemma_add_mod_noop_right(1, a, w);
            vstd::arithmetic::div_mod::lemma_mod_add_multiples_vanish(x as int, w);
            assert(1 + a == w + x);
        },
        MoveDirection::Right => {
            let a = x + 1;
            vstd::arithmetic::div_mod::lemma_add_mod_noop_right(w - 1, a, w);
            vstd::arithmetic::div_mod::lemma_mod_add_multiples_vanish(x as int, w);
            assert(w - 1 + a == w + x);
        },
    }
}

/// From a cell inside a grid whose doubled width and height still fit a
/// `usize`, a step and a step back return to that cell.
pub proof fn lemma_step_back_in_grid(v: WorldView, x: usize, y: usize, d: MoveDirection)
    requires
        0 < v.width,
        0 < v.height,
        x < v.width,
        y < v.height,
        v.width + v.width <= usize::MAX,
        v.height + v.height <= usize::MAX,
    ensures
        v.step_defined(x, y, d),
        v.step_defined(v.step_to(x, y, d).0, v.step_to(x, y, d).1, opposite(d)),
        v.step_to(v.step_to(x, y, d).0, v.step_to(x, y, d).1, opposite(d)) == (x, y),
{
    let (nx, ny) = v.step_to(x, y, d);
    vstd::arithmetic::div_mod::lemma_mod_bound((y + v.height - 1) as int, v.height as int);
    vstd::arithmetic::div_mod::lemma_mod_bound((y + 1) as int, v.height as int);
    vstd::arithmetic::div_mod::lemma_mod_bound((x + v.width - 1) as int, v.width as int);
    vstd::arithmetic::div_mod::lemma_mod_bound((x + 1) as int, v.width as int);
    lemma_step_back(v, x, y, d);
    vstd::arithmetic::div_mod::lemma_small_mod(x as nat, v.width as nat);
    vstd::arithmetic::div_mod::lemma_small_mod(y as nat, v.height as nat);
}

/// A direction is blocked exactly when the cell one wrapping step away holds
/// some player, whoever that is and whatever the current cell holds; at the
/// edges the step wraps to the opposite side.
pub proof fn lemma_blocked_cells(v: WorldView, x: usize, y: usize)
    requires
        v.shaped(),
        0 < v.width,
        0 < v.height,
        x < v.width,
        y < v.height,
        v.width + v.width <= usize::MAX,
        v.height + v.height <= usize::MAX,
    ensures
        v.blocked(x, y, MoveDirection::Up) <==> (if y == 0 {
            v.cells[v.height - 1][x as int]
        } else {
            v.cells[y - 1][x as int]
        }) is Some,
        v.blocked(x, y, MoveDirection::Down) <==> (if y + 1 == v.height {
            v.cells[0][x as int]
        } else {
            v.cells[y + 1][x as int]
        }) is Some,
        v.blocked(x, y, MoveDirection::Left) <==> (if x == 0 {
            v.cells[y as int][v.width - 1]
        } else {
            v.cells[y as int][x - 1]
        }) is Some,
        v.blocked(x, y, MoveDirection::Right) <==> (if x + 1 == v.width {
            v.cells[y as int][0]
        } else {
            v.cells[y as int][x + 1]
        }) is Some,
{
    lemma_step_moves(v, x, y);
    let (ux, uy) = v.step_to(x, y, MoveDirection::Up);
    let (dx, dy) = v.step_to(x, y, MoveDirection::Down);
    let (lx, ly) = v.step_to(x, y, MoveDirection::Left);
    let (rx, ry) = v.step_to(x, y, MoveDirection::Right);
    vstd::arithmetic::div_mod::lemma_small_mod(x as nat, v.width as nat);
    vstd::arithmetic::div_mod::lemma_small_mod(y as nat, v.height as nat);
    vstd::arithmetic::div_mod::lemma_small_mod(uy as nat, v.height as nat);
    vstd::arithmetic::div_mod::lemma_small_mod(dy as nat, v.height as nat);
    vstd::arithmetic::div_mod::lemma_small_mod(lx as nat, v.width as nat);
    vstd::arithmetic::div_mod::lemma_small_mod(rx as nat, v.width as nat);
}

/// From a cell inside the grid, a step moves one cell along its axis and
/// wraps to the opposite edge when it leaves the grid; the other coordinate
/// stays.
pub proof fn lemma_step_moves(v: WorldView, x: usize, y: usize)
    requires
        0 < v.width,
        0 < v.height,
        x < v.width,
        y < v.height,
        v.width + v.width <= usize::MAX,
        v.height + v.height <= usize::MAX,
    ensures
        v.step_to(x, y, MoveDirection::Up) == (x, if y == 0 {
            (v.height - 1) as usize
        } else {
            (y - 1) as usize
        }),
        v.step_to(x, y, MoveDirection::Down) == (x, if y + 1 == v.height {
            0usize
        } else {
            (y + 1) as usize
        }),
        v.step_to(x, y, MoveDirection::Left) == (if x == 0 {
            (v.width - 1) as usize
        } else {
            (x - 1) as usize
        }, y),
        v.step_to(x, y, MoveDirection::Right) == (if x + 1 == v.width {
            0usize
        } else {
            (x + 1) as usize
        }, y),
{
    let h = v.height as int;
    let w = v.width as int;
    if y == 0 {
        vstd::arithmetic::div_mod::lemma_small_mod((h - 1) as nat, h as nat);
    } else {
        vstd::arithmetic::div_mod::lemma_mod_add_multiples_vanish(y - 1, h);
        vstd::arithmetic::div_mod::lemma_small_mod((y - 1) as nat, h as nat);
    }
    if y + 1 == h {
        vstd::arithmetic::div_mod::lemma_mod_self_0(h);
    } else {
        vstd::arithmetic::div_mod::lemma_small_mod((y + 1) as nat, h as nat);
    }
    if x == 0 {
        vstd::arithmetic::div_mod::lemma_small_mod((w - 1) as nat, w as nat);
    } else {
        vstd::arithmetic::div_mod::lemma_mod_add_multiples_vanish(x - 1, w);
        vstd::arithmetic::div_mod::lemma_small_mod((x - 1) as nat, w as nat);
    }
    if x + 1 == w {
        vstd::arithmetic::div_mod::lemma_mod_self_0(w);
    } else {
        vstd::arithmetic::div_mod::lemma_small_mod((x + 1) as nat, w as nat);
    }
}

} // verus!
