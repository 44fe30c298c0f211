//! A toroidal cellular-automaton board: the demo consumer of the buffer
//! model, kept here because its rules are plain data logic.
//!
//! Each tick applies the classic rules to every cell at once: a living
//! cell with fewer than two or more than three living neighbors dies, a
//! living cell with two or three survives, and a dead cell with exactly
//! three is born.  The board wraps at its edges in all eight directions.

use vstd::prelude::*;

verus! {

/// Relies on rand::random: nothing is promised of the value drawn.
pub assume_specification<T>[ rand::random::<T> ]() -> (r: T)
    where
        rand::distributions::Standard: rand::distributions::Distribution<T>,
;

/// How a fresh board is seeded.
#[derive(Debug, Clone, Copy, PartialEq, Eq, Structural)]
pub enum SetupKind {
    /// Every cell drawn at random.
    Random,
    /// A two-by-two still block.
    Block,
    /// A vertical three-cell bar.
    Bar,
    /// A glider.
    Glider,
}

/// One configuration attribute for building a board.
#[derive(Debug, Clone, Copy, PartialEq, Eq, Structural)]
pub enum Attribute {
    /// The board's width and height.
    BoardSize(usize, usize),
    /// The seed pattern.
    BoardSetup(SetupKind),
}

/// One cell of the board.
#[derive(Debug, Clone, Copy, PartialEq, Eq, Structural)]
pub enum Cell {
    /// A living cell.
    Alive,
    /// A dead cell.
    Dead,
}

impl Cell {
    /// Whether the cell is alive.
    pub fn is_alive(self) -> (r: bool)
        ensures
            r <==> self is Alive,
    {
        match self {
            Self::Alive => true,
            Self::Dead => false,
        }
    }

    /// Whether the cell is dead.
    pub fn is_dead(self) -> (r: bool)
        ensures
            r <==> self is Dead,
    {
        !self.is_alive()
    }
}

/// One of the eight directions a neighbor can lie in.
#[derive(Debug, Clone, Copy, PartialEq, Eq, Structural)]
pub enum CellActionDirection {
    /// One row up.
    Up,
    /// One row down.
    Down,
    /// One column left.
    Left,
    /// One column right.
    Right,
    /// One step left and down.
    LeftDown,
    /// One step left and up.
    LeftUp,
    /// One step right and down.
    RightDown,
    /// One step right and up.
    RightUp,
}

/// The direction a small number names, in the order the neighbor scan
/// walks them.
pub open spec fn spec_direction_from(num: int) -> Option<CellActionDirection> {
    if num == 0 {
        Some(CellActionDirection::Left)
    } else if num == 1 {
        Some(CellActionDirection::Right)
    } else if num == 2 {
        Some(CellActionDirection::Up)
    } else if num == 3 {
        Some(CellActionDirection::Down)
    } else if num == 4 {
        Some(CellActionDirection::LeftUp)
    } else if num == 5 {
        Some(CellActionDirection::LeftDown)
    } else if num == 6 {
        Some(CellActionDirection::RightUp)
    } else if num == 7 {
        Some(CellActionDirection::RightDown)
    } else {
        None
    }
}

impl CellActionDirection {
    /// The direction a small number names, or `None` past the eight.
    pub fn from_u32(num: u8) -> (r: Option<Self>)
        ensures
            r == spec_direction_from(num as int),
    {
        match num {
            0 => Some(Self::Left),
            1 => Some(Self::Right),
            2 => Some(Self::Up),
            3 => Some(Self::Down),
            4 => Some(Self::LeftUp),
            5 => Some(Self::LeftDown),
            6 => Some(Self::RightUp),
            7 => Some(Self::RightDown),
            _ => None,
        }
    }
}

/// What one tick decides for one cell.
#[derive(Debug, Clone, Copy, PartialEq, Eq, Structural)]
enum CellAction {
    UnderPopulation,
    OverPopulation,
    ReproductionAlive,
    ReproductionDead,
    Pass,
}

/// `val + addend` when it stays under `limit`, `None` otherwise: the
/// forward half of the toroidal wrap.
fn symmetry_helper(val: usize, addend: usize, limit: usize) -> (r: Option<usize>)
    requires
        val + addend <= usize::MAX,
    ensures
        val + addend < limit ==> r == Some((val + addend) as usize),
        val + addend >= limit ==> r is None,
{
    let ret = val + addend;
    if ret < limit {
        Some(ret)
    } else {
        None
    }
}

/// A board of cells with its tick counter and the indices changed by the
/// last generation.
pub struct Context {
    /// The board's width and height.
    pub board_size: (usize, usize),
    data: Vec<Cell>,
    /// How many generations have passed.
    pub cnt: u64,
    last_gen_born: Vec<usize>,
    last_gen_killed: Vec<usize>,
}

impl Context {
    /// The board's width.
    pub closed spec fn width(self) -> int {
        self.board_size.0 as int
    }

    /// The board's height.
    pub closed spec fn height(self) -> int {
        self.board_size.1 as int
    }

    /// How many generations have passed.
    pub closed spec fn generations(self) -> u64 {
        self.cnt
    }

    /// The cells, row by row.
    pub closed spec fn cells(self) -> Seq<Cell> {
        self.data@
    }

    /// The indices born in the last generation.
    pub closed spec fn born_view(self) -> Seq<usize> {
        self.last_gen_born@
    }

    /// The indices killed in the last generation.
    pub closed spec fn killed_view(self) -> Seq<usize> {
        self.last_gen_killed@
    }

    /// The board is at least one by one and the cells fill it exactly.
    pub open spec fn wf(self) -> bool {
        &&& self.width() >= 1
        &&& self.height() >= 1
        &&& self.cells().len() == self.width() * self.height()
    }

    /// The flat index of the cell at `(x, y)`.
    pub open spec fn spec_index(self, x: int, y: int) -> int {
        x + y * self.width()
    }

    /// Whether the cell at `(x, y)` is alive.
    pub open spec fn alive(self, x: int, y: int) -> bool {
        self.cells()[self.spec_index(x, y)] is Alive
    }

    /// The row above, wrapping at the top edge.
    pub open spec fn up_y(self, y: int) -> int {
        if y == 0 {
            self.height() - 1
        } else {
            y - 1
        }
    }

    /// The row below, wrapping at the bottom edge.
    pub open spec fn down_y(self, y: int) -> int {
        if y + 1 < self.height() {
            y + 1
        } else {
            0
        }
    }

    /// The column to the left, wrapping at the left edge.
    pub open spec fn left_x(self, x: int) -> int {
        if x == 0 {
            self.width() - 1
        } else {
            x - 1
        }
    }

    /// The column to the right, wrapping at the right edge.
    pub open spec fn right_x(self, x: int) -> int {
        if x + 1 < self.width() {
            x + 1
        } else {
            0
        }
    }

    /// The coordinates of the neighbor of `(x, y)` in direction `d`.
    pub open spec fn rel_coords(self, x: int, y: int, d: CellActionDirection) -> (int, int) {
        match d {
            CellActionDirection::Up => (x, self.up_y(y)),
            CellActionDirection::Down => (x, self.down_y(y)),
            CellActionDirection::Left => (self.left_x(x), y),
            CellActionDirection::Right => (self.right_x(x), y),
            CellActionDirection::LeftUp => (self.left_x(x), self.up_y(y)),
            CellActionDirection::LeftDown => (self.left_x(x), self.down_y(y)),
            CellActionDirection::RightUp => (self.right_x(x), self.up_y(y)),
            CellActionDirection::RightDown => (self.right_x(x), self.down_y(y)),
        }
    }

    /// Whether the neighbor in the `j`-th scan direction is alive.
    pub open spec fn alive_dir(self, x: int, y: int, j: int) -> bool {
        match spec_direction_from(j) {
            Some(d) => {
                let (nx, ny) = self.rel_coords(x, y, d);
                self.alive(nx, ny)
            },
            None => false,
        }
    }

    /// How many of the first `j` scan directions hold a living neighbor.
    pub open spec fn neighbors_upto(self, x: int, y: int, j: int) -> int
        decreases j,
    {
        if j <= 0 {
            0
        } else {
            self.neighbors_upto(x, y, j - 1) + if self.alive_dir(x, y, j - 1) {
                1int
            } else {
                0int
            }
        }
    }

    /// How many of the eight neighbors are alive.
    pub open spec fn neighbors_alive(self, x: int, y: int) -> int {
        self.neighbors_upto(x, y, 8)
    }

    /// The cell at `(x, y)` after one tick.
    pub open spec fn next_cell(self, x: int, y: int) -> Cell {
        let n = self.neighbors_alive(x, y);
        if self.alive(x, y) {
            if 2 <= n <= 3 {
                Cell::Alive
            } else {
                Cell::Dead
            }
        } else {
            if n == 3 {
                Cell::Alive
            } else {
                Cell::Dead
            }
        }
    }

    /// What the tick decides for the cell at `(x, y)`.
    spec fn spec_action(self, x: int, y: int) -> CellAction {
        let n = self.neighbors_alive(x, y);
        if !self.alive(x, y) {
            if n == 3 {
                CellAction::ReproductionAlive
            } else {
                CellAction::ReproductionDead
            }
        } else {
            if n <= 1 {
                CellAction::UnderPopulation
            } else if n <= 3 {
                CellAction::Pass
            } else {
                CellAction::OverPopulation
            }
        }
    }

    /// Distinct in-bounds coordinates have distinct flat indices.
    proof fn lemma_index_injective(self, x: int, y: int, u: int, v: int)
        requires
            self.wf(),
            0 <= x < self.width(),
            0 <= y < self.height(),
            0 <= u < self.width(),
            0 <= v < self.height(),
            self.spec_index(x, y) == self.spec_index(u, v),
        ensures
            x == u && y == v,
    {
        assert(y == v) by (nonlinear_arith)
            requires
                x + y * self.width() == u + v * self.width(),
                0 <= x < self.width(),
                0 <= u < self.width(),
                0 <= y,
                0 <= v,
        ;
    }

    /// An in-bounds coordinate pair has an in-bounds flat index.
    proof fn lemma_index_bounds(self, x: int, y: int)
        requires
            self.wf(),
            0 <= x < self.width(),
            0 <= y < self.height(),
        ensures
            0 <= self.spec_index(x, y) < self.cells().len(),
    {
        assert(x + y * self.width() < self.width() * self.height()) by (nonlinear_arith)
            requires
                0 <= x < self.width(),
                0 <= y < self.height(),
        ;
    }

    /// The cells, row by row.
    pub fn get_data(&self) -> (r: &Vec<Cell>)
        ensures
            r@ == self.cells(),
    {
        &self.data
    }

    /// The indices of the cells born last tick.
    pub fn get_born(&self) -> (r: &Vec<usize>)
        ensures
            r@ == self.born_view(),
    {
        &self.last_gen_born
    }

    /// The indices of the cells killed last tick.
    pub fn get_killed(&self) -> (r: &Vec<usize>)
        ensures
            r@ == self.killed_view(),
    {
        &self.last_gen_killed
    }

    /// The flat index of the cell at the given coordinates.
    pub fn get_index(&self, x_coord: usize, y_coord: usize) -> (r: usize)
        requires
            self.wf(),
            x_coord < self.width(),
            y_coord < self.height(),
        ensures
            r == self.spec_index(x_coord as int, y_coord as int),
            r < self.cells().len(),
    {
        let total: usize = self.data.len();
        proof {
            self.lemma_index_bounds(x_coord as int, y_coord as int);
        }
        x_coord + y_coord * self.board_size.0
    }

    /// The cell at the given coordinates.
    pub fn get_value(&self, x_coord: usize, y_coord: usize) -> (r: Cell)
        requires
            self.wf(),
            x_coord < self.width(),
            y_coord < self.height(),
        ensures
            r == self.cells()[self.spec_index(x_coord as int, y_coord as int)],
    {
        let index = self.get_index(x_coord, y_coord);
        self.data[index]
    }

    /// Overwrite the cell at the given coordinates.
    fn set_cell(&mut self, x_coord: usize, y_coord: usize, state: Cell)
        requires
            old(self).wf(),
            x_coord < old(self).width(),
            y_coord < old(self).height(),
        ensures
            final(self).wf(),
            final(self).board_size == old(self).board_size,
            final(self).cnt == old(self).cnt,
            final(self).born_view() == old(self).born_view(),
            final(self).killed_view() == old(self).killed_view(),
            final(self).cells() == old(self).cells().update(old(self).spec_index(
                x_coord as int, y_coord as int), state),
    {
        proof {
            self.lemma_index_bounds(x_coord as int, y_coord as int);
        }
        let index = self.get_index(x_coord, y_coord);
        self.data.set(index, state);
    }

    /// The coordinates one row up, wrapping at the top edge.
    fn index_up(&self, x_coord: usize, y_coord: usize) -> (r: (usize, usize))
        requires
            self.wf(),
            x_coord < self.width(),
            y_coord < self.height(),
        ensures
            r.0 == x_coord,
            r.1 == self.up_y(y_coord as int),
    {
        match y_coord.checked_sub(1) {
            Some(y) => (x_coord, y),
            None => (x_coord, self.board_size.1 - 1),
        }
    }

    /// The coordinates one row down, wrapping at the bottom edge.
    fn index_down(&self, x_coord: usize, y_coord: usize) -> (r: (usize, usize))
        requires
            self.wf(),
            x_coord < self.width(),
            y_coord < self.height(),
        ensures
            r.0 == x_coord,
            r.1 == self.down_y(y_coord as int),
    {
        match symmetry_helper(y_coord, 1, self.board_size.1) {
            Some(y) => (x_coord, y),
            None => (x_coord, 0),
        }
    }

    /// The coordinates one column left, wrapping at the left edge.
    fn index_left(&self, x_coord: usize, y_coord: usize) -> (r: (usize, usize))
        requires
            self.wf(),
            x_coord < self.width(),
            y_coord < self.height(),
        ensures
            r.0 == self.left_x(x_coord as int),
            r.1 == y_coord,
    {
        match x_coord.checked_sub(1) {
            Some(x) => (x, y_coord),
            None => (self.board_size.0 - 1, y_coord),
        }
    }

    /// The coordinates one column right, wrapping at the right edge.
    fn index_right(&self, x_coord: usize, y_coord: usize) -> (r: (usize, usize))
        requires
            self.wf(),
            x_coord < self.width(),
            y_coord < self.height(),
        ensures
            r.0 == self.right_x(x_coord as int),
            r.1 == y_coord,
    {
        match symmetry_helper(x_coord, 1, self.board_size.0) {
            Some(x) => (x, y_coord),
            None => (0, y_coord),
        }
    }

    /// The flat index of the neighbor in the given direction, wrapping at
    /// the board's edges.
    pub fn get_index_relative(&self, x_coord: usize, y_coord: usize,
        direction: CellActionDirection) -> (r: usize)
        requires
            self.wf(),
            x_coord < self.width(),
            y_coord < self.height(),
        ensures
            ({
                let (nx, ny) = self.rel_coords(x_coord as int, y_coord as int, direction);
                r == self.spec_index(nx, ny)
            }),
            r < self.cells().len(),
    {
        let r = match direction {
            CellActionDirection::Up => {
                let (x, y) = self.index_up(x_coord, y_coord);
                self.get_index(x, y)
            },
            CellActionDirection::Down => {
                let (x, y) = self.index_down(x_coord, y_coord);
                self.get_index(x, y)
            },
            CellActionDirection::Left => {
                let (x, y) = self.index_left(x_coord, y_coord);
                self.get_index(x, y)
            },
            CellActionDirection::Right => {
                let (x, y) = self.index_right(x_coord, y_coord);
                self.get_index(x, y)
            },
            CellActionDirection::LeftUp => {
                let (x, y) = self.index_left(x_coord, y_coord);
                let (x2, y2) = self.index_up(x, y);
                self.get_index(x2, y2)
            },
            CellActionDirection::LeftDown => {
                let (x, y) = self.index_left(x_coord, y_coord);
                let (x2, y2) = self.index_down(x, y);
                self.get_index(x2, y2)
            },
            CellActionDirection::RightUp => {
                let (x, y) = self.index_right(x_coord, y_coord);
                let (x2, y2) = self.index_up(x, y);
                self.get_index(x2, y2)
            },
            CellActionDirection::RightDown => {
                let (x, y) = self.index_right(x_coord, y_coord);
                let (x2, y2) = self.index_down(x, y);
                self.get_index(x2, y2)
            },
        };
        r
    }

    /// The neighbor cell in the given direction, wrapping at the board's
    /// edges.
    pub fn get_value_relative(&self, x_coord: usize, y_coord: usize,
        direction: CellActionDirection) -> (r: Cell)
        requires
            self.wf(),
            x_coord < self.width(),
            y_coord < self.height(),
        ensures
            ({
                let (nx, ny) = self.rel_coords(x_coord as int, y_coord as int, direction);
                r == self.cells()[self.spec_index(nx, ny)]
            }),
    {
        let index = self.get_index_relative(x_coord, y_coord, direction);
        self.data[index]
    }

    /// How many of the eight neighbors are alive.
    fn count_alive(&self, x_coord: usize, y_coord: usize) -> (n: usize)
        requires
            self.wf(),
            x_coord < self.width(),
            y_coord < self.height(),
        ensures
            n == self.neighbors_alive(x_coord as int, y_coord as int),
    {
        let mut cnt: usize = 0;
        let mut cx: u8 = 0;
        while cx < 8
            invariant
                self.wf(),
                x_coord < self.width(),
                y_coord < self.height(),
                cx <= 8,
                cnt == self.neighbors_upto(x_coord as int, y_coord as int, cx as int),
                cnt <= cx,
            decreases 8 - cx,
        {
            let direction = match CellActionDirection::from_u32(cx) {
                Some(d) => d,
                None => {
                    proof {
                        assert(false);
                    }
                    CellActionDirection::Up
                },
            };
            let cell = self.get_value_relative(x_coord, y_coord, direction);
            if cell.is_alive() {
                cnt += 1;
            }
            cx += 1;
        }
        cnt
    }

    /// What the tick decides for a dead cell: born on exactly three
    /// living neighbors.
    fn count_neighbors_dead(&self, x_coord: usize, y_coord: usize) -> (r: CellAction)
        requires
            self.wf(),
            x_coord < self.width(),
            y_coord < self.height(),
            !self.alive(x_coord as int, y_coord as int),
        ensures
            r == self.spec_action(x_coord as int, y_coord as int),
    {
        let cnt = self.count_alive(x_coord, y_coord);
        if cnt == 3 {
            CellAction::ReproductionAlive
        } else {
            CellAction::ReproductionDead
        }
    }

    /// What the tick decides for the cell at the given coordinates.
    fn count_neighbors(&self, x_coord: usize, y_coord: usize) -> (r: CellAction)
        requires
            self.wf(),
            x_coord < self.width(),
            y_coord < self.height(),
        ensures
            r == self.spec_action(x_coord as int, y_coord as int),
    {
        if self.get_value(x_coord, y_coord).is_dead() {
            return self.count_neighbors_dead(x_coord, y_coord);
        }
        let cnt = self.count_alive(x_coord, y_coord);
        if cnt <= 1 {
            CellAction::UnderPopulation
        } else if cnt <= 3 {
            CellAction::Pass
        } else {
            CellAction::OverPopulation
        }
    }

    /// Kill then bear the recorded cells: every index in the killed list
    /// goes dead, every index in the born list comes alive, all others
    /// keep their state.
    fn do_last_gen_buffer(&mut self)
        requires
            old(self).wf(),
            forall|j: int|
                0 <= j < old(self).killed_view().len()
                    ==> (#[trigger] old(self).killed_view()[j]) < old(self).cells().len(),
            forall|j: int|
                0 <= j < old(self).born_view().len()
                    ==> (#[trigger] old(self).born_view()[j]) < old(self).cells().len(),
        ensures
            final(self).wf(),
            final(self).board_size == old(self).board_size,
            final(self).cnt == old(self).cnt,
            final(self).born_view() == old(self).born_view(),
            final(self).killed_view() == old(self).killed_view(),
            final(self).cells().len() == old(self).cells().len(),
            forall|i: int|
                0 <= i < old(self).cells().len() ==> final(self).cells()[i] == (
                if old(self).born_view().contains(i as usize) {
                    Cell::Alive
                } else if old(self).killed_view().contains(i as usize) {
                    Cell::Dead
                } else {
                    old(self).cells()[i]
                }),
    {
        let total: usize = self.data.len();
        let kn = self.last_gen_killed.len();
        let mut k: usize = 0;
        while k < kn
            invariant
                self.cells().len() == total,
                self.wf(),
                self.board_size == old(self).board_size,
                self.cnt == old(self).cnt,
                self.born_view() == old(self).born_view(),
                self.killed_view() == old(self).killed_view(),
                kn == self.killed_view().len(),
                forall|j: int|
                    0 <= j < self.killed_view().len()
                        ==> (#[trigger] self.killed_view()[j]) < self.cells().len(),
                self.cells().len() == old(self).cells().len(),
                k <= kn,
                forall|i: int|
                    0 <= i < self.cells().len() ==> self.cells()[i] == (
                    if self.killed_view().subrange(0, k as int).contains(i as usize) {
                        Cell::Dead
                    } else {
                        old(self).cells()[i]
                    }),
            decreases kn - k,
        {
            let idx = self.last_gen_killed[k];
            let ghost pre = *self;
            self.data.set(idx, Cell::Dead);
            proof {
                broadcast use vstd::seq_lib::lemma_seq_contains_after_push;

                let v = pre.killed_view()[k as int];
                let sub0 = pre.killed_view().subrange(0, k as int);
                let sub1 = pre.killed_view().subrange(0, k + 1);
                assert(sub1 =~= sub0.push(v));
                assert(self.cells() =~= pre.cells().update(idx as int, Cell::Dead));
                assert forall|i: int| 0 <= i < self.cells().len() implies self.cells()[i]
                    == (if sub1.contains(i as usize) {
                    Cell::Dead
                } else {
                    old(self).cells()[i]
                }) by {
                    assert(sub0.push(v).contains(i as usize) <==> v == i as usize
                        || sub0.contains(i as usize));
                    assert(pre.cells()[i] == (if sub0.contains(i as usize) {
                        Cell::Dead
                    } else {
                        old(self).cells()[i]
                    }));
                    if i == idx as int {
                        assert(self.cells()[i] == Cell::Dead);
                        assert(sub1.contains(i as usize));
                    } else {
                        assert(self.cells()[i] == pre.cells()[i]);
                        assert(sub1.contains(i as usize) == sub0.contains(i as usize));
                    }
                }
            }
            k += 1;
        }
        proof {
            assert(self.killed_view().subrange(0, kn as int) =~= self.killed_view());
        }
        let ghost mid = *self;
        let bn = self.last_gen_born.len();
        let mut b: usize = 0;
        while b < bn
            invariant
                self.cells().len() == total,
                self.wf(),
                self.board_size == mid.board_size,
                self.cnt == mid.cnt,
                self.born_view() == mid.born_view(),
                self.killed_view() == mid.killed_view(),
                bn == self.born_view().len(),
                forall|j: int|
                    0 <= j < self.born_view().len()
                        ==> (#[trigger] self.born_view()[j]) < self.cells().len(),
                self.cells().len() == mid.cells().len(),
                b <= bn,
                forall|i: int|
                    0 <= i < self.cells().len() ==> self.cells()[i] == (
                    if self.born_view().subrange(0, b as int).contains(i as usize) {
                        Cell::Alive
                    } else {
                        mid.cells()[i]
                    }),
            decreases bn - b,
        {
            let idx = self.last_gen_born[b];
            let ghost pre = *self;
            self.data.set(idx, Cell::Alive);
            proof {
                broadcast use vstd::seq_lib::lemma_seq_contains_after_push;

                let v = pre.born_view()[b as int];
                let sub0 = pre.born_view().subrange(0, b as int);
                let sub1 = pre.born_view().subrange(0, b + 1);
                assert(sub1 =~= sub0.push(v));
                assert(self.cells() =~= pre.cells().update(idx as int, Cell::Alive));
                assert forall|i: int| 0 <= i < self.cells().len() implies self.cells()[i]
                    == (if sub1.contains(i as usize) {
                    Cell::Alive
                } else {
                    mid.cells()[i]
                }) by {
                    assert(sub0.push(v).contains(i as usize) <==> v == i as usize
                        || sub0.contains(i as usize));
                    assert(pre.cells()[i] == (if sub0.contains(i as usize) {
                        Cell::Alive
                    } else {
                        mid.cells()[i]
                    }));
                    if i == idx as int {
                        assert(self.cells()[i] == Cell::Alive);
                        assert(sub1.contains(i as usize));
                    } else {
                        assert(self.cells()[i] == pre.cells()[i]);
                        assert(sub1.contains(i as usize) == sub0.contains(i as usize));
                    }
                }
            }
            b += 1;
        }
        proof {
            assert(self.born_view().subrange(0, bn as int) =~= self.born_view());
        }
    }


    /// Overwrite one cell by its flat index.
    fn set_flat(&mut self, i: usize, state: Cell)
        requires
            old(self).wf(),
            i < old(self).cells().len(),
        ensures
            final(self).wf(),
            final(self).board_size == old(self).board_size,
            final(self).cnt == old(self).cnt,
            final(self).cells() == old(self).cells().update(i as int, state),
    {
        self.data.set(i, state);
    }

    /// Whether the tick's decision for `(x, y)` kills the cell there.
    spec fn is_kill(self, x: int, y: int) -> bool {
        self.spec_action(x, y) is UnderPopulation || self.spec_action(x, y) is OverPopulation
    }

    /// Run one generation: every cell's next state is decided from the
    /// current board, then all deaths and births are applied at once.
    pub fn tick(&mut self)
        requires
            old(self).wf(),
            old(self).generations() < u64::MAX,
        ensures
            final(self).wf(),
            final(self).width() == old(self).width(),
            final(self).height() == old(self).height(),
            final(self).generations() == old(self).generations() + 1,
            final(self).cells().len() == old(self).cells().len(),
            forall|x: int, y: int|
                0 <= x < old(self).width() && 0 <= y < old(self).height()
                    ==> final(self).cells()[#[trigger] old(self).spec_index(x, y)]
                    == old(self).next_cell(x, y),
    {
        let w = self.board_size.0;
        let h = self.board_size.1;
        let total: usize = self.data.len();
        let mut killed: Vec<usize> = Vec::new();
        let mut born: Vec<usize> = Vec::new();
        let mut cx: usize = 0;
        while cx < w
            invariant
                self.wf(),
                *self == *old(self),
                w == self.width(),
                h == self.height(),
                total == self.cells().len(),
                cx <= w,
                forall|j: int| 0 <= j < killed@.len() ==> (#[trigger] killed@[j]) < total,
                forall|j: int| 0 <= j < born@.len() ==> (#[trigger] born@[j]) < total,
                forall|x: int, y: int|
                    0 <= x < w && 0 <= y < h ==> (killed@.contains((
                    #[trigger] self.spec_index(x, y)) as usize) <==> (x < cx
                        && self.is_kill(x, y))),
                forall|x: int, y: int|
                    0 <= x < w && 0 <= y < h ==> (born@.contains((
                    #[trigger] self.spec_index(x, y)) as usize) <==> (x < cx
                        && self.spec_action(x, y) is ReproductionAlive)),
            decreases w - cx,
        {
            let mut cy: usize = 0;
            while cy < h
                invariant
                    self.wf(),
                    *self == *old(self),
                    w == self.width(),
                    h == self.height(),
                    total == self.cells().len(),
                    cx < w,
                    cy <= h,
                    forall|j: int| 0 <= j < killed@.len() ==> (#[trigger] killed@[j]) < total,
                    forall|j: int| 0 <= j < born@.len() ==> (#[trigger] born@[j]) < total,
                    forall|x: int, y: int|
                        0 <= x < w && 0 <= y < h ==> (killed@.contains((
                        #[trigger] self.spec_index(x, y)) as usize) <==> ((x < cx || (x
                            == cx && y < cy)) && self.is_kill(x, y))),
                    forall|x: int, y: int|
                        0 <= x < w && 0 <= y < h ==> (born@.contains((
                        #[trigger] self.spec_index(x, y)) as usize) <==> ((x < cx || (x
                            == cx && y < cy))
                            && self.spec_action(x, y) is ReproductionAlive)),
                decreases h - cy,
            {
                let act = self.count_neighbors(cx, cy);
                match act {
                    CellAction::UnderPopulation => {
                        let i = self.get_index(cx, cy);
                        killed.push(i);
                    },
                    CellAction::OverPopulation => {
                        let i = self.get_index(cx, cy);
                        killed.push(i);
                    },
                    CellAction::ReproductionAlive => {
                        let i = self.get_index(cx, cy);
                        born.push(i);
                    },
                    CellAction::ReproductionDead => {},
                    CellAction::Pass => {},
                }
                proof {
                    broadcast use vstd::seq_lib::lemma_seq_contains_after_push;

                    let me = self.spec_index(cx as int, cy as int);
                    self.lemma_index_bounds(cx as int, cy as int);
                    assert forall|x: int, y: int| 0 <= x < w && 0 <= y < h implies (
                        killed@.contains((#[trigger] self.spec_index(x, y)) as usize) <==> ((x
                        < cx || (x == cx && y < cy + 1)) && self.is_kill(x, y))
                    ) && (born@.contains(self.spec_index(x, y) as usize) <==> ((x < cx || (x
                        == cx && y < cy + 1))
                        && self.spec_action(x, y) is ReproductionAlive)) by {
                        self.lemma_index_bounds(x, y);
                        if self.spec_index(x, y) == me {
                            self.lemma_index_injective(x, y, cx as int, cy as int);
                        }
                    }
                }
                cy += 1;
            }
            cx += 1;
        }
        self.last_gen_killed = killed;
        self.last_gen_born = born;
        let ghost scanned = *self;
        self.do_last_gen_buffer();
        self.cnt = self.cnt + 1;
        proof {
            assert forall|x: int, y: int|
                0 <= x < old(self).width() && 0 <= y < old(self).height() implies self.cells()[
                #[trigger] old(self).spec_index(x, y)] == old(self).next_cell(x, y) by {
                old(self).lemma_index_bounds(x, y);
                let i = old(self).spec_index(x, y);
                assert(scanned.killed_view() == killed@ && scanned.born_view() == born@);
                assert(killed@.contains(i as usize) <==> old(self).is_kill(x, y));
                assert(born@.contains(i as usize)
                    <==> old(self).spec_action(x, y) is ReproductionAlive);
                assert(scanned.cells() == old(self).cells());
            }
        }
    }

    /// Whether some living cell lands on flat index `i` when every living
    /// cell moves one step in direction `d`.
    pub open spec fn shift_source(self, d: CellActionDirection, i: int) -> bool {
        exists|x: int, y: int|
            #![trigger self.alive(x, y)]
            0 <= x < self.width() && 0 <= y < self.height() && self.alive(x, y)
                && self.spec_index(self.rel_coords(x, y, d).0, self.rel_coords(x, y, d).1)
                == i
    }

    /// Whether some living cell among those already scanned lands on `i`.
    spec fn shift_source_upto(self, d: CellActionDirection, i: int, cx: int, cy: int) -> bool {
        exists|x: int, y: int|
            #![trigger self.alive(x, y)]
            0 <= x < self.width() && 0 <= y < self.height() && (x < cx || (x == cx && y
                < cy)) && self.alive(x, y)
                && self.spec_index(self.rel_coords(x, y, d).0, self.rel_coords(x, y, d).1)
                == i
    }

    /// The coordinates whose flat index is `i`.
    proof fn lemma_coords_of_index(self, i: int)
        requires
            self.wf(),
            0 <= i < self.cells().len(),
        ensures
            0 <= i % self.width() < self.width(),
            0 <= i / self.width() < self.height(),
            self.spec_index(i % self.width(), i / self.width()) == i,
    {
        let w = self.width();
        let h = self.height();
        vstd::arithmetic::div_mod::lemma_fundamental_div_mod(i, w);
        vstd::arithmetic::div_mod::lemma_mod_bound(i, w);
        assert(i < w * h) by (nonlinear_arith)
            requires i < self.cells().len(), self.cells().len() == w * h;
        vstd::arithmetic::div_mod::lemma_multiply_divide_lt(i, w, h);
        assert(i / w >= 0) by (nonlinear_arith)
            requires i >= 0, w >= 1;
        assert((i % w) + (i / w) * w == i) by (nonlinear_arith)
            requires i == w * (i / w) + i % w;
    }

    /// Move every living cell one step in the given direction, wrapping
    /// at the board's edges: afterwards a cell lives exactly where some
    /// living cell landed.
    pub fn shift(&mut self, direction: CellActionDirection)
        requires
            old(self).wf(),
        ensures
            final(self).wf(),
            final(self).width() == old(self).width(),
            final(self).height() == old(self).height(),
            final(self).generations() == old(self).generations(),
            final(self).cells().len() == old(self).cells().len(),
            forall|i: int|
                0 <= i < old(self).cells().len() ==> final(self).cells()[i] == (if old(
                self).shift_source(direction, i) {
                    Cell::Alive
                } else {
                    Cell::Dead
                }),
    {
        let w = self.board_size.0;
        let h = self.board_size.1;
        let total: usize = self.data.len();
        let mut killed: Vec<usize> = Vec::new();
        let mut born: Vec<usize> = Vec::new();
        let mut cx: usize = 0;
        while cx < w
            invariant
                self.wf(),
                *self == *old(self),
                w == self.width(),
                h == self.height(),
                total == self.cells().len(),
                cx <= w,
                forall|j: int| 0 <= j < killed@.len() ==> (#[trigger] killed@[j]) < total,
                forall|j: int| 0 <= j < born@.len() ==> (#[trigger] born@[j]) < total,
                forall|x: int, y: int|
                    0 <= x < w && 0 <= y < h ==> (killed@.contains((
                    #[trigger] self.spec_index(x, y)) as usize) <==> (x < cx
                        && self.alive(x, y))),
                forall|u: usize|
                    #![trigger born@.contains(u)]
                    u < total ==> (born@.contains(u) <==> self.shift_source_upto(direction,
                    u as int, cx as int, 0)),
            decreases w - cx,
        {
            let mut cy: usize = 0;
            while cy < h
                invariant
                    self.wf(),
                    *self == *old(self),
                    w == self.width(),
                    h == self.height(),
                    total == self.cells().len(),
                    cx < w,
                    cy <= h,
                    forall|j: int| 0 <= j < killed@.len() ==> (#[trigger] killed@[j]) < total,
                    forall|j: int| 0 <= j < born@.len() ==> (#[trigger] born@[j]) < total,
                    forall|x: int, y: int|
                        0 <= x < w && 0 <= y < h ==> (killed@.contains((
                        #[trigger] self.spec_index(x, y)) as usize) <==> ((x < cx || (x
                            == cx && y < cy)) && self.alive(x, y))),
                    forall|u: usize|
                        #![trigger born@.contains(u)]
                        u < total ==> (born@.contains(u) <==> self.shift_source_upto(
                        direction, u as int, cx as int, cy as int)),
                decreases h - cy,
            {
                let ghost pre_b = born@;
                let cell = self.get_value(cx, cy);
                if cell.is_alive() {
                    let target = self.get_index_relative(cx, cy, direction);
                    born.push(target);
                    let own = self.get_index(cx, cy);
                    killed.push(own);
                }
                proof {
                    broadcast use vstd::seq_lib::lemma_seq_contains_after_push;

                    let me = self.spec_index(cx as int, cy as int);
                    self.lemma_index_bounds(cx as int, cy as int);
                    let rc = self.rel_coords(cx as int, cy as int, direction);
                    let tgt = self.spec_index(rc.0, rc.1);
                    assert forall|x: int, y: int| 0 <= x < w && 0 <= y < h implies (
                        killed@.contains((#[trigger] self.spec_index(x, y)) as usize) <==> ((x
                        < cx || (x == cx && y < cy + 1)) && self.alive(x, y))) by {
                        self.lemma_index_bounds(x, y);
                        if self.spec_index(x, y) == me {
                            self.lemma_index_injective(x, y, cx as int, cy as int);
                        }
                    }
                    assert forall|u: usize| u < total implies (#[trigger] born@.contains(u)
                        <==> self.shift_source_upto(direction, u as int, cx as int, cy
                        + 1)) by {
                        if self.alive(cx as int, cy as int) && u == tgt as usize {
                            assert(self.shift_source_upto(direction, u as int, cx as int, cy
                                + 1));
                        }
                        if self.shift_source_upto(direction, u as int, cx as int, cy + 1) {
                            let (x, y) = choose|x: int, y: int|
                                #![trigger self.alive(x, y)]
                                0 <= x < self.width() && 0 <= y < self.height() && (x
                                    < cx || (x == cx && y < cy + 1)) && self.alive(x, y)
                                    && self.spec_index(self.rel_coords(x, y, direction).0,
                                self.rel_coords(x, y, direction).1) == u as int;
                            if x == cx as int && y == cy as int {
                                assert(self.alive(cx as int, cy as int) && u == tgt as usize);
                                assert(born@.contains(u));
                            } else {
                                assert(self.shift_source_upto(direction, u as int, cx as int,
                                    cy as int));
                            }
                        }
                        if pre_b.contains(u) {
                            assert(self.shift_source_upto(direction, u as int, cx as int,
                                cy as int));
                            let (x, y) = choose|x: int, y: int|
                                #![trigger self.alive(x, y)]
                                0 <= x < self.width() && 0 <= y < self.height() && (x
                                    < cx || (x == cx && y < cy as int)) && self.alive(x, y)
                                    && self.spec_index(self.rel_coords(x, y, direction).0,
                                self.rel_coords(x, y, direction).1) == u as int;
                            assert(self.shift_source_upto(direction, u as int, cx as int, cy
                                + 1));
                        }
                    }
                }
                cy += 1;
            }
            cx += 1;
        }
        self.last_gen_killed = killed;
        self.last_gen_born = born;
        let ghost scanned = *self;
        self.do_last_gen_buffer();
        proof {
            assert forall|i: int| 0 <= i < old(self).cells().len() implies self.cells()[i]
                == (if old(self).shift_source(direction, i) {
                Cell::Alive
            } else {
                Cell::Dead
            }) by {
                assert(scanned.killed_view() == killed@ && scanned.born_view() == born@);
                let xi = i % old(self).width();
                let yi = i / old(self).width();
                old(self).lemma_coords_of_index(i);
                assert(killed@.contains(old(self).spec_index(xi, yi) as usize) <==> old(
                self).alive(xi, yi));
                assert(born@.contains(i as usize) <==> old(self).shift_source_upto(direction,
                    i, w as int, 0));
                if old(self).shift_source(direction, i) {
                    let (x, y) = choose|x: int, y: int|
                        #![trigger old(self).alive(x, y)]
                        0 <= x < old(self).width() && 0 <= y < old(self).height() && old(
                        self).alive(x, y) && old(self).spec_index(old(self).rel_coords(x, y,
                        direction).0, old(self).rel_coords(x, y, direction).1) == i;
                    assert(old(self).shift_source_upto(direction, i, w as int, 0));
                }
                if old(self).shift_source_upto(direction, i, w as int, 0) {
                    let (x, y) = choose|x: int, y: int|
                        #![trigger old(self).alive(x, y)]
                        0 <= x < old(self).width() && 0 <= y < old(self).height() && (x
                            < w || (x == w && y < 0)) && old(self).alive(x, y) && old(
                        self).spec_index(old(self).rel_coords(x, y, direction).0, old(
                        self).rel_coords(x, y, direction).1) == i;
                    assert(old(self).shift_source(direction, i));
                }
            }
        }
    }
}


/// The last board size an attribute list names.
pub open spec fn spec_last_size(attrs: Seq<Attribute>) -> Option<(usize, usize)>
    decreases attrs.len(),
{
    if attrs.len() == 0 {
        None
    } else {
        match attrs.last() {
            Attribute::BoardSize(x, y) => Some((x, y)),
            Attribute::BoardSetup(_) => spec_last_size(attrs.drop_last()),
        }
    }
}

/// The last seed pattern an attribute list names, `Bar` when none.
pub open spec fn spec_last_setup(attrs: Seq<Attribute>) -> SetupKind
    decreases attrs.len(),
{
    if attrs.len() == 0 {
        SetupKind::Bar
    } else {
        match attrs.last() {
            Attribute::BoardSetup(kind) => kind,
            Attribute::BoardSize(_, _) => spec_last_setup(attrs.drop_last()),
        }
    }
}

/// Whether some attribute names a zero board dimension.
pub open spec fn spec_has_zero_size(attrs: Seq<Attribute>) -> bool {
    exists|j: int|
        0 <= j < attrs.len() && ((#[trigger] attrs[j]) matches Attribute::BoardSize(x, y)
            && (x == 0 || y == 0))
}

/// Whether `(x, y)` is one of the cells a seed pattern lights.
pub open spec fn spec_seed(kind: SetupKind, x: int, y: int) -> bool {
    match kind {
        SetupKind::Bar => x == 3 && 1 <= y <= 3,
        SetupKind::Block => 2 <= x <= 3 && 1 <= y <= 2,
        SetupKind::Glider => (x == 2 && y == 1) || (x == 3 && y == 2) || (x == 1 && y == 3)
            || (x == 2 && y == 3) || (x == 3 && y == 3),
        SetupKind::Random => false,
    }
}

/// Whether a board of the given size has room for a seed pattern.
pub open spec fn spec_fits(kind: SetupKind, w: int, h: int) -> bool {
    match kind {
        SetupKind::Random => true,
        SetupKind::Bar => w >= 4 && h >= 4,
        SetupKind::Block => w >= 4 && h >= 3,
        SetupKind::Glider => w >= 4 && h >= 4,
    }
}

/// Collects configuration attributes and builds the board they describe.
pub struct Builder {
    data: Vec<Attribute>,
}

impl Builder {
    /// The attributes collected so far.
    pub closed spec fn attrs(self) -> Seq<Attribute> {
        self.data@
    }

    /// An empty attribute list.
    pub fn create() -> (r: Self)
        ensures
            r.attrs() == Seq::<Attribute>::empty(),
    {
        Self { data: Vec::new() }
    }

    /// Append one attribute.
    pub fn add(self, attrib: Attribute) -> (r: Self)
        ensures
            r.attrs() == self.attrs().push(attrib),
    {
        let mut data = self.data;
        data.push(attrib);
        Self { data }
    }

    /// Build the board the attributes describe.
    ///
    /// Returns `None` when no size was given, when a given dimension is
    /// zero, when the board would not fit in host memory, or when the
    /// chosen seed pattern does not fit on the board.  Otherwise the
    /// board starts at generation zero with exactly the pattern's cells
    /// alive; a `Random` board has every cell drawn at random.
    pub fn build(self) -> (r: Option<Context>)
        ensures
            ({
                let sz = spec_last_size(self.attrs());
                let kind = spec_last_setup(self.attrs());
                if spec_has_zero_size(self.attrs()) || sz is None {
                    r is None
                } else if sz.unwrap().0 * sz.unwrap().1 > usize::MAX || !spec_fits(kind,
                sz.unwrap().0 as int, sz.unwrap().1 as int) {
                    r is None
                } else {
                    r matches Some(c) && c.wf() && c.width() == sz.unwrap().0 && c.height()
                        == sz.unwrap().1 && c.generations() == 0 && (kind
                        != SetupKind::Random ==> forall|x: int, y: int|
                        0 <= x < c.width() && 0 <= y < c.height() ==> (#[trigger] c.alive(x,
                        y) <==> spec_seed(kind, x, y)))
                }
            }),
    {
        let n = self.data.len();
        let mut board_w: usize = 0;
        let mut board_h: usize = 0;
        let mut size_seen = false;
        let mut board_setup: Option<SetupKind> = None;
        let mut k: usize = 0;
        while k < n
            invariant
                n == self.attrs().len(),
                k <= n,
                forall|j: int|
                    0 <= j < k ==> ((#[trigger] self.attrs()[j])
                        matches Attribute::BoardSize(x, y) ==> (x != 0 && y != 0)),
                size_seen <==> spec_last_size(self.attrs().subrange(0, k as int)) is Some,
                size_seen ==> spec_last_size(self.attrs().subrange(0, k as int)) == Some((
                board_w, board_h)),
                size_seen ==> board_w >= 1 && board_h >= 1,
                spec_last_setup(self.attrs().subrange(0, k as int)) == (match board_setup {
                    Some(s) => s,
                    None => SetupKind::Bar,
                }),
            decreases n - k,
        {
            let ghost prefix = self.attrs().subrange(0, k as int);
            proof {
                assert(self.attrs().subrange(0, k + 1) =~= prefix.push(self.attrs()[
                k as int]));
                assert(prefix.push(self.attrs()[k as int]).drop_last() =~= prefix);
            }
            match self.data[k] {
                Attribute::BoardSize(x_coord, y_coord) => {
                    if x_coord == 0 || y_coord == 0 {
                        return None;
                    }
                    board_w = x_coord;
                    board_h = y_coord;
                    size_seen = true;
                },
                Attribute::BoardSetup(kind) => {
                    board_setup = Some(kind);
                },
            }
            k += 1;
        }
        proof {
            assert(self.attrs().subrange(0, n as int) =~= self.attrs());
        }
        if !size_seen {
            return None;
        }
        let area = match board_w.checked_mul(board_h) {
            Some(a) => a,
            None => {
                return None;
            },
        };
        let kind = match board_setup {
            Some(s) => s,
            None => SetupKind::Bar,
        };
        let fits = match kind {
            SetupKind::Random => true,
            SetupKind::Bar => board_w >= 4 && board_h >= 4,
            SetupKind::Block => board_w >= 4 && board_h >= 3,
            SetupKind::Glider => board_w >= 4 && board_h >= 4,
        };
        if !fits {
            return None;
        }
        let mut cells: Vec<Cell> = Vec::new();
        let mut c: usize = 0;
        while c < area
            invariant
                c <= area,
                cells@.len() == c,
                forall|j: int| 0 <= j < c ==> (#[trigger] cells@[j]) == Cell::Dead,
            decreases area - c,
        {
            cells.push(Cell::Dead);
            c += 1;
        }
        let mut ret = Context {
            board_size: (board_w, board_h),
            data: cells,
            cnt: 0,
            last_gen_born: Vec::new(),
            last_gen_killed: Vec::new(),
        };
        let ghost base = ret;
        match kind {
            SetupKind::Bar => {
                ret.set_cell(3, 1, Cell::Alive);
                ret.set_cell(3, 2, Cell::Alive);
                ret.set_cell(3, 3, Cell::Alive);
            },
            SetupKind::Block => {
                ret.set_cell(2, 1, Cell::Alive);
                ret.set_cell(2, 2, Cell::Alive);
                ret.set_cell(3, 1, Cell::Alive);
                ret.set_cell(3, 2, Cell::Alive);
            },
            SetupKind::Random => {
                let mut i: usize = 0;
                while i < area
                    invariant
                        i <= area,
                        area == ret.cells().len(),
                        ret.board_size == (board_w, board_h),
                        ret.cnt == 0,
                        ret.wf(),
                    decreases area - i,
                {
                    let is_alive = rand::random::<bool>();
                    if is_alive {
                        ret.set_flat(i, Cell::Alive);
                    }
                    i += 1;
                }
            },
            SetupKind::Glider => {
                ret.set_cell(2, 1, Cell::Alive);
                ret.set_cell(3, 2, Cell::Alive);
                ret.set_cell(1, 3, Cell::Alive);
                ret.set_cell(2, 3, Cell::Alive);
                ret.set_cell(3, 3, Cell::Alive);
            },
        }
        proof {
            if kind != SetupKind::Random {
                assert forall|x: int, y: int| 0 <= x < ret.width() && 0 <= y < ret.height()
                    implies (#[trigger] ret.alive(x, y) <==> spec_seed(kind, x, y)) by {
                    ret.lemma_index_bounds(x, y);
                    base.lemma_index_bounds(x, y);
                    let idx = base.spec_index(x, y);
                    assert(base.cells()[idx] == Cell::Dead);
                    if kind == SetupKind::Bar {
                        base.lemma_index_bounds(3, 1);
                        base.lemma_index_bounds(3, 2);
                        base.lemma_index_bounds(3, 3);
                        if base.spec_index(x, y) == base.spec_index(3, 1) {
                            base.lemma_index_injective(x, y, 3, 1);
                        }
                        if base.spec_index(x, y) == base.spec_index(3, 2) {
                            base.lemma_index_injective(x, y, 3, 2);
                        }
                        if base.spec_index(x, y) == base.spec_index(3, 3) {
                            base.lemma_index_injective(x, y, 3, 3);
                        }
                    }
                    if kind == SetupKind::Block {
                        base.lemma_index_bounds(2, 1);
                        base.lemma_index_bounds(2, 2);
                        base.lemma_index_bounds(3, 1);
                        base.lemma_index_bounds(3, 2);
                        if base.spec_index(x, y) == base.spec_index(2, 1) {
                            base.lemma_index_injective(x, y, 2, 1);
                        }
                        if base.spec_index(x, y) == base.spec_index(2, 2) {
                            base.lemma_index_injective(x, y, 2, 2);
                        }
                        if base.spec_index(x, y) == base.spec_index(3, 1) {
                            base.lemma_index_injective(x, y, 3, 1);
                        }
                        if base.spec_index(x, y) == base.spec_index(3, 2) {
                            base.lemma_index_injective(x, y, 3, 2);
                        }
                    }
                    if kind == SetupKind::Glider {
                        base.lemma_index_bounds(2, 1);
                        base.lemma_index_bounds(3, 2);
                        base.lemma_index_bounds(1, 3);
                        base.lemma_index_bounds(2, 3);
                        base.lemma_index_bounds(3, 3);
                        if base.spec_index(x, y) == base.spec_index(2, 1) {
                            base.lemma_index_injective(x, y, 2, 1);
                        }
                        if base.spec_index(x, y) == base.spec_index(3, 2) {
                            base.lemma_index_injective(x, y, 3, 2);
                        }
                        if base.spec_index(x, y) == base.spec_index(1, 3) {
                            base.lemma_index_injective(x, y, 1, 3);
                        }
                        if base.spec_index(x, y) == base.spec_index(2, 3) {
                            base.lemma_index_injective(x, y, 2, 3);
                        }
                        if base.spec_index(x, y) == base.spec_index(3, 3) {
                            base.lemma_index_injective(x, y, 3, 3);
                        }
                    }
                }
            }
        }
        Some(ret)
    }
}

} // verus!
