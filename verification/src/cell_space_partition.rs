//! A uniform grid over the world that buckets entities by position and
//! answers radius queries without scanning the whole population.
//!
//! Cells hold the indices that entities have in the population; the
//! population itself stays with its owner.
use vstd::prelude::*;
use crate::fixed::{COORD_MAX, div_floor};
use crate::vec2::Vec2;
use crate::inverted_aab_box_2d::InvertedAABBox2D;
use crate::entity_traits::{EntityBase, positions_of};

verus! {

/// One cell of the grid: the entities in it, in no particular order, and the
/// part of the world that it covers.
#[derive(Debug)]
pub struct Partition {
    pub members: Vec<usize>,
    pub bounding_box: InvertedAABBox2D,
}

impl Partition {
    /// An empty cell that covers the given box.
    pub fn new(top_left: Vec2, bottom_right: Vec2) -> (p: Partition)
        ensures
            p.members@ == Seq::<usize>::empty(),
            p.bounding_box.m_vTopLeft == top_left,
            p.bounding_box.m_vBottomRight == bottom_right,
    {
        Partition { members: Vec::new(), bounding_box: InvertedAABBox2D::new(top_left, bottom_right) }
    }
}

/// The grid. Cell `c` lies in column `c % m_iNumCellsX` and row `c / m_iNumCellsX`.
#[derive(Debug)]
pub struct CellSpacePartition {
    /// The cells, row by row.
    pub m_Cells: Vec<Partition>,
    /// The result of the latest neighbour query; each query replaces it.
    pub m_Neighbors: Vec<usize>,
    /// Width and height of the space that the entities inhabit.
    pub m_dSpaceWidth: i64,
    pub m_dSpaceHeight: i64,
    /// Number of cells along each axis.
    pub m_iNumCellsX: i32,
    pub m_iNumCellsY: i32,
    pub m_dCellSizeX: i64,
    pub m_dCellSizeY: i64,
}

/// The cell of position `p` in a grid of `nx` by `ny` cells over a space of
/// `width` by `height`: column plus row times `nx`, each rounded down, clamped
/// into the grid.
pub open spec fn grid_index(nx: int, ny: int, width: int, height: int, p: Vec2) -> int {
    let raw = (nx * p.x) / width + ((ny * p.y) / height) * nx;
    if raw < 0 {
        0
    } else if raw > nx * ny - 1 {
        nx * ny - 1
    } else {
        raw
    }
}

/// Lower edge of slice `k` when `span` is cut into `n` slices.
pub open spec fn slice_low(k: int, n: int, span: int) -> int {
    (k * span) / n
}

/// Upper edge of slice `k` when `span` is cut into `n` slices, rounded up.
pub open spec fn slice_high(k: int, n: int, span: int) -> int {
    ((k + 1) * span + n - 1) / n
}

/// `p` is within `radius` of `target`: strictly closer than a positive radius.
pub open spec fn in_range(p: Vec2, target: Vec2, radius: int) -> bool {
    radius > 0 && p.dist_sq(target) < radius * radius
}

/// `k` is the first index at which `e` occurs in `s`.
pub open spec fn is_first_occurrence(s: Seq<usize>, e: usize, k: int) -> bool {
    &&& 0 <= k < s.len()
    &&& s[k] == e
    &&& forall|j: int| 0 <= j < k ==> s[j] != e
}

/// `s` without the first occurrence of `e`; `s` itself if `e` does not occur.
pub open spec fn without_first(s: Seq<usize>, e: usize) -> Seq<usize> {
    if s.contains(e) {
        s.remove(choose|k: int| is_first_occurrence(s, e, k))
    } else {
        s
    }
}

/// Entity `i` of a population with the given positions is within `radius` of `target`.
pub open spec fn qualifies(positions: Seq<Vec2>, target: Vec2, radius: int, i: int) -> bool {
    0 <= i < positions.len() && in_range(positions[i], target, radius)
}

impl CellSpacePartition {
    /// The entities of cell `c`.
    pub open spec fn members_of(&self, c: int) -> Seq<usize> {
        self.m_Cells[c].members@
    }

    /// The cell that position `p` falls in.
    pub open spec fn index_of(&self, p: Vec2) -> int {
        grid_index(
            self.m_iNumCellsX as int,
            self.m_iNumCellsY as int,
            self.m_dSpaceWidth as int,
            self.m_dSpaceHeight as int,
            p,
        )
    }

    /// `p` lies in the space that the grid covers.
    pub open spec fn inside(&self, p: Vec2) -> bool {
        0 <= p.x < self.m_dSpaceWidth && 0 <= p.y < self.m_dSpaceHeight
    }

    /// The grid is laid out as its dimensions say, and each cell's box is the
    /// part of the space whose positions fall in that cell.
    pub open spec fn wf(&self) -> bool {
        &&& 1 <= self.m_iNumCellsX
        &&& 1 <= self.m_iNumCellsY
        &&& self.m_iNumCellsX * self.m_iNumCellsY <= i32::MAX
        &&& self.m_Cells.len() == self.m_iNumCellsX * self.m_iNumCellsY
        &&& 1 <= self.m_dSpaceWidth <= COORD_MAX
        &&& 1 <= self.m_dSpaceHeight <= COORD_MAX
        &&& forall|c: int| 0 <= c < self.m_Cells.len() ==> #[trigger] self.box_in_place(c)
    }

    /// The box of cell `c` is the part of the space whose positions fall in
    /// that cell, with its right and lower edges rounded up.
    pub open spec fn box_in_place(&self, c: int) -> bool {
        let b = self.m_Cells[c].bounding_box;
        &&& b.m_vTopLeft.x == slice_low(
            c % (self.m_iNumCellsX as int),
            self.m_iNumCellsX as int,
            self.m_dSpaceWidth as int,
        )
        &&& b.m_vBottomRight.x == slice_high(
            c % (self.m_iNumCellsX as int),
            self.m_iNumCellsX as int,
            self.m_dSpaceWidth as int,
        )
        &&& b.m_vTopLeft.y == slice_low(
            c / (self.m_iNumCellsX as int),
            self.m_iNumCellsY as int,
            self.m_dSpaceHeight as int,
        )
        &&& b.m_vBottomRight.y == slice_high(
            c / (self.m_iNumCellsX as int),
            self.m_iNumCellsY as int,
            self.m_dSpaceHeight as int,
        )
    }

    /// The two grids have the same dimensions and boxes; only the cells'
    /// members and the neighbour list may differ.
    pub open spec fn same_grid(&self, other: &CellSpacePartition) -> bool {
        &&& self.m_iNumCellsX == other.m_iNumCellsX
        &&& self.m_iNumCellsY == other.m_iNumCellsY
        &&& self.m_dSpaceWidth == other.m_dSpaceWidth
        &&& self.m_dSpaceHeight == other.m_dSpaceHeight
        &&& self.m_dCellSizeX == other.m_dCellSizeX
        &&& self.m_dCellSizeY == other.m_dCellSizeY
        &&& self.m_Cells.len() == other.m_Cells.len()
        &&& forall|c: int|
            0 <= c < self.m_Cells.len() ==> (#[trigger] self.m_Cells[c]).bounding_box
                == other.m_Cells[c].bounding_box
    }

    /// The membership invariant for the first `count` entities of a
    /// population with the given positions: each of them is in exactly one
    /// cell, once, and that cell is the one its position falls in; the cells
    /// hold nothing else.
    pub open spec fn tracks(&self, positions: Seq<Vec2>, count: int) -> bool {
        &&& 0 <= count <= positions.len()
        &&& forall|c: int, j: int|
            0 <= c < self.m_Cells.len() && 0 <= j < self.members_of(c).len() ==> (
            #[trigger] self.members_of(c)[j]) < count && self.index_of(
                positions[self.members_of(c)[j] as int],
            ) == c
        &&& forall|i: usize|
            i < count ==> self.members_of(#[trigger] self.index_of(positions[i as int])).contains(i)
        &&& forall|c: int|
            0 <= c < self.m_Cells.len() ==> (#[trigger] self.members_of(c)).no_duplicates()
    }

    /// This grid is `before` with `entity` appended to the cell of `position`.
    pub open spec fn has_added(&self, before: &CellSpacePartition, entity: usize, position: Vec2) -> bool {
        &&& self.same_grid(before)
        &&& self.m_Neighbors == before.m_Neighbors
        &&& self.members_of(before.index_of(position)) == before.members_of(
            before.index_of(position),
        ).push(entity)
        &&& forall|c: int|
            0 <= c < before.m_Cells.len() && c != before.index_of(position)
                ==> #[trigger] self.members_of(c) == before.members_of(c)
    }

    /// This grid is `before` after `entity` went from `old_position` to
    /// `position`: unchanged if both fall in one cell; otherwise `entity` has
    /// left the cell of `old_position`, if it was there, and has been
    /// appended to the cell of `position`.
    pub open spec fn has_moved(
        &self,
        before: &CellSpacePartition,
        entity: usize,
        position: Vec2,
        old_position: Vec2,
    ) -> bool {
        &&& self.same_grid(before)
        &&& self.m_Neighbors == before.m_Neighbors
        &&& before.index_of(old_position) == before.index_of(position) ==> self.m_Cells@
            == before.m_Cells@
        &&& before.index_of(old_position) != before.index_of(position) ==> {
            &&& self.members_of(before.index_of(old_position)) == without_first(
                before.members_of(before.index_of(old_position)),
                entity,
            )
            &&& self.members_of(before.index_of(position)) == before.members_of(
                before.index_of(position),
            ).push(entity)
            &&& forall|c: int|
                0 <= c < before.m_Cells.len() && c != before.index_of(old_position) && c
                    != before.index_of(position) ==> #[trigger] self.members_of(c)
                    == before.members_of(c)
        }
    }

    /// No cell has a member.
    pub open spec fn is_empty(&self) -> bool {
        forall|c: int| 0 <= c < self.m_Cells.len() ==> (#[trigger] self.members_of(c)).len() == 0
    }

    /// A grid of `num_cells_x` by `num_cells_y` empty cells over a space of
    /// `width` by `height`.
    pub fn new(width: i64, height: i64, num_cells_x: i32, num_cells_y: i32, max_entities: i32) -> (s:
        Self)
        requires
            1 <= width <= COORD_MAX,
            1 <= height <= COORD_MAX,
            1 <= num_cells_x,
            1 <= num_cells_y,
            num_cells_x * num_cells_y <= i32::MAX,
        ensures
            s.wf(),
            s.is_empty(),
            s.m_Neighbors@.len() == 0,
            s.m_dSpaceWidth == width,
            s.m_dSpaceHeight == height,
            s.m_iNumCellsX == num_cells_x,
            s.m_iNumCellsY == num_cells_y,
            s.m_dCellSizeX == width / (num_cells_x as i64),
            s.m_dCellSizeY == height / (num_cells_y as i64),
    {
        let capacity: usize = if max_entities > 0 {
            max_entities as usize
        } else {
            0
        };
        let mut cell_space = CellSpacePartition {
            m_Cells: Vec::new(),
            m_Neighbors: Vec::with_capacity(capacity),
            m_dSpaceWidth: width,
            m_dSpaceHeight: height,
            m_iNumCellsX: num_cells_x,
            m_iNumCellsY: num_cells_y,
            m_dCellSizeX: width / (num_cells_x as i64),
            m_dCellSizeY: height / (num_cells_y as i64),
        };
        let ghost nx = num_cells_x as int;
        let ghost ny = num_cells_y as int;
        let mut y: i32 = 0;
        while y < num_cells_y
            invariant
                0 <= y <= num_cells_y,
                1 <= num_cells_x,
                nx == num_cells_x,
                ny == num_cells_y,
                nx * ny <= i32::MAX,
                1 <= width <= COORD_MAX,
                1 <= height <= COORD_MAX,
                cell_space.m_Cells.len() == y * nx,
                cell_space.m_Neighbors@.len() == 0,
                cell_space.m_dSpaceWidth == width,
                cell_space.m_dSpaceHeight == height,
                cell_space.m_iNumCellsX == num_cells_x,
                cell_space.m_iNumCellsY == num_cells_y,
                cell_space.m_dCellSizeX == width / (num_cells_x as i64),
                cell_space.m_dCellSizeY == height / (num_cells_y as i64),
                forall|c: int|
                    0 <= c < cell_space.m_Cells.len() ==> {
                        let p = #[trigger] cell_space.m_Cells[c];
                        &&& p.members@.len() == 0
                        &&& p.bounding_box.m_vTopLeft.x == slice_low(c % nx, nx, width as int)
                        &&& p.bounding_box.m_vBottomRight.x == slice_high(c % nx, nx, width as int)
                        &&& p.bounding_box.m_vTopLeft.y == slice_low(c / nx, ny, height as int)
                        &&& p.bounding_box.m_vBottomRight.y == slice_high(c / nx, ny, height as int)
                    },
            decreases num_cells_y - y,
        {
            let (top, bottom) = slice_edges(y, num_cells_y, height);
            let mut x: i32 = 0;
            while x < num_cells_x
                invariant
                    0 <= y < num_cells_y,
                    0 <= x <= num_cells_x,
                    nx == num_cells_x,
                    ny == num_cells_y,
                    nx * ny <= i32::MAX,
                    1 <= width <= COORD_MAX,
                    1 <= height <= COORD_MAX,
                    top == slice_low(y as int, ny, height as int),
                    bottom == slice_high(y as int, ny, height as int),
                    cell_space.m_Cells.len() == y * nx + x,
                    cell_space.m_Neighbors@.len() == 0,
                    cell_space.m_dSpaceWidth == width,
                    cell_space.m_dSpaceHeight == height,
                    cell_space.m_iNumCellsX == num_cells_x,
                    cell_space.m_iNumCellsY == num_cells_y,
                    cell_space.m_dCellSizeX == width / (num_cells_x as i64),
                    cell_space.m_dCellSizeY == height / (num_cells_y as i64),
                    forall|c: int|
                        0 <= c < cell_space.m_Cells.len() ==> {
                            let p = #[trigger] cell_space.m_Cells[c];
                            &&& p.members@.len() == 0
                            &&& p.bounding_box.m_vTopLeft.x == slice_low(c % nx, nx, width as int)
                            &&& p.bounding_box.m_vBottomRight.x == slice_high(
                                c % nx,
                                nx,
                                width as int,
                            )
                            &&& p.bounding_box.m_vTopLeft.y == slice_low(c / nx, ny, height as int)
                            &&& p.bounding_box.m_vBottomRight.y == slice_high(
                                c / nx,
                                ny,
                                height as int,
                            )
                        },
                decreases num_cells_x - x,
            {
                let (left, right) = slice_edges(x, num_cells_x, width);
                proof {
                    let c = y * nx + x;
                    lemma_row_column(c, nx, y as int, x as int);
                }
                cell_space.m_Cells.push(
                    Partition::new(Vec2 { x: left, y: top }, Vec2 { x: right, y: bottom }),
                );
                x = x + 1;
            }
            proof {
                assert((y + 1) * nx == y * nx + nx) by (nonlinear_arith);
            }
            y = y + 1;
        }
        proof {
            assert(y * nx == nx * ny) by (nonlinear_arith)
                requires
                    y == ny,
            ;
        }
        cell_space
    }

    /// Whether the grid is well-formed.
    pub fn is_wf(&self) -> (ok: bool)
        ensures
            ok == self.wf(),
    {
        if !(1 <= self.m_iNumCellsX && 1 <= self.m_iNumCellsY) {
            return false;
        }
        if !crate::configuration::grid_fits(self.m_iNumCellsX, self.m_iNumCellsY) {
            return false;
        }
        let nx = self.m_iNumCellsX as usize;
        let ny = self.m_iNumCellsY as usize;
        if self.m_Cells.len() != nx * ny {
            return false;
        }
        if !(1 <= self.m_dSpaceWidth && self.m_dSpaceWidth <= COORD_MAX && 1 <= self.m_dSpaceHeight
            && self.m_dSpaceHeight <= COORD_MAX) {
            return false;
        }
        let count = self.m_Cells.len();
        let mut c: usize = 0;
        while c < count
            invariant
                0 <= c <= count,
                count == self.m_Cells.len(),
                count == nx * ny,
                nx == self.m_iNumCellsX,
                ny == self.m_iNumCellsY,
                1 <= nx,
                1 <= ny,
                nx * ny <= i32::MAX,
                1 <= self.m_dSpaceWidth <= COORD_MAX,
                1 <= self.m_dSpaceHeight <= COORD_MAX,
                forall|k: int| 0 <= k < c ==> self.box_in_place(k),
            decreases count - c,
        {
            let column = c % nx;
            let row = c / nx;
            proof {
                vstd::arithmetic::div_mod::lemma_fundamental_div_mod(c as int, nx as int);
                assert(row < ny) by (nonlinear_arith)
                    requires
                        c < nx * ny,
                        c == nx * row + column,
                        0 <= column < nx,
                        0 <= row,
                ;
            }
            let (left, right) = slice_edges(column as i32, self.m_iNumCellsX, self.m_dSpaceWidth);
            let (top, bottom) = slice_edges(row as i32, self.m_iNumCellsY, self.m_dSpaceHeight);
            let b = &self.m_Cells[c].bounding_box;
            if !(b.m_vTopLeft.x == left && b.m_vBottomRight.x == right && b.m_vTopLeft.y == top
                && b.m_vBottomRight.y == bottom) {
                assert(!self.box_in_place(c as int));
                return false;
            }
            c = c + 1;
        }
        true
    }

    /// Whether the grid holds each of the entities in the cell of its
    /// position, once, and nothing else.
    pub fn is_tracking<E: EntityBase>(&self, entities: &Vec<E>) -> (ok: bool)
        requires
            self.wf(),
        ensures
            ok == self.tracks(positions_of(entities@), entities@.len() as int),
    {
        let ghost positions = positions_of(entities@);
        let n = entities.len();
        let count = self.m_Cells.len();
        // every member is an entity in the cell of its position, and occurs once
        let mut c: usize = 0;
        while c < count
            invariant
                0 <= c <= count,
                count == self.m_Cells.len(),
                n == entities@.len(),
                positions == positions_of(entities@),
                self.wf(),
                forall|k: int, j: int|
                    0 <= k < c && 0 <= j < self.members_of(k).len() ==> (
                    #[trigger] self.members_of(k)[j]) < n && self.index_of(
                        positions[self.members_of(k)[j] as int],
                    ) == k,
                forall|k: int| 0 <= k < c ==> (#[trigger] self.members_of(k)).no_duplicates(),
            decreases count - c,
        {
            let members = &self.m_Cells[c].members;
            let len = members.len();
            let mut j: usize = 0;
            while j < len
                invariant
                    0 <= j <= len,
                    0 <= c < count,
                    count == self.m_Cells.len(),
                    members == &self.m_Cells[c as int].members,
                    len == members@.len(),
                    members@ == self.members_of(c as int),
                    n == entities@.len(),
                    positions == positions_of(entities@),
                    self.wf(),
                    forall|i: int|
                        0 <= i < j ==> (#[trigger] members@[i]) < n && self.index_of(
                            positions[members@[i] as int],
                        ) == c,
                    forall|a: int, b: int| 0 <= a < b < j ==> members@[a] != members@[b],
                decreases len - j,
            {
                let e = members[j];
                if e >= n {
                    return false;
                }
                let position = entities[e].position();
                if self.position_to_index(&position) != c {
                    return false;
                }
                let mut k: usize = 0;
                while k < j
                    invariant
                        0 <= k <= j < len,
                        0 <= c < count,
                        count == self.m_Cells.len(),
                        len == members@.len(),
                        members@ == self.members_of(c as int),
                        e == members@[j as int],
                        forall|a: int| 0 <= a < k ==> members@[a] != e,
                    decreases j - k,
                {
                    if members[k] == e {
                        return false;
                    }
                    k = k + 1;
                }
                j = j + 1;
            }
            c = c + 1;
        }
        // every entity is in the cell of its position
        let mut i: usize = 0;
        while i < n
            invariant
                0 <= i <= n,
                n == entities@.len(),
                positions == positions_of(entities@),
                self.wf(),
                forall|k: usize|
                    k < i ==> self.members_of(#[trigger] self.index_of(positions[k as int])).contains(
                        k,
                    ),
            decreases n - i,
        {
            let position = entities[i].position();
            assert(position == positions[i as int]);
            let cell = self.position_to_index(&position);
            let members = &self.m_Cells[cell].members;
            let len = members.len();
            let mut j: usize = 0;
            while j < len
                invariant
                    0 <= j <= len,
                    len == members@.len(),
                    members@ == self.members_of(cell as int),
                    forall|a: int| 0 <= a < j ==> members@[a] != i,
                ensures
                    j < len ==> members@[j as int] == i,
                decreases len - j,
            {
                if members[j] == i {
                    break ;
                }
                j = j + 1;
            }
            if j >= len {
                return false;
            }
            i = i + 1;
        }
        true
    }

    /// Clears every cell; the grid itself stays.
    pub fn EmptyCells(&mut self)
        requires
            old(self).wf(),
        ensures
            final(self).wf(),
            final(self).same_grid(old(self)),
            final(self).is_empty(),
            final(self).m_Neighbors == old(self).m_Neighbors,
    {
        let n = self.m_Cells.len();
        let mut c: usize = 0;
        while c < n
            invariant
                0 <= c <= n,
                n == self.m_Cells.len(),
                self.same_grid(old(self)),
                self.m_Neighbors == old(self).m_Neighbors,
                forall|k: int| 0 <= k < c ==> (#[trigger] self.members_of(k)).len() == 0,
            decreases n - c,
        {
            let ghost before = *self;
            self.m_Cells[c].members.clear();
            assert(forall|k: int|
                0 <= k < c ==> (#[trigger] self.members_of(k)) == before.members_of(k));
            c = c + 1;
        }
        proof {
            lemma_same_grid_wf(old(self), self);
        }
    }

    /// The index of the cell that `position` falls in.
    pub fn position_to_index(&self, position: &Vec2) -> (idx: usize)
        requires
            self.wf(),
        ensures
            idx == self.index_of(*position),
            idx < self.m_Cells.len(),
    {
        let nx: i128 = self.m_iNumCellsX as i128;
        let ny: i128 = self.m_iNumCellsY as i128;
        proof {
            assert(-0x8000_0000 * 0x8000_0000_0000_0000 <= nx * position.x <= 0x8000_0000
                * 0x8000_0000_0000_0000) by (nonlinear_arith)
                requires
                    1 <= nx <= 0x7FFF_FFFF,
                    -0x8000_0000_0000_0000 <= position.x <= 0x7FFF_FFFF_FFFF_FFFF,
            ;
            assert(-0x8000_0000 * 0x8000_0000_0000_0000 <= ny * position.y <= 0x8000_0000
                * 0x8000_0000_0000_0000) by (nonlinear_arith)
                requires
                    1 <= ny <= 0x7FFF_FFFF,
                    -0x8000_0000_0000_0000 <= position.y <= 0x7FFF_FFFF_FFFF_FFFF,
            ;
        }
        let ax: i128 = nx * (position.x as i128);
        let ay: i128 = ny * (position.y as i128);
        let col: i128 = div_floor(ax, self.m_dSpaceWidth as i128);
        let row: i128 = div_floor(ay, self.m_dSpaceHeight as i128);
        proof {
            lemma_floor_div_magnitude(ax as int, self.m_dSpaceWidth as int);
            lemma_floor_div_magnitude(ay as int, self.m_dSpaceHeight as int);
            assert(-0x8000_0000 * (0x8000_0000 * 0x8000_0000_0000_0000) <= row * nx <= 0x8000_0000
                * (0x8000_0000 * 0x8000_0000_0000_0000)) by (nonlinear_arith)
                requires
                    1 <= nx <= 0x7FFF_FFFF,
                    -(0x8000_0000 * 0x8000_0000_0000_0000) <= row <= 0x8000_0000
                        * 0x8000_0000_0000_0000,
            ;
        }
        let raw: i128 = col + row * nx;
        proof {
            lemma_grid_not_empty(self);
        }
        let last: usize = self.m_Cells.len() - 1;
        if raw < 0 {
            0
        } else if raw > last as i128 {
            last
        } else {
            raw as usize
        }
    }

    /// Puts `entity`, which stands at `position`, into the cell of that position.
    pub fn add_entity(&mut self, entity: usize, position: Vec2)
        requires
            old(self).wf(),
        ensures
            final(self).wf(),
            final(self).has_added(old(self), entity, position),
    {
        let idx = self.position_to_index(&position);
        self.m_Cells[idx].members.push(entity);
        proof {
            lemma_same_grid_wf(old(self), self);
        }
    }

    /// Finds the neighbours of `target_pos`: every entity strictly closer to
    /// it than `query_radius`. The result replaces `m_Neighbors`. Only cells
    /// whose box overlaps the box around the query circle are searched.
    pub fn CalculateNeighbors<E: EntityBase>(
        &mut self,
        entities: &Vec<E>,
        target_pos: Vec2,
        query_radius: i64,
    )
        requires
            old(self).wf(),
            old(self).tracks(positions_of(entities@), entities@.len() as int),
            forall|i: int|
                0 <= i < entities@.len() ==> old(self).inside(#[trigger] positions_of(entities@)[i]),
            target_pos.fits(COORD_MAX as int),
            query_radius <= COORD_MAX,
        ensures
            final(self).m_Cells == old(self).m_Cells,
            final(self).same_grid(old(self)),
            final(self).wf(),
            final(self).m_Neighbors@.no_duplicates(),
            forall|i: usize|
                final(self).m_Neighbors@.contains(i) <==> #[trigger] qualifies(
                    positions_of(entities@),
                    target_pos,
                    query_radius as int,
                    i as int,
                ),
    {
        let mut found: Vec<usize> = Vec::new();
        core::mem::swap(&mut found, &mut self.m_Neighbors);
        found.clear();
        proof {
            lemma_same_grid_wf(old(self), self);
            lemma_same_cells_tracks(
                old(self),
                self,
                positions_of(entities@),
                entities@.len() as int,
            );
        }
        if query_radius > 0 {
            self.collect_neighbors(entities, target_pos, query_radius, &mut found);
        }
        core::mem::swap(&mut found, &mut self.m_Neighbors);
        proof {
            lemma_same_grid_wf(old(self), self);
        }
    }

    /// The search behind `CalculateNeighbors`, for a positive radius.
    fn collect_neighbors<E: EntityBase>(
        &self,
        entities: &Vec<E>,
        target_pos: Vec2,
        query_radius: i64,
        found: &mut Vec<usize>,
    )
        requires
            self.wf(),
            self.tracks(positions_of(entities@), entities@.len() as int),
            forall|i: int|
                0 <= i < entities@.len() ==> self.inside(#[trigger] positions_of(entities@)[i]),
            target_pos.fits(COORD_MAX as int),
            0 < query_radius <= COORD_MAX,
            old(found)@.len() == 0,
        ensures
            final(found)@.no_duplicates(),
            forall|i: usize|
                final(found)@.contains(i) <==> #[trigger] qualifies(
                    positions_of(entities@),
                    target_pos,
                    query_radius as int,
                    i as int,
                ),
    {
        let ghost positions = positions_of(entities@);
        let ghost radius = query_radius as int;
        let query_box = InvertedAABBox2D::new(
            Vec2 { x: target_pos.x - query_radius, y: target_pos.y - query_radius },
            Vec2 { x: target_pos.x + query_radius, y: target_pos.y + query_radius },
        );
        proof {
            crate::vec2::lemma_square_bounds(query_radius as int);
        }
        let radius_squared: u128 = ((query_radius as i128) * (query_radius as i128)) as u128;
        proof {
            lemma_grid_not_empty(self);
        }
        let count = self.m_Cells.len();
        let mut c: usize = 0;
        while c < count
            invariant
                0 <= c <= count,
                count == self.m_Cells.len(),
                self.wf(),
                self.tracks(positions, entities@.len() as int),
                positions == positions_of(entities@),
                forall|i: int| 0 <= i < entities@.len() ==> self.inside(#[trigger] positions[i]),
                target_pos.fits(COORD_MAX as int),
                0 < query_radius <= COORD_MAX,
                radius == query_radius,
                radius_squared == radius * radius,
                query_box.m_vTopLeft.x == target_pos.x - query_radius,
                query_box.m_vTopLeft.y == target_pos.y - query_radius,
                query_box.m_vBottomRight.x == target_pos.x + query_radius,
                query_box.m_vBottomRight.y == target_pos.y + query_radius,
                found@.no_duplicates(),
                forall|i: usize| #[trigger]
                    found@.contains(i) ==> qualifies(positions, target_pos, radius, i as int)
                        && self.index_of(positions[i as int]) < c,
                forall|i: usize| #[trigger]
                    qualifies(positions, target_pos, radius, i as int) && self.index_of(
                        positions[i as int],
                    ) < c ==> found@.contains(i),
            decreases count - c,
        {
            let cur_cell = &self.m_Cells[c];
            let ghost members = self.members_of(c as int);
            if cur_cell.bounding_box.isOverlappedWith(&query_box) && cur_cell.members.len() > 0 {
                let len = cur_cell.members.len();
                let mut k: usize = 0;
                while k < len
                    invariant
                        0 <= k <= len,
                        0 <= c < count,
                        count == self.m_Cells.len(),
                        cur_cell == &self.m_Cells[c as int],
                        len == cur_cell.members.len(),
                        members == self.members_of(c as int),
                        self.wf(),
                        self.tracks(positions, entities@.len() as int),
                        positions == positions_of(entities@),
                        forall|i: int|
                            0 <= i < entities@.len() ==> self.inside(#[trigger] positions[i]),
                        target_pos.fits(COORD_MAX as int),
                        0 < query_radius <= COORD_MAX,
                        radius == query_radius,
                        radius_squared == radius * radius,
                        found@.no_duplicates(),
                        forall|i: usize| #[trigger]
                            found@.contains(i) ==> qualifies(positions, target_pos, radius, i as int)
                                && (self.index_of(positions[i as int]) < c || (self.index_of(
                                positions[i as int],
                            ) == c && members.take(k as int).contains(i))),
                        forall|i: usize| #[trigger]
                            qualifies(positions, target_pos, radius, i as int) && (self.index_of(
                                positions[i as int],
                            ) < c || (self.index_of(positions[i as int]) == c && members.take(
                                k as int,
                            ).contains(i))) ==> found@.contains(i),
                    decreases len - k,
                {
                    let entity = cur_cell.members[k];
                    let position = entities[entity].position();
                    proof {
                        assert(members.take(k as int + 1) =~= members.take(k as int).push(entity));
                        assert forall|i: usize|
                            #![trigger members.take(k as int + 1).contains(i)]
                            #![trigger members.take(k as int).contains(i)]
                            members.take(k as int + 1).contains(i) <==> (members.take(
                                k as int,
                            ).contains(i) || i == entity) by {
                            lemma_push_contains(members.take(k as int), entity, i);
                        }
                        assert(!members.take(k as int).contains(entity));
                    }
                    if position.distance_squared(target_pos) < radius_squared {
                        let ghost before = found@;
                        found.push(entity);
                        proof {
                            assert forall|i: usize|
                                #![trigger found@.contains(i)]
                                #![trigger before.contains(i)]
                                found@.contains(i) <==> (before.contains(i) || i == entity) by {
                                lemma_push_contains(before, entity, i);
                            }
                            lemma_push_no_duplicates(before, entity);
                        }
                    }
                    proof {
                        assert forall|i: usize| #[trigger] found@.contains(i) implies qualifies(
                            positions,
                            target_pos,
                            radius,
                            i as int,
                        ) && (self.index_of(positions[i as int]) < c || (self.index_of(
                            positions[i as int],
                        ) == c && members.take(k as int + 1).contains(i))) by {
                            if i != entity {
                                assert(members.take(k as int).contains(i) ==> members.take(
                                    k as int + 1,
                                ).contains(i));
                            }
                        }
                    }
                    k = k + 1;
                }
                proof {
                    assert(members.take(len as int) =~= members);
                }
            } else {
                proof {
                    assert forall|i: usize| #[trigger]
                        qualifies(positions, target_pos, radius, i as int) && self.index_of(
                            positions[i as int],
                        ) < c + 1 implies found@.contains(i) by {
                        let p = positions[i as int];
                        if self.index_of(p) == c {
                            lemma_cell_box_contains(self, p);
                            lemma_in_range_box(p, target_pos, radius);
                        }
                    }
                }
            }
            c = c + 1;
        }
        proof {
            lemma_grid_not_empty(self);
            assert forall|i: usize|
                found@.contains(i) <==> #[trigger] qualifies(
                    positions,
                    target_pos,
                    radius,
                    i as int,
                ) by {
                if qualifies(positions, target_pos, radius, i as int) {
                    lemma_index_in_grid(self, positions[i as int]);
                }
            }
        }
    }

    /// Moves `entity` to the cell of its new `position` if that differs from
    /// the cell of `old_position`; does nothing otherwise.
    pub fn UpdateEntity(&mut self, entity: usize, position: Vec2, old_position: Vec2)
        requires
            old(self).wf(),
        ensures
            final(self).wf(),
            final(self).has_moved(old(self), entity, position, old_position),
    {
        let old_idx = self.position_to_index(&old_position);
        let new_idx = self.position_to_index(&position);
        if new_idx == old_idx {
            return ;
        }
        let ghost before = self.members_of(old_idx as int);
        let len = self.m_Cells[old_idx].members.len();
        let mut k: usize = 0;
        while k < len
            invariant
                0 <= k <= len,
                len == before.len(),
                old_idx < self.m_Cells.len(),
                *self == *old(self),
                before == self.members_of(old_idx as int),
                forall|j: int| 0 <= j < k ==> before[j] != entity,
            ensures
                k < len ==> before[k as int] == entity,
            decreases len - k,
        {
            if self.m_Cells[old_idx].members[k] == entity {
                break ;
            }
            k = k + 1;
        }
        if k < len {
            proof {
                lemma_first_occurrence_unique(
                    before,
                    entity,
                    k as int,
                    choose|j: int| is_first_occurrence(before, entity, j),
                );
            }
            self.m_Cells[old_idx].members.remove(k);
        }
        self.m_Cells[new_idx].members.push(entity);
        proof {
            lemma_same_grid_wf(old(self), self);
        }
    }
}

/// A grid with the same cells and dimensions keeps the same membership invariant.
pub proof fn lemma_same_cells_tracks(
    before: &CellSpacePartition,
    after: &CellSpacePartition,
    positions: Seq<Vec2>,
    count: int,
)
    requires
        before.tracks(positions, count),
        after.m_Cells == before.m_Cells,
        after.same_grid(before),
    ensures
        after.tracks(positions, count),
{
    assert forall|c: int| #[trigger] after.members_of(c) == before.members_of(c) by {}
    assert forall|p: Vec2| #[trigger] after.index_of(p) == before.index_of(p) by {}
}

/// Adding the next entity of a population at its position keeps the
/// membership invariant: afterwards it holds of one entity more.
pub proof fn lemma_add_entity_tracks(
    before: &CellSpacePartition,
    after: &CellSpacePartition,
    positions: Seq<Vec2>,
    entity: usize,
)
    requires
        before.wf(),
        entity < positions.len(),
        before.tracks(positions, entity as int),
        after.has_added(before, entity, positions[entity as int]),
    ensures
        after.tracks(positions, entity + 1),
{
    let idx = before.index_of(positions[entity as int]);
    lemma_index_in_grid(before, positions[entity as int]);
    assert forall|p: Vec2| #[trigger] after.index_of(p) == before.index_of(p) by {}
    assert(!before.members_of(idx).contains(entity));
    lemma_push_no_duplicates(before.members_of(idx), entity);
    assert forall|i: usize| i < entity + 1 implies after.members_of(
        #[trigger] after.index_of(positions[i as int]),
    ).contains(i) by {
        let c = before.index_of(positions[i as int]);
        lemma_index_in_grid(before, positions[i as int]);
        if i < entity {
            if c == idx {
                lemma_push_contains(before.members_of(idx), entity, i);
            }
        } else {
            lemma_push_contains(before.members_of(idx), entity, i);
        }
    }
}

/// Under the membership invariant an entity occurs in exactly one cell,
/// the cell of its position, and only once there.
pub proof fn lemma_tracked_once(
    grid: &CellSpacePartition,
    positions: Seq<Vec2>,
    count: int,
    entity: usize,
    c1: int,
    j1: int,
    c2: int,
    j2: int,
)
    requires
        grid.wf(),
        grid.tracks(positions, count),
        entity < count,
        0 <= c1 < grid.m_Cells.len(),
        0 <= j1 < grid.members_of(c1).len(),
        grid.members_of(c1)[j1] == entity,
        0 <= c2 < grid.m_Cells.len(),
        0 <= j2 < grid.members_of(c2).len(),
        grid.members_of(c2)[j2] == entity,
    ensures
        grid.members_of(grid.index_of(positions[entity as int])).contains(entity),
        c1 == grid.index_of(positions[entity as int]),
        c1 == c2,
        j1 == j2,
{
}

/// Telling the grid that a tracked entity has moved keeps the membership
/// invariant, now for the population in which that entity stands at its new
/// position.
pub proof fn lemma_update_entity_tracks(
    before: &CellSpacePartition,
    after: &CellSpacePartition,
    positions: Seq<Vec2>,
    count: int,
    entity: usize,
    position: Vec2,
)
    requires
        before.wf(),
        before.tracks(positions, count),
        entity < count,
        after.has_moved(before, entity, position, positions[entity as int]),
    ensures
        after.tracks(positions.update(entity as int, position), count),
{
    let moved = positions.update(entity as int, position);
    let o = before.index_of(positions[entity as int]);
    let n = before.index_of(position);
    lemma_index_in_grid(before, positions[entity as int]);
    lemma_index_in_grid(before, position);
    assert forall|p: Vec2| #[trigger] after.index_of(p) == before.index_of(p) by {}
    if o == n {
        assert forall|c: int| #[trigger] after.members_of(c) == before.members_of(c) by {}
        assert forall|c: int, j: int|
            0 <= c < after.m_Cells.len() && 0 <= j < after.members_of(c).len() implies (
        #[trigger] after.members_of(c)[j]) < count && after.index_of(
            moved[after.members_of(c)[j] as int],
        ) == c by {
            assert(after.members_of(c)[j] == before.members_of(c)[j]);
        }
        assert forall|i: usize| i < count implies after.members_of(
            #[trigger] after.index_of(moved[i as int]),
        ).contains(i) by {
            assert(before.members_of(before.index_of(positions[i as int])).contains(i));
        }
        assert forall|c: int| 0 <= c < after.m_Cells.len() implies (#[trigger] after.members_of(
            c,
        )).no_duplicates() by {
            assert(before.members_of(c).no_duplicates());
        }
    } else {
        let source = before.members_of(o);
        assert(source.contains(entity)) by {
            assert(before.members_of(before.index_of(positions[entity as int])).contains(entity));
        }
        let k = choose|k: int| is_first_occurrence(source, entity, k);
        lemma_first_occurrence_exists(source, entity);
        assert(is_first_occurrence(source, entity, k));
        let rest = source.remove(k);
        assert(after.members_of(o) == rest);
        assert(source.no_duplicates());
        assert forall|j: int| 0 <= j < rest.len() implies #[trigger] rest[j] != entity && (exists|
            m: int,
        | 0 <= m < source.len() && source[m] == rest[j]) by {
            if j < k {
                assert(rest[j] == source[j]);
            } else {
                assert(rest[j] == source[j + 1]);
            }
        }
        assert(rest.no_duplicates()) by {
            assert forall|a: int, b: int| 0 <= a < rest.len() && 0 <= b < rest.len() && a
                != b implies rest[a] != rest[b] by {
                let sa = if a < k {
                    a
                } else {
                    a + 1
                };
                let sb = if b < k {
                    b
                } else {
                    b + 1
                };
                assert(rest[a] == source[sa]);
                assert(rest[b] == source[sb]);
            }
        }
        let target = before.members_of(n);
        assert(!target.contains(entity)) by {
            if target.contains(entity) {
                let j = choose|j: int| 0 <= j < target.len() && target[j] == entity;
                assert(before.index_of(positions[before.members_of(n)[j] as int]) == n);
            }
        }
        lemma_push_no_duplicates(target, entity);
        assert forall|c: int, j: int|
            0 <= c < after.m_Cells.len() && 0 <= j < after.members_of(c).len() implies (
        #[trigger] after.members_of(c)[j]) < count && after.index_of(
            moved[after.members_of(c)[j] as int],
        ) == c by {
            if c == o {
                let m = if j < k {
                    j
                } else {
                    j + 1
                };
                assert(rest[j] == source[m]);
                assert(before.members_of(o)[m] < count);
                assert(rest[j] != entity);
            } else if c == n {
                if j < target.len() {
                    assert(after.members_of(c)[j] == before.members_of(n)[j]);
                    assert(target.contains(target[j]));
                }
            } else {
                assert(after.members_of(c)[j] == before.members_of(c)[j]);
                if before.members_of(c)[j] == entity {
                    assert(before.index_of(positions[before.members_of(c)[j] as int]) == c);
                }
            }
        }
        assert forall|i: usize| i < count implies after.members_of(
            #[trigger] after.index_of(moved[i as int]),
        ).contains(i) by {
            if i == entity {
                lemma_push_contains(target, entity, i);
            } else {
                let c = before.index_of(positions[i as int]);
                lemma_index_in_grid(before, positions[i as int]);
                assert(before.members_of(c).contains(i));
                if c == o {
                    let m = choose|m: int| 0 <= m < source.len() && source[m] == i;
                    if m < k {
                        assert(rest[m] == i);
                    } else {
                        assert(rest[m - 1] == i);
                    }
                } else if c == n {
                    lemma_push_contains(target, entity, i);
                } else {
                    assert(after.members_of(c) == before.members_of(c));
                }
            }
        }
        assert forall|c: int| 0 <= c < after.m_Cells.len() implies (#[trigger] after.members_of(
            c,
        )).no_duplicates() by {
            if c != o && c != n {
                assert(after.members_of(c) == before.members_of(c));
            }
        }
    }
}

/// An element that occurs in a sequence has a first occurrence.
pub proof fn lemma_first_occurrence_exists(s: Seq<usize>, e: usize)
    requires
        s.contains(e),
    ensures
        exists|k: int| is_first_occurrence(s, e, k),
    decreases s.len(),
{
    let j = choose|j: int| 0 <= j < s.len() && s[j] == e;
    if forall|m: int| 0 <= m < j ==> s[m] != e {
        assert(is_first_occurrence(s, e, j));
    } else {
        let m = choose|m: int| 0 <= m < j && s[m] == e;
        let t = s.take(j);
        assert(t[m] == e);
        lemma_first_occurrence_exists(t, e);
        let k = choose|k: int| is_first_occurrence(t, e, k);
        assert(is_first_occurrence(s, e, k)) by {
            assert forall|q: int| 0 <= q < k implies s[q] != e by {
                assert(t[q] == s[q]);
            }
        }
    }
}

/// An element occurs in `s.push(e)` if it occurs in `s` or is `e`.
pub proof fn lemma_push_contains(s: Seq<usize>, e: usize, i: usize)
    ensures
        s.push(e).contains(i) <==> (s.contains(i) || i == e),
{
    if s.contains(i) {
        let j = choose|j: int| 0 <= j < s.len() && s[j] == i;
        assert(s.push(e)[j] == i);
    }
    if i == e {
        assert(s.push(e)[s.len() as int] == e);
    }
}

/// Appending an element that does not occur keeps a sequence free of duplicates.
pub proof fn lemma_push_no_duplicates(s: Seq<usize>, e: usize)
    requires
        s.no_duplicates(),
        !s.contains(e),
    ensures
        s.push(e).no_duplicates(),
{
}

/// An element has at most one first occurrence.
pub proof fn lemma_first_occurrence_unique(s: Seq<usize>, e: usize, k1: int, k2: int)
    requires
        is_first_occurrence(s, e, k1),
        s.contains(e),
    ensures
        is_first_occurrence(s, e, k2) ==> k1 == k2,
        (choose|j: int| is_first_occurrence(s, e, j)) == k1,
{
}

/// A point strictly closer to `target` than `radius` lies in the box of
/// half-width `radius` around `target`.
pub proof fn lemma_in_range_box(p: Vec2, target: Vec2, radius: int)
    requires
        in_range(p, target, radius),
    ensures
        target.x - radius <= p.x <= target.x + radius,
        target.y - radius <= p.y <= target.y + radius,
{
    let dx = p.x - target.x;
    let dy = p.y - target.y;
    assert(-radius < dx < radius && -radius < dy < radius) by (nonlinear_arith)
        requires
            dx * dx + dy * dy < radius * radius,
            radius > 0,
    ;
}

/// Every position falls in a cell of the grid.
pub proof fn lemma_index_in_grid(grid: &CellSpacePartition, p: Vec2)
    requires
        grid.wf(),
    ensures
        0 <= grid.index_of(p) < grid.m_Cells.len(),
{
    lemma_grid_not_empty(grid);
}

/// Inside the space no clamping takes place: a position's cell is its
/// column plus its row times the number of columns, and both lie in the grid.
pub proof fn lemma_index_inside(grid: &CellSpacePartition, p: Vec2)
    requires
        grid.wf(),
        grid.inside(p),
    ensures
        0 <= (grid.m_iNumCellsX * p.x) / (grid.m_dSpaceWidth as int) < grid.m_iNumCellsX,
        0 <= (grid.m_iNumCellsY * p.y) / (grid.m_dSpaceHeight as int) < grid.m_iNumCellsY,
        grid.index_of(p) == (grid.m_iNumCellsX * p.x) / (grid.m_dSpaceWidth as int) + ((
        grid.m_iNumCellsY * p.y) / (grid.m_dSpaceHeight as int)) * grid.m_iNumCellsX,
        0 <= grid.index_of(p) < grid.m_iNumCellsX * grid.m_iNumCellsY,
        grid.index_of(p) % (grid.m_iNumCellsX as int) == (grid.m_iNumCellsX * p.x) / (
        grid.m_dSpaceWidth as int),
        grid.index_of(p) / (grid.m_iNumCellsX as int) == (grid.m_iNumCellsY * p.y) / (
        grid.m_dSpaceHeight as int),
{
    let nx = grid.m_iNumCellsX as int;
    let ny = grid.m_iNumCellsY as int;
    let w = grid.m_dSpaceWidth as int;
    let h = grid.m_dSpaceHeight as int;
    lemma_slot(nx, w, p.x as int);
    lemma_slot(ny, h, p.y as int);
    let col = (nx * p.x) / w;
    let row = (ny * p.y) / h;
    assert(0 <= col + row * nx <= nx * ny - 1) by (nonlinear_arith)
        requires
            0 <= col < nx,
            0 <= row < ny,
    ;
    lemma_row_column(col + row * nx, nx, row, col);
}

/// The slot of coordinate `x` when `0..span` is cut into `n` slices.
pub proof fn lemma_slot(n: int, span: int, x: int)
    requires
        n >= 1,
        span >= 1,
        0 <= x < span,
    ensures
        0 <= (n * x) / span < n,
        slice_low((n * x) / span, n, span) <= x <= slice_high((n * x) / span, n, span),
{
    let a = n * x;
    let k = a / span;
    let r = a % span;
    vstd::arithmetic::div_mod::lemma_fundamental_div_mod(a, span);
    assert(0 <= a < n * span) by (nonlinear_arith)
        requires
            a == n * x,
            n >= 1,
            0 <= x < span,
    ;
    assert(0 <= k < n) by (nonlinear_arith)
        requires
            a == span * k + r,
            0 <= r < span,
            0 <= a < n * span,
            span >= 1,
    ;
    // k * span <= n * x, so the lower edge is at most x
    assert(k * span <= n * x && n * x < (k + 1) * span) by (nonlinear_arith)
        requires
            a == span * k + r,
            0 <= r < span,
            a == n * x,
    ;
    vstd::arithmetic::div_mod::lemma_div_is_ordered(k * span, n * x, n);
    assert(n * x == x * n + 0) by (nonlinear_arith);
    vstd::arithmetic::div_mod::lemma_fundamental_div_mod_converse(n * x, n, x, 0);
    vstd::arithmetic::div_mod::lemma_div_is_ordered(n * x, (k + 1) * span + n - 1, n);
}

/// Inside the space, a position lies in the box of its cell.
pub proof fn lemma_cell_box_contains(grid: &CellSpacePartition, p: Vec2)
    requires
        grid.wf(),
        grid.inside(p),
    ensures
        0 <= grid.index_of(p) < grid.m_Cells.len(),
        grid.m_Cells[grid.index_of(p)].bounding_box.contains(p),
{
    lemma_index_inside(grid, p);
    let nx = grid.m_iNumCellsX as int;
    let ny = grid.m_iNumCellsY as int;
    lemma_slot(nx, grid.m_dSpaceWidth as int, p.x as int);
    lemma_slot(ny, grid.m_dSpaceHeight as int, p.y as int);
    let c = grid.index_of(p);
    assert(grid.box_in_place(c));
}

/// A well-formed grid has at least one cell.
pub proof fn lemma_grid_not_empty(grid: &CellSpacePartition)
    requires
        grid.wf(),
    ensures
        grid.m_Cells.len() >= 1,
        grid.m_iNumCellsX * grid.m_iNumCellsY >= 1,
{
    assert(grid.m_iNumCellsX * grid.m_iNumCellsY >= 1) by (nonlinear_arith)
        requires
            grid.m_iNumCellsX >= 1,
            grid.m_iNumCellsY >= 1,
    ;
}

/// The two edges of slice `k` of `n` over `span`.
fn slice_edges(k: i32, n: i32, span: i64) -> (edges: (i64, i64))
    requires
        0 <= k < n,
        1 <= span <= COORD_MAX,
    ensures
        edges.0 == slice_low(k as int, n as int, span as int),
        edges.1 == slice_high(k as int, n as int, span as int),
        0 <= edges.0 <= edges.1 <= span,
{
    proof {
        lemma_slice_bounds(k as int, n as int, span as int);
        assert(0 <= k * span <= 0x7FFF_FFFF * COORD_MAX) by (nonlinear_arith)
            requires
                0 <= k <= 0x7FFF_FFFF,
                0 <= span <= COORD_MAX,
        ;
        assert(0 <= (k + 1) * span <= 0x7FFF_FFFF * COORD_MAX) by (nonlinear_arith)
            requires
                0 <= k + 1 <= 0x7FFF_FFFF,
                0 <= span <= COORD_MAX,
        ;
    }
    let low: i128 = ((k as i128) * (span as i128)) / (n as i128);
    let high: i128 = (((k as i128) + 1) * (span as i128) + (n as i128) - 1) / (n as i128);
    (low as i64, high as i64)
}

/// The edges of a slice lie in the span, in order.
pub proof fn lemma_slice_bounds(k: int, n: int, span: int)
    requires
        0 <= k < n,
        0 <= span,
    ensures
        0 <= slice_low(k, n, span) <= slice_high(k, n, span) <= span,
{
    let a = k * span;
    let b = (k + 1) * span + n - 1;
    assert(0 <= a <= b && b <= n * span + n - 1) by (nonlinear_arith)
        requires
            0 <= k < n,
            0 <= span,
            a == k * span,
            b == (k + 1) * span + n - 1,
    ;
    vstd::arithmetic::div_mod::lemma_div_is_ordered(a, b, n);
    vstd::arithmetic::div_mod::lemma_div_is_ordered(0, a, n);
    vstd::arithmetic::div_mod::lemma_div_is_ordered(b, n * span + n - 1, n);
    assert(n * span + n - 1 == span * n + (n - 1)) by (nonlinear_arith);
    vstd::arithmetic::div_mod::lemma_fundamental_div_mod_converse(n * span + n - 1, n, span, n - 1);
    assert(0int / n == 0) by (nonlinear_arith)
        requires
            n > 0,
    ;
}

/// Cell `row * nx + column` lies in that row and column.
pub proof fn lemma_row_column(c: int, nx: int, row: int, column: int)
    requires
        0 <= column < nx,
        c == row * nx + column,
    ensures
        c % nx == column,
        c / nx == row,
{
    assert(c == nx * row + column) by (nonlinear_arith)
        requires
            c == row * nx + column,
    ;
    vstd::arithmetic::div_mod::lemma_fundamental_div_mod_converse(c, nx, row, column);
}

/// Rounding a quotient down keeps it within the dividend's magnitude.
pub proof fn lemma_floor_div_magnitude(a: int, b: int)
    requires
        b >= 1,
    ensures
        a >= 0 ==> 0 <= a / b <= a,
        a < 0 ==> a <= a / b < 0,
{
    vstd::arithmetic::div_mod::lemma_fundamental_div_mod(a, b);
    let q = a / b;
    let r = a % b;
    assert(a >= 0 ==> 0 <= q <= a) by (nonlinear_arith)
        requires
            a == b * q + r,
            0 <= r < b,
            b >= 1,
    ;
    assert(a < 0 ==> a <= q < 0) by (nonlinear_arith)
        requires
            a == b * q + r,
            0 <= r < b,
            b >= 1,
    ;
}

/// A grid with the dimensions and boxes of a well-formed one is well-formed.
pub proof fn lemma_same_grid_wf(before: &CellSpacePartition, after: &CellSpacePartition)
    requires
        before.wf(),
        after.same_grid(before),
    ensures
        after.wf(),
{
    assert forall|c: int| 0 <= c < after.m_Cells.len() implies #[trigger] after.box_in_place(c) by {
        assert(before.box_in_place(c));
    }
}

} // verus!
