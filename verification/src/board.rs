//! The board model: coordinates, elements, owners and the grid of tiles.

use vstd::arithmetic::div_mod::lemma_fundamental_div_mod_converse;
use vstd::prelude::*;

verus! {

/// One of the three tile elements, related by a cyclic dominance relation.
#[derive(Clone, Copy, PartialEq, Eq, Structural, Debug)]
pub enum Element {
    Earth,
    Fire,
    Water,
}

/// The owner of a tile. `Neutral` marks an unclaimed tile.
#[derive(Clone, Copy, PartialEq, Eq, Structural, Debug)]
pub enum Player {
    Neutral,
    Player1,
    Player2,
}

/// The derived, render-facing classification of a tile.
#[derive(Clone, Copy, PartialEq, Eq, Structural, Debug)]
pub enum Interactable {
    /// Tapping the tile is a no-op in the current selection context.
    Inert,
    /// The tile may be tapped: it is selectable as a source, or a legal target.
    Clickable,
    /// The tile is the currently selected source.
    Active,
}

/// A grid cell identity: a (row, column) pair, compared by value.
#[derive(Clone, Copy, PartialEq, Eq, Structural, Debug)]
pub struct Coordinate {
    pub row: i32,
    pub col: i32,
}

/// The cyclic dominance relation: Earth beats Water, Fire beats Earth,
/// Water beats Fire; no other pair (equal elements included) beats.
pub open spec fn beats(a: Element, b: Element) -> bool {
    match a {
        Element::Earth => b == Element::Water,
        Element::Fire => b == Element::Earth,
        Element::Water => b == Element::Fire,
    }
}

/// Four-directional adjacency: the coordinates share one axis value and
/// differ by exactly 1 on the other; no diagonals, no wraparound.
pub open spec fn neighbors(c1: Coordinate, c2: Coordinate) -> bool {
    ||| (c1.col == c2.col && (c1.row == c2.row + 1 || c1.row == c2.row - 1))
    ||| (c1.row == c2.row && (c1.col == c2.col + 1 || c1.col == c2.col - 1))
}

impl Element {
    /// Whether `self` may capture a tile of element `other`.
    pub fn can_attack(&self, other: &Element) -> (r: bool)
        ensures
            r == beats(*self, *other),
    {
        match self {
            Element::Earth => *other == Element::Water,
            Element::Fire => *other == Element::Earth,
            Element::Water => *other == Element::Fire,
        }
    }
}

impl Coordinate {
    /// Whether `coord2` lies directly above, below, left or right of `self`.
    pub fn is_neighbor(&self, coord2: &Coordinate) -> (r: bool)
        ensures
            r == neighbors(*self, *coord2),
    {
        let dr: i64 = self.row as i64 - coord2.row as i64;
        let dc: i64 = self.col as i64 - coord2.col as i64;
        (dc == 0 && (dr == 1 || dr == -1)) || (dr == 0 && (dc == 1 || dc == -1))
    }
}

/// Adjacency is symmetric, and no coordinate is its own neighbor.
pub proof fn lemma_neighbor_properties(c1: Coordinate, c2: Coordinate)
    ensures
        neighbors(c1, c2) == neighbors(c2, c1),
        !neighbors(c1, c1),
{
}

/// The dominance relation is a 3-cycle with no fixed points: no element
/// beats itself, and of any two distinct elements exactly one beats the
/// other.
pub proof fn lemma_beats_cycle(a: Element, b: Element)
    ensures
        !beats(a, a),
        a != b ==> (beats(a, b) <==> !beats(b, a)),
{
}

/// One cell of the board: a stable coordinate identity plus its mutable
/// element, owner and derived interaction state.
#[derive(Clone, Copy, PartialEq, Eq, Structural, Debug)]
pub struct Tile {
    pub element: Element,
    pub player: Player,
    pub coord: Coordinate,
    pub interactable: Interactable,
}

/// Why a board or engine operation was refused.
#[derive(Clone, Copy, PartialEq, Eq, Structural, Debug)]
pub enum GameError {
    /// The coordinate lies outside the grid rectangle.
    OutOfBounds,
    /// A prior invariant was broken, e.g. the active player is the neutral
    /// value; a logic bug rather than something a player can cause.
    IntegrityViolation,
}

/// The fixed rows x cols board: exactly one tile per coordinate, stored in
/// row-major order, created once at game start and never resized.
pub struct Grid {
    pub rows: i32,
    pub cols: i32,
    pub tiles: Vec<Tile>,
}

impl Grid {
    /// Whether `c` lies inside the grid rectangle.
    pub open spec fn in_bounds(self, c: Coordinate) -> bool {
        0 <= c.row < self.rows && 0 <= c.col < self.cols
    }

    /// The row-major position of an in-bounds coordinate.
    pub open spec fn idx(self, c: Coordinate) -> int {
        c.row as int * self.cols as int + c.col as int
    }

    /// The tile stored at an in-bounds coordinate.
    pub open spec fn tile_at_spec(self, c: Coordinate) -> Tile
        recommends
            self.wf(),
            self.in_bounds(c),
    {
        self.tiles@[self.idx(c)]
    }

    /// Well-formedness: positive dimensions, and one tile per coordinate,
    /// each stored at its own row-major position.
    pub open spec fn wf(self) -> bool {
        &&& 0 < self.rows
        &&& 0 < self.cols
        &&& self.tiles@.len() == self.rows as int * self.cols as int
        &&& forall|i: int|
            0 <= i < self.tiles@.len() ==> (#[trigger] self.tiles@[i]).coord.row == i / (
            self.cols as int) && self.tiles@[i].coord.col == i % (self.cols as int)
    }

    /// Whether `c` lies inside the grid rectangle.
    pub fn contains(&self, c: Coordinate) -> (r: bool)
        ensures
            r == self.in_bounds(c),
    {
        0 <= c.row && c.row < self.rows && 0 <= c.col && c.col < self.cols
    }

    /// The row-major position of an in-bounds coordinate.
    fn index_of(&self, c: Coordinate) -> (i: usize)
        requires
            self.wf(),
            self.in_bounds(c),
        ensures
            i == self.idx(c),
            i < self.tiles@.len(),
            self.tiles@[i as int].coord == c,
    {
        let n = self.tiles.len();
        proof {
            lemma_grid_index(*self, c);
            assert((c.row as int) * (self.cols as int) <= self.idx(c) < n as int);
        }
        (c.row as usize) * (self.cols as usize) + (c.col as usize)
    }

    /// A read-only snapshot of the tile at `coord`, or `OutOfBounds` if
    /// `coord` lies outside the grid.
    pub fn tile_at(&self, coord: Coordinate) -> (r: Result<Tile, GameError>)
        requires
            self.wf(),
        ensures
            self.in_bounds(coord) ==> r == Ok::<Tile, GameError>(self.tile_at_spec(coord)),
            !self.in_bounds(coord) ==> r == Err::<Tile, GameError>(GameError::OutOfBounds),
    {
        if self.contains(coord) {
            let i = self.index_of(coord);
            Ok(self.tiles[i])
        } else {
            Err(GameError::OutOfBounds)
        }
    }
}

impl Grid {
    /// Overwrite the element and owner of the tile at `coord`, leaving its
    /// coordinate, its interaction state and every other tile as they were.
    /// Fails with `OutOfBounds`, touching nothing, if `coord` lies outside
    /// the grid.
    pub fn set_tile(&mut self, coord: Coordinate, element: Element, player: Player) -> (r: Result<
        (),
        GameError,
    >)
        requires
            old(self).wf(),
        ensures
            final(self).wf(),
            final(self).rows == old(self).rows,
            final(self).cols == old(self).cols,
            final(self).tiles@.len() == old(self).tiles@.len(),
            forall|i: int|
                0 <= i < old(self).tiles@.len() ==> (#[trigger] final(self).tiles@[i]).coord == old(self).tiles@[i].coord,
            !old(self).in_bounds(coord) ==> r == Err::<(), GameError>(GameError::OutOfBounds)
                && *final(self) == *old(self),
            old(self).in_bounds(coord) ==> {
                &&& r == Ok::<(), GameError>(())
                &&& forall|i: int|
                    0 <= i < old(self).tiles@.len() && i != old(self).idx(coord) ==> #[trigger] final(self).tiles@[i] == old(self).tiles@[i]
                &&& final(self).tile_at_spec(coord) == (Tile {
                    element,
                    player,
                    ..old(self).tile_at_spec(coord)
                })
            },
    {
        if !self.contains(coord) {
            return Err(GameError::OutOfBounds);
        }
        let i = self.index_of(coord);
        let mut t = self.tiles[i];
        t.element = element;
        t.player = player;
        self.tiles[i] = t;
        Ok(())
    }

    /// Resolve a capture: overwrite the destination tile's element and
    /// owner with the source snapshot's. Legality of the move is the turn
    /// engine's business; only the destination's existence is checked here.
    /// Neither the tile count nor any tile's coordinate changes.
    pub fn apply_capture(&mut self, src: &Tile, dst: Coordinate) -> (r: Result<(), GameError>)
        requires
            old(self).wf(),
        ensures
            final(self).wf(),
            final(self).rows == old(self).rows,
            final(self).cols == old(self).cols,
            final(self).tiles@.len() == old(self).tiles@.len(),
            forall|i: int|
                0 <= i < old(self).tiles@.len() ==> (#[trigger] final(self).tiles@[i]).coord == old(self).tiles@[i].coord,
            !old(self).in_bounds(dst) ==> r == Err::<(), GameError>(GameError::OutOfBounds)
                && *final(self) == *old(self),
            old(self).in_bounds(dst) ==> {
                &&& r == Ok::<(), GameError>(())
                &&& forall|i: int|
                    0 <= i < old(self).tiles@.len() && i != old(self).idx(dst) ==> #[trigger] final(self).tiles@[i] == old(self).tiles@[i]
                &&& final(self).tile_at_spec(dst) == (Tile {
                    element: src.element,
                    player: src.player,
                    ..old(self).tile_at_spec(dst)
                })
            },
    {
        self.set_tile(dst, src.element, src.player)
    }
}

/// The deterministic element assignment at setup: the outermost columns
/// carry Fire, the next band inward Earth, and the middle Water.
pub open spec fn initial_element(col: i32, cols: i32) -> Element {
    if col == 0 || col == cols - 1 {
        Element::Fire
    } else if col == 1 || col == cols - 2 {
        Element::Earth
    } else {
        Element::Water
    }
}

/// The deterministic owner assignment at setup: the first three rows
/// belong to Player1, the last three to Player2, and the band between to
/// no one.
pub open spec fn initial_player(row: i32, rows: i32) -> Player {
    if row < 3 {
        Player::Player1
    } else if row >= rows - 3 {
        Player::Player2
    } else {
        Player::Neutral
    }
}

impl Grid {
    /// Build the starting board: one tile per coordinate of the rows x cols
    /// rectangle, element fixed by column band, owner by row band, every
    /// interaction state inert. The assignment is a pure function of
    /// (rows, cols); the element bands are the documented policy, while
    /// `initialize_random` is the variant that draws elements at random.
    pub fn initialize(rows: i32, cols: i32) -> (g: Grid)
        requires
            0 < rows,
            0 < cols,
            (rows as int) * (cols as int) <= i32::MAX,
        ensures
            g.wf(),
            g.rows == rows,
            g.cols == cols,
            forall|c: Coordinate|
                g.in_bounds(c) ==> #[trigger] g.tile_at_spec(c) == (Tile {
                    element: initial_element(c.col, cols),
                    player: initial_player(c.row, rows),
                    coord: c,
                    interactable: Interactable::Inert,
                }),
    {
        let mut tiles: Vec<Tile> = Vec::new();
        let mut row: i32 = 0;
        while row < rows
            invariant
                0 <= row <= rows,
                0 < cols,
                (rows as int) * (cols as int) <= i32::MAX,
                tiles@.len() == (row as int) * (cols as int),
                forall|i: int|
                    0 <= i < tiles@.len() ==> (#[trigger] tiles@[i]).coord.row == i / (cols as int)
                        && tiles@[i].coord.col == i % (cols as int),
                forall|i: int|
                    0 <= i < tiles@.len() ==> #[trigger] tiles@[i] == (Tile {
                        element: initial_element(tiles@[i].coord.col, cols),
                        player: initial_player(tiles@[i].coord.row, rows),
                        coord: tiles@[i].coord,
                        interactable: Interactable::Inert,
                    }),
            decreases rows - row,
        {
            let mut col: i32 = 0;
            while col < cols
                invariant
                    0 <= row < rows,
                    0 <= col <= cols,
                    (rows as int) * (cols as int) <= i32::MAX,
                    tiles@.len() == (row as int) * (cols as int) + (col as int),
                    forall|i: int|
                        0 <= i < tiles@.len() ==> (#[trigger] tiles@[i]).coord.row == i / (
                        cols as int) && tiles@[i].coord.col == i % (cols as int),
                    forall|i: int|
                        0 <= i < tiles@.len() ==> #[trigger] tiles@[i] == (Tile {
                            element: initial_element(tiles@[i].coord.col, cols),
                            player: initial_player(tiles@[i].coord.row, rows),
                            coord: tiles@[i].coord,
                            interactable: Interactable::Inert,
                        }),
                decreases cols - col,
            {
                let element = if col == 0 || col == cols - 1 {
                    Element::Fire
                } else if col == 1 || col == cols - 2 {
                    Element::Earth
                } else {
                    Element::Water
                };
                let player = if row < 3 {
                    Player::Player1
                } else if row >= rows - 3 {
                    Player::Player2
                } else {
                    Player::Neutral
                };
                proof {
                    assert((row as int) * (cols as int) + (col as int) < (rows as int) * (
                    cols as int)) by (nonlinear_arith)
                        requires
                            0 <= (row as int) < (rows as int),
                            0 <= (col as int) < (cols as int),
                    ;
                    lemma_fundamental_div_mod_converse(
                        (row as int) * (cols as int) + (col as int),
                        cols as int,
                        row as int,
                        col as int,
                    );
                }
                tiles.push(
                    Tile { element, player, coord: Coordinate { row, col }, interactable: Interactable::Inert },
                );
                col = col + 1;
            }
            proof {
                assert((row as int) * (cols as int) + (cols as int) == ((row as int) + 1) * (
                cols as int)) by (nonlinear_arith);
            }
            row = row + 1;
        }
        let g = Grid { rows, cols, tiles };
        proof {
            assert forall|c: Coordinate| g.in_bounds(c) implies #[trigger] g.tile_at_spec(c) == (
            Tile {
                element: initial_element(c.col, cols),
                player: initial_player(c.row, rows),
                coord: c,
                interactable: Interactable::Inert,
            }) by {
                lemma_grid_index(g, c);
            }
        }
        g
    }
}

/// Each position of a well-formed grid holds a tile whose coordinate is in
/// bounds and maps back to that very position: coordinates are unique.
pub proof fn lemma_grid_coord(g: Grid, i: int)
    requires
        g.wf(),
        0 <= i < g.tiles@.len(),
    ensures
        g.in_bounds(g.tiles@[i].coord),
        g.idx(g.tiles@[i].coord) == i,
{
    let cols = g.cols as int;
    let rows = g.rows as int;
    let q = i / cols;
    let r = i % cols;
    vstd::arithmetic::div_mod::lemma_fundamental_div_mod(i, cols);
    vstd::arithmetic::div_mod::lemma_mod_bound(i, cols);
    assert(0 <= q < rows && q * cols + r == i) by (nonlinear_arith)
        requires
            i == cols * q + r,
            0 <= r < cols,
            0 <= i < rows * cols,
            0 < cols,
            0 < rows,
    ;
}

/// Draws one machine word from the thread-local random generator.
/// Relies on rand::random: no property of the drawn value is assumed.
#[verifier::external_body]
fn random_u32() -> u32 {
    rand::random::<u32>()
}

/// One of the three elements, picked from a fresh random draw.
fn random_element() -> Element {
    let n = random_u32();
    if n % 3 == 0 {
        Element::Earth
    } else if n % 3 == 1 {
        Element::Fire
    } else {
        Element::Water
    }
}

impl Grid {
    /// The setup variant that draws each tile's element at random. The
    /// owner assignment keeps the deterministic row-band rule, whatever
    /// the draws return, and the grid shape is the same as `initialize`
    /// gives; only the elements are left open.
    pub fn initialize_random(rows: i32, cols: i32) -> (g: Grid)
        requires
            0 < rows,
            0 < cols,
            (rows as int) * (cols as int) <= i32::MAX,
        ensures
            g.wf(),
            g.rows == rows,
            g.cols == cols,
            forall|c: Coordinate|
                g.in_bounds(c) ==> {
                    let t = #[trigger] g.tile_at_spec(c);
                    t.coord == c && t.player == initial_player(c.row, rows) && t.interactable
                        == Interactable::Inert
                },
    {
        let mut g = Grid::initialize(rows, cols);
        let n = g.tiles.len();
        proof {
            assert forall|j: int| 0 <= j < g.tiles@.len() implies (#[trigger] g.tiles@[j]).player
                == initial_player(g.tiles@[j].coord.row, rows) && g.tiles@[j].interactable
                == Interactable::Inert by {
                lemma_grid_coord(g, j);
                let c = g.tiles@[j].coord;
                assert(g.tile_at_spec(c) == g.tiles@[j]);
            }
        }
        let mut i: usize = 0;
        while i < n
            invariant
                g.wf(),
                g.rows == rows,
                g.cols == cols,
                n == g.tiles@.len(),
                i <= n,
                forall|j: int|
                    0 <= j < n ==> (#[trigger] g.tiles@[j]).player == initial_player(
                        g.tiles@[j].coord.row,
                        rows,
                    ) && g.tiles@[j].interactable == Interactable::Inert,
            decreases n - i,
        {
            let e = random_element();
            let mut t = g.tiles[i];
            t.element = e;
            g.tiles[i] = t;
            i = i + 1;
        }
        proof {
            assert forall|c: Coordinate| g.in_bounds(c) implies {
                let t = #[trigger] g.tile_at_spec(c);
                t.coord == c && t.player == initial_player(c.row, rows) && t.interactable
                    == Interactable::Inert
            } by {
                lemma_grid_index(g, c);
            }
        }
        g
    }
}

/// A capture never changes the tile count nor the set of coordinates: any
/// two grids whose tiles agree coordinate-wise position by position, as a
/// capture leaves them, carry the same coordinates as a set.
pub proof fn lemma_capture_preserves_coordinates(g0: Grid, g1: Grid)
    requires
        g1.tiles@.len() == g0.tiles@.len(),
        forall|i: int|
            0 <= i < g0.tiles@.len() ==> (#[trigger] g1.tiles@[i]).coord == g0.tiles@[i].coord,
    ensures
        g1.tiles@.map(|i: int, t: Tile| t.coord).to_set() == g0.tiles@.map(
            |i: int, t: Tile| t.coord,
        ).to_set(),
{
    assert(g1.tiles@.map(|i: int, t: Tile| t.coord) =~= g0.tiles@.map(|i: int, t: Tile| t.coord));
}

/// For a well-formed grid, the row-major position of an in-bounds
/// coordinate is a valid index, and the tile stored there carries exactly
/// that coordinate.
pub proof fn lemma_grid_index(g: Grid, c: Coordinate)
    requires
        g.wf(),
        g.in_bounds(c),
    ensures
        0 <= g.idx(c) < g.tiles@.len(),
        g.tile_at_spec(c).coord == c,
{
    let cols = g.cols as int;
    let rows = g.rows as int;
    assert(0 <= (c.row as int) * cols && (c.row as int) * cols + (c.col as int) < rows * cols)
        by (nonlinear_arith)
        requires
            0 <= (c.row as int) < rows,
            0 <= (c.col as int) < cols,
            0 < cols,
    ;
    lemma_fundamental_div_mod_converse(g.idx(c), cols, c.row as int, c.col as int);
}

} // verus!
