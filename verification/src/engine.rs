//! The turn engine: the selection state machine that consumes tap events
//! and produces captures and turn handoffs.

use crate::board::{beats, lemma_grid_index, neighbors, Coordinate, GameError, Grid, Interactable,
    Player, Tile};
use vstd::prelude::*;

verus! {

/// The per-session turn state: the active player and, while a source is
/// selected, a snapshot of the source tile taken at selection time. The
/// snapshot is a copy, not a live reference: it stays stable even if the
/// underlying tile is mutated before the move resolves.
#[derive(Clone, Copy, Debug)]
pub struct Turn {
    pub player: Player,
    pub src_tile: Option<Tile>,
}

/// What one tap event did.
#[derive(Clone, Copy, PartialEq, Eq, Structural, Debug)]
pub enum TapOutcome {
    /// The tapped tile became the selected source.
    Selected,
    /// The selected source was tapped again and released.
    Deselected,
    /// A capture resolved onto the tapped tile and the turn passed.
    Captured,
    /// The tap matched no transition and was silently absorbed.
    Ignored,
}

impl Turn {
    /// The state at game start: Player1 to move, nothing selected.
    pub fn new() -> (t: Turn)
        ensures
            t.player == Player::Player1,
            t.src_tile is None,
    {
        Turn { player: Player::Player1, src_tile: None }
    }
}

/// A legal capture target for the snapshot `src`: a neighbor of the source
/// whose element the source's element beats.
pub open spec fn legal_target(src: Tile, dst: Tile) -> bool {
    neighbors(src.coord, dst.coord) && beats(src.element, dst.element)
}

/// The interaction state a tile must show in a given selection context:
/// the selected source shows `Active`, its legal targets `Clickable`;
/// with nothing selected, the active player's own tiles are `Clickable`;
/// every other tile is `Inert`.
pub open spec fn interaction_for(tile: Tile, turn: Turn) -> Interactable {
    match turn.src_tile {
        Some(src) => if tile.coord == src.coord {
            Interactable::Active
        } else if legal_target(src, tile) {
            Interactable::Clickable
        } else {
            Interactable::Inert
        },
        None => if tile.player == turn.player {
            Interactable::Clickable
        } else {
            Interactable::Inert
        },
    }
}

/// Freshness of the derived interaction states: every tile shows exactly
/// the state the current selection context demands; nothing stale survives
/// a transition.
pub open spec fn consistent(g: Grid, t: Turn) -> bool {
    forall|i: int|
        0 <= i < g.tiles@.len() ==> (#[trigger] g.tiles@[i]).interactable == interaction_for(
            g.tiles@[i],
            t,
        )
}

/// The two grids agree on all gameplay data (element, owner, coordinate)
/// position by position; only interaction states may differ.
pub open spec fn same_tile_data(g0: Grid, g1: Grid) -> bool {
    &&& g1.tiles@.len() == g0.tiles@.len()
    &&& forall|i: int|
        0 <= i < g0.tiles@.len() ==> {
            let t1 = #[trigger] g1.tiles@[i];
            let t0 = g0.tiles@[i];
            t1.element == t0.element && t1.player == t0.player && t1.coord == t0.coord
        }
}

/// The player to move once `p` has resolved a capture.
pub open spec fn opponent(p: Player) -> Player {
    match p {
        Player::Neutral => Player::Neutral,
        Player::Player1 => Player::Player2,
        Player::Player2 => Player::Player1,
    }
}

/// Turn alternation: resolving a capture hands the turn to the other
/// player, never to the one who moved and never to the neutral value if
/// the mover was not neutral; handing it over twice returns it.
pub proof fn lemma_turn_alternation(p: Player)
    ensures
        p != Player::Neutral ==> opponent(p) != p && opponent(p) != Player::Neutral,
        opponent(opponent(p)) == p,
{
}

/// The interaction state for one tile in the given selection context.
fn interaction_of(tile: &Tile, turn: &Turn) -> (r: Interactable)
    ensures
        r == interaction_for(*tile, *turn),
{
    match &turn.src_tile {
        Some(src) => {
            if tile.coord == src.coord {
                Interactable::Active
            } else if src.coord.is_neighbor(&tile.coord) && src.element.can_attack(&tile.element) {
                Interactable::Clickable
            } else {
                Interactable::Inert
            }
        },
        None => {
            if tile.player == turn.player {
                Interactable::Clickable
            } else {
                Interactable::Inert
            }
        },
    }
}

/// Recompute every tile's interaction state for the given selection
/// context, leaving elements, owners and coordinates untouched. Run after
/// each transition, so that no stale state is ever shown or consulted.
pub fn update_tile(grid: &mut Grid, turn: &Turn)
    requires
        old(grid).wf(),
    ensures
        final(grid).wf(),
        final(grid).rows == old(grid).rows,
        final(grid).cols == old(grid).cols,
        final(grid).tiles@.len() == old(grid).tiles@.len(),
        forall|i: int|
            0 <= i < old(grid).tiles@.len() ==> #[trigger] final(grid).tiles@[i] == (Tile {
                interactable: interaction_for(old(grid).tiles@[i], *turn),
                ..old(grid).tiles@[i]
            }),
        same_tile_data(*old(grid), *final(grid)),
        consistent(*final(grid), *turn),
{
    let n = grid.tiles.len();
    let mut i: usize = 0;
    while i < n
        invariant
            grid.wf(),
            n == grid.tiles@.len(),
            grid.tiles@.len() == old(grid).tiles@.len(),
            grid.rows == old(grid).rows,
            grid.cols == old(grid).cols,
            i <= n,
            forall|j: int|
                0 <= j < i ==> #[trigger] grid.tiles@[j] == (Tile {
                    interactable: interaction_for(old(grid).tiles@[j], *turn),
                    ..old(grid).tiles@[j]
                }),
            forall|j: int| i <= j < n ==> #[trigger] grid.tiles@[j] == old(grid).tiles@[j],
        decreases n - i,
    {
        let mut t = grid.tiles[i];
        t.interactable = interaction_of(&t, turn);
        grid.tiles[i] = t;
        i = i + 1;
    }
}

/// Resolve the pending move onto `dst`: copy the selection snapshot's
/// element and owner onto the destination tile, hand the turn to the
/// opponent, clear the selection and refresh every interaction state.
/// Whether the move was legal is the caller's business; only the
/// destination's existence, a pending selection and a non-neutral mover
/// are checked here, and a failed check mutates nothing.
pub fn advance_tile(grid: &mut Grid, turn: &mut Turn, dst: Coordinate) -> (r: Result<
    (),
    GameError,
>)
    requires
        old(grid).wf(),
    ensures
        final(grid).wf(),
        final(grid).rows == old(grid).rows,
        final(grid).cols == old(grid).cols,
        final(grid).tiles@.len() == old(grid).tiles@.len(),
        forall|i: int|
            0 <= i < old(grid).tiles@.len() ==> (#[trigger] final(grid).tiles@[i]).coord == old(grid).tiles@[i].coord,
        !old(grid).in_bounds(dst) ==> r == Err::<(), GameError>(GameError::OutOfBounds) && *final(grid) == *old(grid) && *final(turn) == *old(turn),
        old(grid).in_bounds(dst) && (old(turn).player == Player::Neutral || old(turn).src_tile is None) ==> r == Err::<(), GameError>(GameError::IntegrityViolation) && *final(grid) == *old(grid) && *final(turn) == *old(turn),
        (old(grid).in_bounds(dst) && old(turn).player != Player::Neutral && old(turn).src_tile is Some) ==> ({
            let src = old(turn).src_tile->Some_0;
            &&& r == Ok::<(), GameError>(())
            &&& final(turn).player == opponent(old(turn).player)
            &&& final(turn).src_tile is None
            &&& final(grid).tile_at_spec(dst).element == src.element
            &&& final(grid).tile_at_spec(dst).player == src.player
            &&& forall|i: int|
                0 <= i < old(grid).tiles@.len() && i != old(grid).idx(dst) ==> {
                    let t1 = #[trigger] final(grid).tiles@[i];
                    let t0 = old(grid).tiles@[i];
                    t1.element == t0.element && t1.player == t0.player
                }
            &&& consistent(*final(grid), *final(turn))
        }),
{
    if !grid.contains(dst) {
        return Err(GameError::OutOfBounds);
    }
    if turn.player == Player::Neutral {
        return Err(GameError::IntegrityViolation);
    }
    let src = match turn.src_tile {
        Some(s) => s,
        None => {
            return Err(GameError::IntegrityViolation);
        },
    };
    let _ = grid.apply_capture(&src, dst);
    turn.player = if turn.player == Player::Player1 {
        Player::Player2
    } else {
        Player::Player1
    };
    turn.src_tile = None;
    update_tile(grid, turn);
    proof {
        lemma_grid_index(*old(grid), dst);
    }
    Ok(())
}

/// Feed one tap event, already resolved to a coordinate, into the engine.
/// With nothing selected, tapping a tile of the active player selects it
/// and any other tap is absorbed; with a source selected, tapping it again
/// deselects it, tapping a legal target resolves the capture and passes
/// the turn, and any other tap is absorbed with the selection retained.
/// The tapped tile's stored interaction state is the authoritative guard.
/// A tap outside the grid fails with `OutOfBounds`, a neutral active
/// player with `IntegrityViolation`; neither mutates anything.
pub fn handle_tap(grid: &mut Grid, turn: &mut Turn, coord: Coordinate) -> (r: Result<
    TapOutcome,
    GameError,
>)
    requires
        old(grid).wf(),
        consistent(*old(grid), *old(turn)),
    ensures
        final(grid).wf(),
        final(grid).rows == old(grid).rows,
        final(grid).cols == old(grid).cols,
        final(grid).tiles@.len() == old(grid).tiles@.len(),
        forall|i: int|
            0 <= i < old(grid).tiles@.len() ==> (#[trigger] final(grid).tiles@[i]).coord == old(grid).tiles@[i].coord,
        consistent(*final(grid), *final(turn)),
        old(turn).player != Player::Neutral ==> final(turn).player != Player::Neutral,
        !old(grid).in_bounds(coord) ==> r == Err::<TapOutcome, GameError>(GameError::OutOfBounds)
            && *final(grid) == *old(grid) && *final(turn) == *old(turn),
        (old(grid).in_bounds(coord) && old(turn).player == Player::Neutral) ==> r == Err::<
            TapOutcome,
            GameError,
        >(GameError::IntegrityViolation) && *final(grid) == *old(grid) && *final(turn) == *old(turn),
        (old(grid).in_bounds(coord) && old(turn).player != Player::Neutral && old(turn).src_tile is None) ==> ({
            let dst0 = old(grid).tile_at_spec(coord);
            &&& dst0.player == old(turn).player ==> {
                &&& r == Ok::<TapOutcome, GameError>(TapOutcome::Selected)
                &&& final(turn).player == old(turn).player
                &&& final(turn).src_tile == Some(dst0)
                &&& same_tile_data(*old(grid), *final(grid))
            }
            &&& dst0.player != old(turn).player ==> r == Ok::<TapOutcome, GameError>(
                TapOutcome::Ignored,
            ) && *final(grid) == *old(grid) && *final(turn) == *old(turn)
        }),
        (old(grid).in_bounds(coord) && old(turn).player != Player::Neutral && old(turn).src_tile is Some) ==> ({
            let src = old(turn).src_tile->Some_0;
            let dst0 = old(grid).tile_at_spec(coord);
            &&& src.coord == coord ==> {
                &&& r == Ok::<TapOutcome, GameError>(TapOutcome::Deselected)
                &&& final(turn).player == old(turn).player
                &&& final(turn).src_tile is None
                &&& same_tile_data(*old(grid), *final(grid))
            }
            &&& (src.coord != coord && legal_target(src, dst0)) ==> {
                &&& r == Ok::<TapOutcome, GameError>(TapOutcome::Captured)
                &&& final(turn).player == opponent(old(turn).player)
                &&& final(turn).player != old(turn).player
                &&& final(turn).src_tile is None
                &&& final(grid).tile_at_spec(coord).element == src.element
                &&& final(grid).tile_at_spec(coord).player == src.player
                &&& forall|i: int|
                    0 <= i < old(grid).tiles@.len() && i != old(grid).idx(coord) ==> {
                        let t1 = #[trigger] final(grid).tiles@[i];
                        let t0 = old(grid).tiles@[i];
                        t1.element == t0.element && t1.player == t0.player
                    }
            }
            &&& (src.coord != coord && !legal_target(src, dst0)) ==> r == Ok::<
                TapOutcome,
                GameError,
            >(TapOutcome::Ignored) && *final(grid) == *old(grid) && *final(turn) == *old(turn)
        }),
{
    if !grid.contains(coord) {
        return Err(GameError::OutOfBounds);
    }
    if turn.player == Player::Neutral {
        return Err(GameError::IntegrityViolation);
    }
    let dst = match grid.tile_at(coord) {
        Ok(t) => t,
        Err(e) => {
            return Err(e);
        },
    };
    proof {
        lemma_grid_index(*grid, coord);
        assert(grid.tiles@[grid.idx(coord)].interactable == interaction_for(
            grid.tiles@[grid.idx(coord)],
            *turn,
        ));
    }
    if dst.interactable == Interactable::Inert {
        return Ok(TapOutcome::Ignored);
    }
    match turn.src_tile {
        None => {
            turn.src_tile = Some(dst);
            update_tile(grid, turn);
            Ok(TapOutcome::Selected)
        },
        Some(src) => {
            if src.coord == coord {
                turn.src_tile = None;
                update_tile(grid, turn);
                Ok(TapOutcome::Deselected)
            } else {
                let _ = advance_tile(grid, turn, coord);
                Ok(TapOutcome::Captured)
            }
        },
    }
}

} // verus!
