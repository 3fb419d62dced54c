//! Move requests are carried out where the map allows.

use vstd::prelude::*;
use crate::camera::Camera;
use crate::components::{EntityId, FieldOfView, WantsToMove};
use crate::geometry::Point;
use crate::map::{get_map_idx, spec_map_idx, DungeonMap};
use crate::map_builder::on_map;
use crate::NUM_TILES;

verus! {

/// What the world holds of the entity that wants to move: its field of view, if it has one,
/// and whether it is the player.
pub struct MoveTarget {
    pub fov: Option<FieldOfView>,
    pub is_player: bool,
}

/// What the world must change after a move request.
pub struct MoveOutcome {
    /// The entity's new position, when the move happens.
    pub new_position: Option<(EntityId, Point)>,
    /// The entity's replacement field of view, to be computed again, when the move happens.
    pub new_fov: Option<FieldOfView>,
    /// The message entity to remove.
    pub remove: EntityId,
}

/// Whether the tile at index `i` is one of `tiles`.
pub open spec fn index_seen(tiles: Seq<Point>, i: int) -> bool {
    exists|k: int| 0 <= k < tiles.len() && spec_map_idx((#[trigger] tiles[k]).x as int, tiles[k].y as int) == i
}

/// Carries out the move request held by the message `entity`: when the destination can be
/// entered, the mover goes there and its field of view is marked for recomputation; when
/// the mover is the player, the camera follows and every tile it could see is revealed.
pub fn movement(entity: EntityId, move_intent: &WantsToMove, map: &mut DungeonMap, camera: &mut Camera, target: &MoveTarget) -> (outcome: MoveOutcome)
    requires
        old(map).wf(),
        target.fov matches Some(f) ==> forall|k: int| 0 <= k < f.visible_tiles.len() ==> on_map(#[trigger] f.visible_tiles@[k]),
    ensures
        final(map).wf(),
        final(map).tiles == old(map).tiles,
        outcome.remove == entity,
        outcome.new_position == if old(map).spec_can_enter_tile(move_intent.destination) {
            Some((move_intent.entity, move_intent.destination))
        } else {
            None
        },
        outcome.new_fov is Some <==> old(map).spec_can_enter_tile(move_intent.destination) && target.fov is Some,
        outcome.new_fov matches Some(f) ==> f.radius == target.fov->0.radius && f.is_dirty && f.visible_tiles@.len() == 0,
        old(map).spec_can_enter_tile(move_intent.destination) && target.fov is Some && target.is_player ==> {
            &&& final(camera).centred_on(move_intent.destination)
            &&& forall|i: int| 0 <= i < NUM_TILES ==> #[trigger] final(map).revealed_tiles@[i]
                == (old(map).revealed_tiles@[i] || index_seen(target.fov->0.visible_tiles@, i))
        },
        !(old(map).spec_can_enter_tile(move_intent.destination) && target.fov is Some && target.is_player) ==> {
            &&& *final(camera) == *old(camera)
            &&& final(map).revealed_tiles == old(map).revealed_tiles
        },
{
    let mut new_position = None;
    let mut new_fov = None;
    if map.can_enter_tile(move_intent.destination) {
        new_position = Some((move_intent.entity, move_intent.destination));
        if let Some(fov) = &target.fov {
            new_fov = Some(fov.clone_dirty());
            if target.is_player {
                camera.set_position(move_intent.destination);
                let ghost r0 = map.revealed_tiles@;
                let mut k: usize = 0;
                while k < fov.visible_tiles.len()
                    invariant
                        map.wf(),
                        map.tiles == old(map).tiles,
                        r0 == old(map).revealed_tiles@,
                        k <= fov.visible_tiles.len(),
                        forall|j: int| 0 <= j < fov.visible_tiles.len() ==> on_map(#[trigger] fov.visible_tiles@[j]),
                        forall|i: int| 0 <= i < NUM_TILES ==> #[trigger] map.revealed_tiles@[i]
                            == (r0[i] || index_seen(fov.visible_tiles@.subrange(0, k as int), i)),
                    decreases fov.visible_tiles.len() - k,
                {
                    let pos = fov.visible_tiles[k];
                    let idx = get_map_idx(pos.x, pos.y);
                    map.revealed_tiles.set(idx, true);
                    proof {
                        let s0 = fov.visible_tiles@.subrange(0, k as int);
                        let s1 = fov.visible_tiles@.subrange(0, k + 1);
                        assert forall|i: int| 0 <= i < NUM_TILES implies index_seen(s1, i) == (index_seen(s0, i) || i == idx) by {
                            if index_seen(s0, i) {
                                let w = choose|w: int| 0 <= w < s0.len() && spec_map_idx((#[trigger] s0[w]).x as int, s0[w].y as int) == i;
                                assert(s1[w] == s0[w]);
                            }
                            if i == idx {
                                assert(s1[k as int] == pos);
                            }
                            if index_seen(s1, i) {
                                let w = choose|w: int| 0 <= w < s1.len() && spec_map_idx((#[trigger] s1[w]).x as int, s1[w].y as int) == i;
                                if w < k {
                                    assert(s0[w] == s1[w]);
                                }
                            }
                        }
                    }
                    k = k + 1;
                }
                assert(fov.visible_tiles@.subrange(0, fov.visible_tiles.len() as int) =~= fov.visible_tiles@);
            }
        }
    }
    MoveOutcome { new_position, new_fov, remove: entity }
}

} // verus!
