//! Tooltips for the visible entity under the mouse.

use vstd::prelude::*;
use crate::camera::Camera;
use crate::components::{EntityId, FieldOfView, Health};
use crate::geometry::Point;

verus! {

/// A named entity, with its hit points if it has any.
pub struct NamedEntity {
    pub entity: EntityId,
    pub pos: Point,
    pub name: String,
    pub health: Option<Health>,
}

/// A tooltip to print: where, the entity's name, and its current hit points if it has any.
pub struct Tooltip {
    pub screen: Point,
    pub name: String,
    pub hp: Option<i32>,
}

/// The map point under the mouse.
pub open spec fn mouse_map_pos(camera: &Camera, mouse: Point) -> Point {
    Point { x: (mouse.x + camera.left_x) as i32, y: (mouse.y + camera.top_y) as i32 }
}

/// Whether `t` is the tooltip for `e` under the mouse.
pub open spec fn tooltip_for(t: &Tooltip, e: &NamedEntity, mouse: Point) -> bool {
    &&& t.screen == Point { x: (mouse.x * 4) as i32, y: (mouse.y * 4) as i32 }
    &&& t.name@ == e.name@
    &&& t.hp == match e.health { Some(h) => Some(h.current), None => None }
}

/// The indices among the first `n` named entities of those at the mouse that the player sees.
pub open spec fn hovered_upto(camera: &Camera, mouse: Point, fov: &FieldOfView, named: Seq<NamedEntity>, n: int) -> Seq<int>
    decreases n,
{
    if n <= 0 {
        Seq::empty()
    } else {
        let rest = hovered_upto(camera, mouse, fov, named, n - 1);
        let e = named[n - 1];
        if e.pos == mouse_map_pos(camera, mouse) && fov.visible_tiles@.contains(e.pos) {
            rest.push(n - 1)
        } else {
            rest
        }
    }
}

/// Whether the map point under the mouse and four times the mouse position lie in the
/// `i32` range.
pub open spec fn mouse_in_range(camera: &Camera, mouse: Point) -> bool {
    &&& i32::MIN <= mouse.x + camera.left_x <= i32::MAX
    &&& i32::MIN <= mouse.y + camera.top_y <= i32::MAX
    &&& i32::MIN <= mouse.x * 4 <= i32::MAX
    &&& i32::MIN <= mouse.y * 4 <= i32::MAX
}

/// A tooltip for each named entity under the mouse that the player can see, printed at four
/// times the mouse position.
pub fn tooltips(camera: &Camera, mouse_pos: Point, player_fov: &FieldOfView, named: &Vec<NamedEntity>) -> (tips: Vec<Tooltip>)
    requires
        mouse_in_range(camera, mouse_pos),
    ensures
        tips@.len() == hovered_upto(camera, mouse_pos, player_fov, named@, named.len() as int).len(),
        forall|k: int| 0 <= k < tips@.len() ==> tooltip_for(&#[trigger] tips@[k],
            &named@[hovered_upto(camera, mouse_pos, player_fov, named@, named.len() as int)[k]], mouse_pos),
{
    let map_pos = Point::new(mouse_pos.x + camera.left_x, mouse_pos.y + camera.top_y);
    let screen_pos = Point::new(mouse_pos.x * 4, mouse_pos.y * 4);
    let mut tips: Vec<Tooltip> = Vec::new();
    let mut i: usize = 0;
    while i < named.len()
        invariant
            i <= named.len(),
            map_pos == mouse_map_pos(camera, mouse_pos),
            screen_pos == (Point { x: (mouse_pos.x * 4) as i32, y: (mouse_pos.y * 4) as i32 }),
            tips@.len() == hovered_upto(camera, mouse_pos, player_fov, named@, i as int).len(),
            forall|k: int| 0 <= k < tips@.len() ==> tooltip_for(&#[trigger] tips@[k],
                &named@[hovered_upto(camera, mouse_pos, player_fov, named@, i as int)[k]], mouse_pos),
        decreases named.len() - i,
    {
        let e = &named[i];
        if e.pos == map_pos && player_fov.contains(e.pos) {
            let hp = match e.health {
                Some(h) => Some(h.current),
                None => None,
            };
            tips.push(Tooltip { screen: screen_pos, name: e.name.clone(), hp });
        }
        proof {
            let h0 = hovered_upto(camera, mouse_pos, player_fov, named@, i as int);
            let h1 = hovered_upto(camera, mouse_pos, player_fov, named@, i + 1);
            assert forall|k: int| 0 <= k < h0.len() implies h1[k] == h0[k] by {}
        }
        i = i + 1;
    }
    tips
}

} // verus!
