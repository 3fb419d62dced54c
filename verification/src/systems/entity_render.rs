//! Which entities are drawn, and where on the screen.

use vstd::prelude::*;
use crate::camera::Camera;
use crate::components::{FieldOfView, Render};
use crate::geometry::Point;

verus! {

/// An entity to draw at a screen position.
#[derive(Clone, Copy, Debug, PartialEq, Eq, Structural)]
pub struct EntityDraw {
    pub screen: Point,
    pub render: Render,
}

/// Whether `p` can be shifted by the camera's top-left corner within the `i32` range.
pub open spec fn shift_fits(camera: &Camera, p: Point) -> bool {
    i32::MIN <= p.x - camera.left_x <= i32::MAX && i32::MIN <= p.y - camera.top_y <= i32::MAX
}

/// A map point as seen from the camera's top-left corner.
pub open spec fn to_screen(camera: &Camera, p: Point) -> Point {
    Point { x: (p.x - camera.left_x) as i32, y: (p.y - camera.top_y) as i32 }
}

/// The draws of the first `n` renderables that the player can see.
pub open spec fn entity_draws_upto(camera: &Camera, fov: &FieldOfView, renderables: Seq<(Point, Render)>, n: int) -> Seq<EntityDraw>
    decreases n,
{
    if n <= 0 {
        Seq::empty()
    } else {
        let rest = entity_draws_upto(camera, fov, renderables, n - 1);
        let (p, r) = renderables[n - 1];
        if fov.visible_tiles@.contains(p) {
            rest.push(EntityDraw { screen: to_screen(camera, p), render: r })
        } else {
            rest
        }
    }
}

/// The entities the player can see, each placed on the screen relative to the camera.
pub fn entity_render(camera: &Camera, player_fov: &FieldOfView, renderables: &Vec<(Point, Render)>) -> (draws: Vec<EntityDraw>)
    requires
        forall|k: int| 0 <= k < renderables.len() && player_fov.visible_tiles@.contains((#[trigger] renderables@[k]).0)
            ==> shift_fits(camera, renderables@[k].0),
    ensures
        draws@ == entity_draws_upto(camera, player_fov, renderables@, renderables.len() as int),
{
    let offset = Point::new(camera.left_x, camera.top_y);
    let mut draws: Vec<EntityDraw> = Vec::new();
    let mut i: usize = 0;
    while i < renderables.len()
        invariant
            i <= renderables.len(),
            offset.x == camera.left_x && offset.y == camera.top_y,
            forall|k: int| 0 <= k < renderables.len() && player_fov.visible_tiles@.contains((#[trigger] renderables@[k]).0)
                ==> shift_fits(camera, renderables@[k].0),
            draws@ == entity_draws_upto(camera, player_fov, renderables@, i as int),
        decreases renderables.len() - i,
    {
        let (pos, render) = renderables[i];
        if player_fov.contains(pos) {
            draws.push(EntityDraw { screen: Point::new(pos.x - offset.x, pos.y - offset.y), render });
        }
        i = i + 1;
    }
    draws
}

} // verus!
