//! Which map tiles are drawn, and in which tint.

use vstd::prelude::*;
use crate::camera::Camera;
use crate::components::{FieldOfView, NamedColor};
use crate::geometry::Point;
use crate::map::{get_map_idx, spec_in_bounds, spec_map_idx, DungeonMap, TileType};
use crate::{SCREEN_HEIGHT, SCREEN_WIDTH};

verus! {

/// A map tile to draw at a screen position.
#[derive(Clone, Copy, Debug, PartialEq, Eq, Structural)]
pub struct TileDraw {
    pub screen: Point,
    pub tint: NamedColor,
    pub tile: TileType,
}

/// The draw for the map point `(x, y)`, if it is on the map and seen now or before: white
/// when in sight, dark grey when only remembered.
pub open spec fn tile_draw(map: &DungeonMap, fov: &FieldOfView, camera: &Camera, x: int, y: int) -> Option<TileDraw> {
    let p = Point { x: x as i32, y: y as i32 };
    let visible = fov.visible_tiles@.contains(p);
    if spec_in_bounds(x, y) && (visible || map.revealed_tiles@[spec_map_idx(x, y)]) {
        Some(TileDraw {
            screen: Point { x: (x - camera.left_x) as i32, y: (y - camera.top_y) as i32 },
            tint: if visible { NamedColor::White } else { NamedColor::DarkGrey },
            tile: map.tiles@[spec_map_idx(x, y)],
        })
    } else {
        None
    }
}

/// The draws of row `y` for the columns from the camera's left edge up to `x`, excluded.
pub open spec fn row_draws(map: &DungeonMap, fov: &FieldOfView, camera: &Camera, y: int, x: int) -> Seq<TileDraw>
    decreases x - camera.left_x,
{
    if x <= camera.left_x {
        Seq::empty()
    } else {
        let rest = row_draws(map, fov, camera, y, x - 1);
        match tile_draw(map, fov, camera, x - 1, y) {
            Some(d) => rest.push(d),
            None => rest,
        }
    }
}

/// The draws of the rows from the camera's top edge up to `y`, excluded.
pub open spec fn map_draws(map: &DungeonMap, fov: &FieldOfView, camera: &Camera, y: int) -> Seq<TileDraw>
    decreases y - camera.top_y,
{
    if y <= camera.top_y {
        Seq::empty()
    } else {
        map_draws(map, fov, camera, y - 1) + row_draws(map, fov, camera, y - 1, camera.right_x as int)
    }
}

/// Whether every map point can be shifted by the camera's top-left corner within the `i32`
/// range.
pub open spec fn camera_fits_map(camera: &Camera) -> bool {
    camera.left_x >= SCREEN_WIDTH - 1 - i32::MAX && camera.top_y >= SCREEN_HEIGHT - 1 - i32::MAX
}

/// The map tiles in the camera's window, row by row from the top (its bottom row included),
/// that the player sees or has seen.
pub fn map_render(map: &DungeonMap, camera: &Camera, player_fov: &FieldOfView) -> (draws: Vec<TileDraw>)
    requires
        map.wf(),
        camera_fits_map(camera),
    ensures
        draws@ == map_draws(map, player_fov, camera, camera.bottom_y + 1),
{
    let mut draws: Vec<TileDraw> = Vec::new();
    if camera.top_y > camera.bottom_y {
        assert(draws@ =~= map_draws(map, player_fov, camera, camera.bottom_y + 1));
        return draws;
    }
    let mut y: i32 = camera.top_y;
    loop
        invariant_except_break
            draws@ == map_draws(map, player_fov, camera, y as int),
        invariant
            map.wf(),
            camera_fits_map(camera),
            camera.top_y <= y <= camera.bottom_y,
        ensures
            draws@ == map_draws(map, player_fov, camera, camera.bottom_y + 1),
        decreases camera.bottom_y - y,
    {
        let ghost before = draws@;
        let mut x: i32 = camera.left_x;
        if camera.left_x < camera.right_x {
            while x < camera.right_x
                invariant
                    map.wf(),
                    camera_fits_map(camera),
                    camera.top_y <= y <= camera.bottom_y,
                    camera.left_x <= x <= camera.right_x,
                    draws@ == before + row_draws(map, player_fov, camera, y as int, x as int),
                decreases camera.right_x - x,
            {
                let pt = Point::new(x, y);
                let is_point_visible = player_fov.contains(pt);
                if map.in_bounds(pt) {
                    let idx = get_map_idx(x, y);
                    if is_point_visible || map.revealed_tiles[idx] {
                        let tint = if is_point_visible { NamedColor::White } else { NamedColor::DarkGrey };
                        draws.push(TileDraw {
                            screen: Point::new(x - camera.left_x, y - camera.top_y),
                            tint,
                            tile: map.tiles[idx],
                        });
                        assert(draws@ =~= before + row_draws(map, player_fov, camera, y as int, x + 1));
                    }
                }
                x = x + 1;
            }
        } else {
            assert(draws@ =~= before + row_draws(map, player_fov, camera, y as int, camera.right_x as int));
        }
        assert(draws@ =~= map_draws(map, player_fov, camera, y + 1));
        if y == camera.bottom_y {
            break;
        }
        y = y + 1;
    }
    draws
}

} // verus!
