//! The camera: which part of the map the window shows.

use vstd::prelude::*;
use crate::geometry::Point;
use crate::{DISPLAY_HEIGHT, DISPLAY_WIDTH};

verus! {

/// The window onto the map; `right_x` and `bottom_y` lie one past the shown area.
pub struct Camera {
    pub left_x: i32,
    pub right_x: i32,
    pub top_y: i32,
    pub bottom_y: i32,
}

/// Whether the camera can be centred on `p` without leaving the `i32` range.
pub open spec fn camera_position_fits(p: Point) -> bool {
    i32::MIN + DISPLAY_WIDTH / 2 <= p.x <= i32::MAX - DISPLAY_WIDTH / 2
        && i32::MIN + DISPLAY_HEIGHT / 2 <= p.y <= i32::MAX - DISPLAY_HEIGHT / 2 - 1
}

impl Camera {
    /// Whether the camera shows the window centred on `p`.
    pub open spec fn centred_on(&self, p: Point) -> bool {
        &&& self.left_x == p.x - DISPLAY_WIDTH / 2
        &&& self.right_x == p.x - DISPLAY_WIDTH / 2 + DISPLAY_WIDTH
        &&& self.top_y == p.y - DISPLAY_HEIGHT / 2
        &&& self.bottom_y == p.y - DISPLAY_HEIGHT / 2 + DISPLAY_HEIGHT
    }

    /// A camera centred on `initial_position`.
    pub fn new(initial_position: Point) -> (c: Camera)
        requires
            camera_position_fits(initial_position),
        ensures
            c.centred_on(initial_position),
    {
        let mut camera = Camera { left_x: 0, right_x: 0, top_y: 0, bottom_y: 0 };
        camera.set_position(initial_position);
        camera
    }

    /// Centres the camera on `position`.
    pub fn set_position(&mut self, position: Point)
        requires
            camera_position_fits(position),
        ensures
            final(self).centred_on(position),
    {
        self.left_x = position.x - DISPLAY_WIDTH / 2;
        self.right_x = position.x - DISPLAY_WIDTH / 2 + DISPLAY_WIDTH;
        self.top_y = position.y - DISPLAY_HEIGHT / 2;
        self.bottom_y = position.y - DISPLAY_HEIGHT / 2 + DISPLAY_HEIGHT;
    }
}

/// Wherever it is centred, the camera shows a window exactly `DISPLAY_WIDTH` wide and
/// `DISPLAY_HEIGHT` high, with the centre point inside it.
pub proof fn lemma_camera_window(c: Camera, p: Point)
    requires
        c.centred_on(p),
    ensures
        c.right_x - c.left_x == DISPLAY_WIDTH,
        c.bottom_y - c.top_y == DISPLAY_HEIGHT,
        c.left_x <= p.x < c.right_x,
        c.top_y <= p.y < c.bottom_y,
{
}

} // verus!
