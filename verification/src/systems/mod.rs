//! The decisions each system of the game loop makes in a turn, and the order they run in.

pub mod chasing;
pub mod collision_detection;
pub mod combat;
pub mod end_turn;
pub mod entity_render;
pub mod hud;
pub mod map_render;
pub mod movement;
pub mod player_input;
pub mod random_move;
pub mod tooltips;

use vstd::prelude::*;

verus! {

/// One stage of the per-frame schedule.
#[derive(Clone, Copy, Debug, PartialEq, Eq, Structural)]
pub enum ScheduleStep {
    EntityRender,
    MapRender,
    PlayerInput,
    CollisionDetection,
    /// Applies the commands queued so far before the stages after it run.
    Flush,
    RandomMove,
}

/// The order of the per-frame schedule.
pub open spec fn schedule_order() -> Seq<ScheduleStep> {
    seq![
        ScheduleStep::EntityRender,
        ScheduleStep::MapRender,
        ScheduleStep::PlayerInput,
        ScheduleStep::CollisionDetection,
        ScheduleStep::Flush,
        ScheduleStep::RandomMove,
    ]
}

/// The stages of the per-frame schedule, in the order they run: drawing, then input and
/// collisions, then a flush, then the wanderers.
pub fn build_scheduler() -> (steps: Vec<ScheduleStep>)
    ensures
        steps@ == schedule_order(),
{
    let mut steps: Vec<ScheduleStep> = Vec::new();
    steps.push(ScheduleStep::EntityRender);
    steps.push(ScheduleStep::MapRender);
    steps.push(ScheduleStep::PlayerInput);
    steps.push(ScheduleStep::CollisionDetection);
    steps.push(ScheduleStep::Flush);
    steps.push(ScheduleStep::RandomMove);
    assert(steps@ =~= schedule_order());
    steps
}

/// Collision detection runs after the player's input, and the wanderers only after the
/// flush that applies the player's commands.
pub proof fn lemma_schedule_order()
    ensures
        schedule_order().index_of(ScheduleStep::PlayerInput) < schedule_order().index_of(ScheduleStep::CollisionDetection),
        schedule_order().index_of(ScheduleStep::CollisionDetection) < schedule_order().index_of(ScheduleStep::Flush),
        schedule_order().index_of(ScheduleStep::Flush) < schedule_order().index_of(ScheduleStep::RandomMove),
{
    let s = schedule_order();
    assert(s[2] == ScheduleStep::PlayerInput);
    assert(s[3] == ScheduleStep::CollisionDetection);
    assert(s[4] == ScheduleStep::Flush);
    assert(s[5] == ScheduleStep::RandomMove);
}

} // verus!
