use bracket_lib::prelude::RandomNumberGenerator;
use rusty_roguelike::camera::Camera;
use rusty_roguelike::components::{
    ActivateItem, FieldOfView, Health, Located, Message, NamedColor, Player, Render, ColorPair,
    WantsToAttack, WantsToMove,
};
use rusty_roguelike::geometry::Point;
use rusty_roguelike::map::{get_map_idx, DungeonMap, TileType};
use rusty_roguelike::systems::build_scheduler;
use rusty_roguelike::systems::ScheduleStep;
use rusty_roguelike::systems::chasing::{chasing, Chaser, Occupant};
use rusty_roguelike::systems::collision_detection::collision_detection;
use rusty_roguelike::systems::combat::{combat, AttackMessage};
use rusty_roguelike::systems::end_turn::{end_turn, PlayerStatus};
use rusty_roguelike::systems::entity_render::entity_render;
use rusty_roguelike::systems::hud::{hud, HudItem};
use rusty_roguelike::systems::map_render::map_render;
use rusty_roguelike::systems::movement::{movement, MoveTarget};
use rusty_roguelike::systems::player_input::{player_input, use_item, CarriedItem, GameKey};
use rusty_roguelike::systems::random_move::{random_move, random_move_with};
use rusty_roguelike::systems::tooltips::{tooltips, NamedEntity};
use rusty_roguelike::turn_state::TurnState;

fn fov_with(tiles: &[Point]) -> FieldOfView {
    let mut f = FieldOfView::new(8);
    f.visible_tiles = tiles.to_vec();
    f
}

#[test]
fn chaser_steps_along_lowest_exit() {
    let map = DungeonMap::new();
    let player = Point::new(10, 10);
    let movers = vec![Chaser {
        entity: 5,
        pos: Point::new(10, 14),
        fov: fov_with(&[player]),
        lowest_exit: Some(get_map_idx(10, 13)),
    }];
    let msgs = chasing(&map, player, &movers, &vec![]);
    assert_eq!(msgs, vec![Message::Move(WantsToMove { entity: 5, destination: Point::new(10, 13) })]);
}

#[test]
fn chaser_next_to_player_attacks() {
    let map = DungeonMap::new();
    let player = Point::new(10, 10);
    let movers = vec![Chaser { entity: 5, pos: Point::new(10, 11), fov: fov_with(&[player]), lowest_exit: Some(0) }];
    let occupants = vec![Occupant { entity: 1, pos: player, is_player: true }];
    let msgs = chasing(&map, player, &movers, &occupants);
    assert_eq!(msgs, vec![Message::Attack(WantsToAttack { attacker: 5, victim: 1 })]);
}

#[test]
fn chaser_diagonal_to_player_follows_the_map() {
    let map = DungeonMap::new();
    let player = Point::new(10, 10);
    let movers = vec![Chaser { entity: 5, pos: Point::new(11, 11), fov: fov_with(&[player]), lowest_exit: Some(get_map_idx(11, 10)) }];
    let msgs = chasing(&map, player, &movers, &vec![]);
    assert_eq!(msgs, vec![Message::Move(WantsToMove { entity: 5, destination: Point::new(11, 10) })]);
}

#[test]
fn chasers_never_share_a_destination() {
    let map = DungeonMap::new();
    let player = Point::new(10, 10);
    let exit = get_map_idx(10, 12);
    let movers = vec![
        Chaser { entity: 5, pos: Point::new(10, 13), fov: fov_with(&[player]), lowest_exit: Some(exit) },
        Chaser { entity: 6, pos: Point::new(11, 12), fov: fov_with(&[player]), lowest_exit: Some(exit) },
        Chaser { entity: 7, pos: Point::new(30, 30), fov: fov_with(&[]), lowest_exit: Some(exit) },
    ];
    let msgs = chasing(&map, player, &movers, &vec![]);
    assert_eq!(msgs, vec![Message::Move(WantsToMove { entity: 5, destination: Point::new(10, 12) })]);
}

#[test]
fn chaser_blocked_by_other_monster_stays() {
    let map = DungeonMap::new();
    let player = Point::new(10, 10);
    let movers = vec![Chaser { entity: 5, pos: Point::new(10, 14), fov: fov_with(&[player]), lowest_exit: Some(get_map_idx(10, 13)) }];
    let occupants = vec![Occupant { entity: 9, pos: Point::new(10, 13), is_player: false }];
    assert!(chasing(&map, player, &movers, &occupants).is_empty());
}

#[test]
fn combat_takes_one_hit_point_per_attack() {
    let attacks = vec![
        AttackMessage { messenger: 10, intent: WantsToAttack { attacker: 0, victim: 1 } },
        AttackMessage { messenger: 11, intent: WantsToAttack { attacker: 0, victim: 1 } },
        AttackMessage { messenger: 12, intent: WantsToAttack { attacker: 1, victim: 0 } },
        AttackMessage { messenger: 13, intent: WantsToAttack { attacker: 1, victim: 2 } },
    ];
    let mut health = vec![Some(Health { current: 3, max: 3 }), Some(Health { current: 2, max: 2 }), None];
    let removed = combat(&attacks, &mut health);
    assert_eq!(health[0], Some(Health { current: 2, max: 3 }));
    assert_eq!(health[1], Some(Health { current: 0, max: 2 }));
    assert_eq!(health[2], None);
    assert_eq!(removed, vec![10, 1, 11, 12, 13]);
}

#[test]
fn end_turn_cycles_turns() {
    let map = DungeonMap::new();
    let alive = vec![PlayerStatus { health: Health { current: 5, max: 5 }, pos: Point::new(3, 3) }];
    let mut s = TurnState::AwaitingInput;
    end_turn(&mut s, &alive, false, &map);
    assert_eq!(s, TurnState::AwaitingInput);
    s = TurnState::PlayerTurn;
    end_turn(&mut s, &alive, false, &map);
    assert_eq!(s, TurnState::MonsterTurn);
    end_turn(&mut s, &alive, false, &map);
    assert_eq!(s, TurnState::AwaitingInput);
}

#[test]
fn end_turn_detects_death_victory_and_exit() {
    let mut map = DungeonMap::new();
    map.tiles[get_map_idx(3, 3)] = TileType::Exit;
    let dead = vec![PlayerStatus { health: Health { current: 0, max: 5 }, pos: Point::new(1, 1) }];
    let on_exit = vec![PlayerStatus { health: Health { current: 5, max: 5 }, pos: Point::new(3, 3) }];
    let mut s = TurnState::PlayerTurn;
    end_turn(&mut s, &dead, true, &map);
    assert_eq!(s, TurnState::GameOver);
    s = TurnState::MonsterTurn;
    end_turn(&mut s, &on_exit, true, &map);
    assert_eq!(s, TurnState::Victory);
    s = TurnState::MonsterTurn;
    end_turn(&mut s, &on_exit, false, &map);
    assert_eq!(s, TurnState::NextLevel);
    s = TurnState::GameOver;
    end_turn(&mut s, &vec![], false, &map);
    assert_eq!(s, TurnState::GameOver);
}

#[test]
fn movement_moves_player_and_reveals() {
    let mut map = DungeonMap::new();
    let mut camera = Camera::new(Point::new(5, 5));
    let seen = [Point::new(6, 5), Point::new(7, 5)];
    let target = MoveTarget { fov: Some(fov_with(&seen)), is_player: true };
    let intent = WantsToMove { entity: 1, destination: Point::new(6, 5) };
    let out = movement(42, &intent, &mut map, &mut camera, &target);
    assert_eq!(out.remove, 42);
    assert_eq!(out.new_position, Some((1, Point::new(6, 5))));
    let f = out.new_fov.unwrap();
    assert!(f.is_dirty && f.visible_tiles.is_empty() && f.radius == 8);
    assert_eq!(camera.left_x, 6 - 20);
    assert!(map.revealed_tiles[get_map_idx(6, 5)]);
    assert!(map.revealed_tiles[get_map_idx(7, 5)]);
    assert_eq!(map.revealed_tiles.iter().filter(|r| **r).count(), 2);
}

#[test]
fn movement_into_wall_is_refused() {
    let mut map = DungeonMap::new();
    map.tiles[get_map_idx(6, 5)] = TileType::Wall;
    let mut camera = Camera::new(Point::new(5, 5));
    let target = MoveTarget { fov: Some(fov_with(&[Point::new(6, 5)])), is_player: true };
    let intent = WantsToMove { entity: 1, destination: Point::new(6, 5) };
    let out = movement(42, &intent, &mut map, &mut camera, &target);
    assert_eq!(out.new_position, None);
    assert!(out.new_fov.is_none());
    assert_eq!(camera.left_x, 5 - 20);
    assert!(map.revealed_tiles.iter().all(|r| !*r));
}

#[test]
fn movement_of_monster_leaves_camera() {
    let mut map = DungeonMap::new();
    let mut camera = Camera::new(Point::new(5, 5));
    let target = MoveTarget { fov: None, is_player: false };
    let intent = WantsToMove { entity: 3, destination: Point::new(9, 9) };
    let out = movement(7, &intent, &mut map, &mut camera, &target);
    assert_eq!(out.new_position, Some((3, Point::new(9, 9))));
    assert!(out.new_fov.is_none());
    assert_eq!(camera.left_x, 5 - 20);
}

#[test]
fn player_input_moves_or_attacks() {
    let enemies = vec![Located { entity: 8, pos: Point::new(5, 4) }];
    let items = vec![];
    let mut s = TurnState::AwaitingInput;
    let msgs = player_input(Some(GameKey::Up), 1, Point::new(5, 5), &enemies, &items, &mut s);
    assert_eq!(msgs, vec![Message::Attack(WantsToAttack { attacker: 1, victim: 8 })]);
    assert_eq!(s, TurnState::PlayerTurn);
    let mut s = TurnState::AwaitingInput;
    let msgs = player_input(Some(GameKey::Left), 1, Point::new(5, 5), &enemies, &items, &mut s);
    assert_eq!(msgs, vec![Message::Move(WantsToMove { entity: 1, destination: Point::new(4, 5) })]);
}

#[test]
fn player_input_without_key_does_nothing() {
    let mut s = TurnState::AwaitingInput;
    let msgs = player_input(None, 1, Point::new(5, 5), &vec![], &vec![], &mut s);
    assert!(msgs.is_empty());
    assert_eq!(s, TurnState::AwaitingInput);
    let msgs = player_input(Some(GameKey::Other), 1, Point::new(5, 5), &vec![], &vec![], &mut s);
    assert!(msgs.is_empty());
    assert_eq!(s, TurnState::PlayerTurn);
}

#[test]
fn number_key_uses_matching_item() {
    let items = vec![
        CarriedItem { entity: 20, carrier: 1, is_weapon: false },
        CarriedItem { entity: 21, carrier: 2, is_weapon: false },
        CarriedItem { entity: 22, carrier: 1, is_weapon: true },
        CarriedItem { entity: 23, carrier: 1, is_weapon: false },
    ];
    let mut s = TurnState::AwaitingInput;
    let msgs = player_input(Some(GameKey::Key2), 1, Point::new(5, 5), &vec![], &items, &mut s);
    assert_eq!(msgs, vec![Message::Activate(ActivateItem { used_by: 1, item: 23 })]);
    let msgs = player_input(Some(GameKey::Key3), 1, Point::new(5, 5), &vec![], &items, &mut s);
    assert!(msgs.is_empty());
    let mut out = Vec::new();
    assert_eq!(use_item(0, 1, &items, &mut out), Point::new(0, 0));
    assert_eq!(out, vec![Message::Activate(ActivateItem { used_by: 1, item: 20 })]);
}

#[test]
fn wanderers_follow_their_rolls() {
    let movers = vec![Located { entity: 3, pos: Point::new(5, 5) }, Located { entity: 4, pos: Point::new(9, 9) }];
    let occupants = vec![
        Occupant { entity: 1, pos: Point::new(4, 5), is_player: true },
        Occupant { entity: 6, pos: Point::new(9, 8), is_player: false },
    ];
    let msgs = random_move_with(&movers, &occupants, &vec![0, 2]);
    assert_eq!(msgs, vec![Message::Attack(WantsToAttack { attacker: 3, victim: 1 })]);
    let msgs = random_move_with(&movers, &occupants, &vec![1, 3]);
    assert_eq!(msgs, vec![
        Message::Move(WantsToMove { entity: 3, destination: Point::new(6, 5) }),
        Message::Move(WantsToMove { entity: 4, destination: Point::new(9, 10) }),
    ]);
}

#[test]
fn wanderers_step_one_tile() {
    let movers = vec![Located { entity: 3, pos: Point::new(5, 5) }];
    for _ in 0..20 {
        let msgs = random_move(&movers, &vec![]);
        assert_eq!(msgs.len(), 1);
        match msgs[0] {
            Message::Move(m) => {
                let d = (m.destination.x - 5).abs() + (m.destination.y - 5).abs();
                assert_eq!(d, 1);
            }
            _ => panic!("expected a move"),
        }
    }
}

#[test]
fn collision_removes_enemies_on_player_tile() {
    let enemies = vec![
        Located { entity: 3, pos: Point::new(5, 5) },
        Located { entity: 4, pos: Point::new(6, 5) },
        Located { entity: 5, pos: Point::new(5, 5) },
    ];
    assert_eq!(collision_detection(&vec![Point::new(5, 5)], &enemies), vec![3, 5]);
    assert_eq!(collision_detection(&vec![], &vec![Located { entity: 9, pos: Point::new(0, 0) }]), vec![9]);
}

#[test]
fn scheduler_runs_collisions_after_input() {
    assert_eq!(build_scheduler(), vec![
        ScheduleStep::EntityRender,
        ScheduleStep::MapRender,
        ScheduleStep::PlayerInput,
        ScheduleStep::CollisionDetection,
        ScheduleStep::Flush,
        ScheduleStep::RandomMove,
    ]);
}

#[test]
fn entity_render_draws_visible_entities_relative_to_camera() {
    let camera = Camera::new(Point::new(40, 25));
    let r = Render { color: ColorPair::new(NamedColor::White, NamedColor::Black), glyph: 64 };
    let fov = fov_with(&[Point::new(41, 25)]);
    let draws = entity_render(&camera, &fov, &vec![(Point::new(41, 25), r), (Point::new(42, 25), r)]);
    assert_eq!(draws.len(), 1);
    assert_eq!(draws[0].screen, Point::new(21, 12));
}

#[test]
fn map_render_draws_seen_and_remembered_tiles() {
    let mut map = DungeonMap::new();
    map.revealed_tiles[get_map_idx(0, 0)] = true;
    let camera = Camera::new(Point::new(0, 0));
    let fov = fov_with(&[Point::new(1, 0)]);
    let draws = map_render(&map, &camera, &fov);
    assert_eq!(draws.len(), 2);
    assert_eq!(draws[0].screen, Point::new(20, 12));
    assert_eq!(draws[0].tint, NamedColor::DarkGrey);
    assert_eq!(draws[1].screen, Point::new(21, 12));
    assert_eq!(draws[1].tint, NamedColor::White);
    assert_eq!(draws[1].tile, TileType::Floor);
}

#[test]
fn hud_lists_inventory_in_key_order() {
    let items = vec![
        HudItem { item: CarriedItem { entity: 20, carrier: 1, is_weapon: false }, name: "Potion".to_string(), damage: None },
        HudItem { item: CarriedItem { entity: 22, carrier: 1, is_weapon: true }, name: "Sword".to_string(), damage: Some(3) },
        HudItem { item: CarriedItem { entity: 23, carrier: 1, is_weapon: false }, name: "Map".to_string(), damage: None },
        HudItem { item: CarriedItem { entity: 24, carrier: 2, is_weapon: false }, name: "Other".to_string(), damage: None },
    ];
    let view = hud(Health { current: 4, max: 10 }, Player { map_level: 2 }, 1, &items);
    assert_eq!(view.level, 3);
    assert_eq!(view.health, Health { current: 4, max: 10 });
    assert_eq!(view.inventory, vec![(20, "Potion".to_string()), (23, "Map".to_string())]);
    assert_eq!(view.weapons, vec![("Sword".to_string(), 3)]);
    let carried: Vec<CarriedItem> = items.iter().map(|h| h.item).collect();
    let mut out = Vec::new();
    use_item(1, 1, &carried, &mut out);
    assert_eq!(out, vec![Message::Activate(ActivateItem { used_by: 1, item: view.inventory[1].0 })]);
}

#[test]
fn tooltips_name_visible_entity_under_mouse() {
    let camera = Camera::new(Point::new(40, 25));
    let fov = fov_with(&[Point::new(22, 15)]);
    let named = vec![
        NamedEntity { entity: 1, pos: Point::new(22, 15), name: "Goblin".to_string(), health: Some(Health { current: 1, max: 1 }) },
        NamedEntity { entity: 2, pos: Point::new(23, 15), name: "Potion".to_string(), health: None },
    ];
    let tips = tooltips(&camera, Point::new(2, 2), &fov, &named);
    assert_eq!(tips.len(), 1);
    assert_eq!(tips[0].name, "Goblin");
    assert_eq!(tips[0].hp, Some(1));
    assert_eq!(tips[0].screen, Point::new(8, 8));
    assert!(tooltips(&camera, Point::new(3, 2), &fov, &named).is_empty());
}

#[test]
fn field_of_view_clone_dirty_forgets_tiles() {
    let f = fov_with(&[Point::new(1, 1)]);
    assert!(f.contains(Point::new(1, 1)));
    assert!(!f.contains(Point::new(2, 1)));
    let g = f.clone_dirty();
    assert_eq!(g.radius, 8);
    assert!(g.is_dirty && g.visible_tiles.is_empty());
    let _ = RandomNumberGenerator::seeded(0);
}

#[test]
fn map_render_draws_any_window() {
    let mut map = DungeonMap::new();
    map.revealed_tiles[get_map_idx(2, 3)] = true;
    map.revealed_tiles[get_map_idx(79, 49)] = true;
    let fov = fov_with(&[]);
    let wide = Camera { left_x: 0, right_x: 80, top_y: 0, bottom_y: 49 };
    let draws = map_render(&map, &wide, &fov);
    assert_eq!(draws.len(), 2);
    assert_eq!(draws[1].screen, Point::new(79, 49));
    let empty = Camera { left_x: 5, right_x: 5, top_y: 7, bottom_y: 3 };
    assert!(map_render(&map, &empty, &fov).is_empty());
}
