use snake_sim::game::Game;
use snake_sim::geometry::{is_in_bounds, resolve_pressed, Direction, Position};

fn pos(x: i32, y: i32) -> Position {
    Position { x, y }
}

fn game_with(segments: Vec<Position>, heading: Direction) -> Game {
    Game {
        segments,
        heading,
        food: None,
        last_tail_position: None,
        growth_events: 0,
        game_over_events: 0,
    }
}

#[test]
fn opposite_is_involutive() {
    for d in [Direction::Left, Direction::Right, Direction::Up, Direction::Down] {
        assert_eq!(d.opposite().opposite(), d);
    }
}

#[test]
fn opposite_maps_each_direction() {
    assert_eq!(Direction::Left.opposite(), Direction::Right);
    assert_eq!(Direction::Right.opposite(), Direction::Left);
    assert_eq!(Direction::Up.opposite(), Direction::Down);
    assert_eq!(Direction::Down.opposite(), Direction::Up);
}

#[test]
fn input_rejects_reversal() {
    for d in [Direction::Left, Direction::Right, Direction::Up, Direction::Down] {
        let mut g = game_with(vec![pos(3, 3), pos(3, 2)], d);
        g.snake_input_moviment(Some(d.opposite()));
        assert_eq!(g.heading, d);
    }
}

#[test]
fn input_accepts_turn() {
    let mut g = game_with(vec![pos(3, 3), pos(3, 2)], Direction::Up);
    g.snake_input_moviment(Some(Direction::Left));
    assert_eq!(g.heading, Direction::Left);
}

#[test]
fn input_without_request_keeps_heading() {
    let mut g = game_with(vec![pos(3, 3), pos(3, 2)], Direction::Right);
    g.snake_input_moviment(None);
    assert_eq!(g.heading, Direction::Right);
}

#[test]
fn pressed_keys_resolve_with_precedence() {
    assert_eq!(resolve_pressed(true, true, true, true), Some(Direction::Left));
    assert_eq!(resolve_pressed(false, true, true, true), Some(Direction::Right));
    assert_eq!(resolve_pressed(false, false, true, true), Some(Direction::Down));
    assert_eq!(resolve_pressed(false, false, false, true), Some(Direction::Up));
    assert_eq!(resolve_pressed(false, false, false, false), None);
}

#[test]
fn bounds_check_edges() {
    assert!(is_in_bounds(pos(0, 0)));
    assert!(is_in_bounds(pos(9, 9)));
    assert!(!is_in_bounds(pos(-1, 3)));
    assert!(!is_in_bounds(pos(10, 3)));
    assert!(!is_in_bounds(pos(3, -1)));
    assert!(!is_in_bounds(pos(3, 10)));
}

#[test]
fn movement_shifts_whole_body() {
    let mut g = game_with(vec![pos(4, 4), pos(4, 3), pos(5, 3)], Direction::Up);
    g.snake_movement();
    assert_eq!(g.segments, vec![pos(4, 5), pos(4, 4), pos(4, 3)]);
    assert_eq!(g.last_tail_position, Some(pos(5, 3)));
    assert_eq!(g.game_over_events, 0);
    assert_eq!(g.growth_events, 0);
}

#[test]
fn movement_steps_one_unit_each_heading() {
    for (d, expected) in [
        (Direction::Left, pos(3, 3)),
        (Direction::Right, pos(5, 3)),
        (Direction::Up, pos(4, 4)),
        (Direction::Down, pos(4, 2)),
    ] {
        let mut g = game_with(vec![pos(4, 3)], d);
        g.snake_movement();
        assert_eq!(g.segments[0], expected);
    }
}

#[test]
fn movement_on_empty_snake_is_noop() {
    let mut g = game_with(vec![], Direction::Up);
    g.snake_movement();
    assert_eq!(g.segments, Vec::<Position>::new());
    assert_eq!(g.last_tail_position, None);
    assert_eq!(g.game_over_events, 0);
}

#[test]
fn boundary_violation_fires_on_each_wall() {
    let walls = [
        (pos(0, 5), Direction::Left),
        (pos(9, 5), Direction::Right),
        (pos(5, 9), Direction::Up),
        (pos(5, 0), Direction::Down),
    ];
    for (head, heading) in walls {
        let mut g = game_with(vec![head], heading);
        g.snake_movement();
        assert_eq!(g.game_over_events, 1);
    }
}

#[test]
fn in_bounds_move_fires_no_boundary_event() {
    let mut g = game_with(vec![pos(5, 5), pos(5, 4)], Direction::Up);
    g.snake_movement();
    assert_eq!(g.game_over_events, 0);
}

#[test]
fn self_collision_fires_game_over() {
    // moving left from (4,4) lands on the body cell (3,4)
    let mut g = game_with(
        vec![pos(4, 4), pos(4, 3), pos(3, 3), pos(3, 4)],
        Direction::Left,
    );
    g.snake_movement();
    assert_eq!(g.game_over_events, 1);
}

#[test]
fn no_self_collision_without_overlap() {
    let mut g = game_with(vec![pos(4, 4), pos(4, 3), pos(3, 3)], Direction::Up);
    g.snake_movement();
    assert_eq!(g.game_over_events, 0);
}

#[test]
fn tail_cell_counts_as_occupied_at_check_time() {
    // the new head lands exactly on the cell the tail is about to vacate;
    // the check runs against the pre-move snapshot, so the game is over
    let mut g = game_with(vec![pos(3, 3), pos(4, 3), pos(4, 4), pos(3, 4)], Direction::Up);
    g.snake_movement();
    assert_eq!(g.game_over_events, 1);
}

#[test]
fn eating_consumes_food_and_queues_one_growth() {
    let mut g = game_with(vec![pos(3, 4), pos(3, 3)], Direction::Up);
    g.food = Some(pos(3, 4));
    g.snake_eating();
    assert_eq!(g.food, None);
    assert_eq!(g.growth_events, 1);
}

#[test]
fn eating_ignores_food_elsewhere() {
    let mut g = game_with(vec![pos(3, 4), pos(3, 3)], Direction::Up);
    g.food = Some(pos(7, 7));
    g.snake_eating();
    assert_eq!(g.food, Some(pos(7, 7)));
    assert_eq!(g.growth_events, 0);
}

#[test]
fn growth_appends_one_segment_at_vacated_cell() {
    let mut g = game_with(vec![pos(3, 4), pos(3, 3)], Direction::Up);
    g.last_tail_position = Some(pos(3, 2));
    g.growth_events = 1;
    g.snake_growth();
    assert_eq!(g.segments, vec![pos(3, 4), pos(3, 3), pos(3, 2)]);
    assert_eq!(g.growth_events, 0);
}

#[test]
fn growth_appends_at_most_one_segment_per_pass() {
    let mut g = game_with(vec![pos(3, 4), pos(3, 3)], Direction::Up);
    g.last_tail_position = Some(pos(3, 2));
    g.growth_events = 2;
    g.snake_growth();
    assert_eq!(g.segments.len(), 3);
    assert_eq!(g.growth_events, 0);
}

#[test]
fn growth_without_signal_is_noop() {
    let mut g = game_with(vec![pos(3, 4), pos(3, 3)], Direction::Up);
    g.last_tail_position = Some(pos(3, 2));
    g.snake_growth();
    assert_eq!(g.segments.len(), 2);
}

#[test]
fn game_over_resets_state() {
    let mut g = game_with(vec![pos(7, 7), pos(7, 6), pos(6, 6)], Direction::Right);
    g.food = Some(pos(1, 1));
    g.last_tail_position = Some(pos(5, 6));
    g.game_over_events = 1;
    g.game_over();
    assert_eq!(g.segments, vec![pos(3, 3), pos(3, 2)]);
    assert_eq!(g.heading, Direction::Up);
    assert_eq!(g.food, None);
    assert_eq!(g.last_tail_position, None);
    assert_eq!(g.growth_events, 0);
    assert_eq!(g.game_over_events, 0);
}

#[test]
fn duplicate_game_over_signals_coalesce() {
    let mut g = game_with(vec![pos(7, 7), pos(7, 6)], Direction::Right);
    g.game_over_events = 2;
    g.game_over();
    assert_eq!(g.segments, vec![pos(3, 3), pos(3, 2)]);
    assert_eq!(g.game_over_events, 0);
}

#[test]
fn game_over_without_signal_is_noop() {
    let mut g = game_with(vec![pos(7, 7), pos(7, 6)], Direction::Right);
    g.food = Some(pos(1, 1));
    g.game_over();
    assert_eq!(g.segments, vec![pos(7, 7), pos(7, 6)]);
    assert_eq!(g.food, Some(pos(1, 1)));
}

#[test]
fn new_game_starts_at_spawn() {
    let g = Game::new();
    assert_eq!(g.segments, vec![pos(3, 3), pos(3, 2)]);
    assert_eq!(g.heading, Direction::Up);
    assert_eq!(g.food, None);
    assert_eq!(g.last_tail_position, None);
    assert_eq!(g.growth_events, 0);
    assert_eq!(g.game_over_events, 0);
}

#[test]
fn spawn_segment_appends_to_tail() {
    let mut g = game_with(vec![pos(3, 3), pos(3, 2)], Direction::Up);
    g.spawn_segment(pos(3, 1));
    assert_eq!(g.segments, vec![pos(3, 3), pos(3, 2), pos(3, 1)]);
}

#[test]
fn spawn_snake_resets_segments_and_heading_only() {
    let mut g = game_with(vec![pos(7, 7)], Direction::Left);
    g.food = Some(pos(1, 1));
    g.spawn_snake();
    assert_eq!(g.segments, vec![pos(3, 3), pos(3, 2)]);
    assert_eq!(g.heading, Direction::Up);
    assert_eq!(g.food, Some(pos(1, 1)));
}

#[test]
fn step_moves_one_unit() {
    assert_eq!(pos(4, 4).step(Direction::Left), pos(3, 4));
    assert_eq!(pos(4, 4).step(Direction::Right), pos(5, 4));
    assert_eq!(pos(4, 4).step(Direction::Up), pos(4, 5));
    assert_eq!(pos(4, 4).step(Direction::Down), pos(4, 3));
}

#[test]
fn contains_position_finds_cells() {
    let cells = vec![pos(1, 1), pos(2, 2)];
    assert!(snake_sim::game::contains_position(&cells, pos(2, 2)));
    assert!(!snake_sim::game::contains_position(&cells, pos(3, 3)));
    assert!(!snake_sim::game::contains_position(&Vec::new(), pos(0, 0)));
}

#[test]
fn tick_without_movement_only_resolves_input() {
    let mut g = Game::new();
    g.tick(Some(Direction::Right), false, false);
    assert_eq!(g.heading, Direction::Right);
    assert_eq!(g.segments, vec![pos(3, 3), pos(3, 2)]);
    assert_eq!(g.food, None);
}

#[test]
fn food_spawner_places_food_inside_arena() {
    for _ in 0..50 {
        let mut g = Game::new();
        g.food_spawner();
        let f = g.food.expect("a food item is placed");
        assert!(0 <= f.x && f.x < 10);
        assert!(0 <= f.y && f.y < 10);
        assert_eq!(g.segments, vec![pos(3, 3), pos(3, 2)]);
    }
}

#[test]
fn first_tick_moves_up_without_incident() {
    let mut g = Game::new();
    g.tick(None, true, false);
    assert_eq!(g.segments, vec![pos(3, 4), pos(3, 3)]);
    assert_eq!(g.heading, Direction::Up);
    assert_eq!(g.food, None);
    assert_eq!(g.last_tail_position, Some(pos(3, 2)));
    assert_eq!(g.growth_events, 0);
    assert_eq!(g.game_over_events, 0);
}

#[test]
fn food_at_next_cell_is_eaten_and_snake_grows() {
    let mut g = Game::new();
    g.food = Some(pos(3, 4));
    g.tick(None, true, false);
    assert_eq!(g.segments, vec![pos(3, 4), pos(3, 3), pos(3, 2)]);
    assert_eq!(g.food, None);
    assert_eq!(g.growth_events, 0);
}

#[test]
fn leaving_the_arena_resets_the_snake() {
    let mut g = game_with(vec![pos(0, 3), pos(1, 3)], Direction::Left);
    g.tick(None, true, false);
    assert_eq!(g.segments, vec![pos(3, 3), pos(3, 2)]);
    assert_eq!(g.heading, Direction::Up);
    assert_eq!(g.food, None);
    assert_eq!(g.game_over_events, 0);
}

#[test]
fn food_spawned_in_a_pass_is_not_eaten_in_it() {
    for _ in 0..200 {
        let mut g = Game::new();
        g.tick(None, true, true);
        let f = g.food.expect("a food item is placed");
        // even when the new food lands on the new head cell it stays uneaten
        if f == pos(3, 4) {
            assert_eq!(g.segments.len(), 2);
        }
        assert!(0 <= f.x && f.x < 10);
        assert!(0 <= f.y && f.y < 10);
    }
}
