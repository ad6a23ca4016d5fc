use std::collections::VecDeque;

use snake::arena::{inside_any, Arena, ARENA_HEIGHT, ARENA_WIDTH};
use snake::experience::{Experience, ExperienceBar};
use snake::game_loop::{
    collect_food, despawn_food, grow_snake, kill_snake_hitting_tail, kill_snake_outside_arena,
    pick_direction, track_score, CollectEvent, Food, Segment, SnakeHead,
};
use snake::game_state::{can_push, can_replace, CleanUp, GameState, StateError};
use snake::primitives::{Direction, Position, Rec};
use snake::world::{FrameInput, WidgetKind, World};

fn pos(x: i32, y: i32) -> Position {
    Position { x, y }
}

fn main_loop() -> World {
    let mut w = World::new();
    w.start_game(true);
    w
}

fn food(id: u64, p: Position) -> Food {
    Food { id, position: p, tag: CleanUp::new(GameState::MainGameLoop) }
}

fn count_kind(w: &World, kind: WidgetKind) -> usize {
    w.widgets.iter().filter(|x| x.kind == kind).count()
}

#[test]
fn opposite_twice_is_identity() {
    for d in [Direction::Up, Direction::Down, Direction::Left, Direction::Right] {
        assert_eq!(d.opposite().opposite(), d);
        assert_ne!(d.opposite(), d);
    }
    assert_eq!(Direction::Left.opposite(), Direction::Right);
    assert_eq!(Direction::Up.opposite(), Direction::Down);
}

#[test]
fn direction_default_and_unit_steps() {
    assert_eq!(Direction::default(), Direction::Right);
    assert_eq!(Position::from(Direction::Up), pos(0, 1));
    assert_eq!(Position::from(Direction::Down), pos(0, -1));
    assert_eq!(Position::from(Direction::Left), pos(-1, 0));
    assert_eq!(Position::from(Direction::Right), pos(1, 0));
}

#[test]
fn position_arithmetic() {
    assert_eq!(pos(2, 3) + pos(-5, 7), pos(-3, 10));
    assert_eq!(-pos(2, -3), pos(-2, 3));
    assert_eq!(pos(2, 3) - pos(5, -7), pos(-3, 10));
    let mut p = pos(1, 1);
    p.add_assign(pos(4, -6));
    assert_eq!(p, pos(5, -5));
    assert_eq!(Position::default(), pos(0, 0));
}

#[test]
fn containment_is_boundary_exclusive() {
    let r = Rec { width: 2, height: 2 };
    assert!(!r.contains(pos(1, 0)));
    assert!(r.contains(pos(0, 0)));
    assert!(!r.contains(pos(0, -1)));
    let arena = Rec { width: ARENA_WIDTH, height: ARENA_HEIGHT };
    assert!(arena.contains(pos(10, -10)));
    assert!(!arena.contains(pos(11, 0)));
    assert!(!arena.contains(pos(0, -11)));
    assert!(!arena.contains(pos(i32::MIN, 0)));
}

#[test]
fn arena_measures_from_its_centre() {
    let a = Arena {
        id: 1,
        position: pos(100, 0),
        rec: Rec { width: 3, height: 3 },
        tag: CleanUp::new(GameState::MainGameLoop),
    };
    assert!(a.holds(pos(101, 1)));
    assert!(!a.holds(pos(102, 0)));
    assert!(!a.holds(pos(0, 0)));
    assert!(inside_any(&vec![a], pos(99, -1)));
    assert!(!inside_any(&vec![], pos(0, 0)));
}

#[test]
fn key_priority_left_down_up_right() {
    assert_eq!(pick_direction(true, true, true, true), Some(Direction::Left));
    assert_eq!(pick_direction(false, true, true, true), Some(Direction::Down));
    assert_eq!(pick_direction(false, false, true, true), Some(Direction::Up));
    assert_eq!(pick_direction(false, false, false, true), Some(Direction::Right));
    assert_eq!(pick_direction(false, false, false, false), None);
}

#[test]
fn reversal_request_is_dropped() {
    let mut w = main_loop();
    w.snake_controls(Some(Direction::Left));
    assert_eq!(w.snakes[0].heading, Direction::Right);
    w.tick();
    assert_eq!(w.snakes[0].direction, Direction::Right);
    assert_eq!(w.snakes[0].position, pos(1, 0));
    // a turn is taken, and only at the next tick
    w.snake_controls(Some(Direction::Up));
    assert_eq!(w.snakes[0].direction, Direction::Right);
    w.tick();
    assert_eq!(w.snakes[0].direction, Direction::Up);
    assert_eq!(w.snakes[0].position, pos(1, 1));
    // no key keeps the committed direction
    w.snake_controls(None);
    assert_eq!(w.snakes[0].heading, Direction::Up);
}

#[test]
fn tail_grows_one_per_tick_up_to_length() {
    let mut s = SnakeHead::new(7, pos(0, 0));
    s.length = 3;
    let mut lens = Vec::new();
    for k in 0..6u64 {
        s.advance(100 + k);
        lens.push(s.tail.len());
        assert!(s.tail.len() <= s.length);
    }
    assert_eq!(lens, vec![1, 2, 3, 3, 3, 3]);
    let cells: Vec<Position> = s.tail.iter().map(|x| x.position).collect();
    assert_eq!(cells, vec![pos(3, 0), pos(4, 0), pos(5, 0)]);
    assert_eq!(s.position, pos(6, 0));
    assert_eq!(s.last_position, pos(5, 0));
}

#[test]
fn advance_rotates_and_grows_at_freed_cell() {
    let mut s = SnakeHead::new(1, pos(5, 5));
    s.tail = VecDeque::from(vec![
        Segment { id: 10, position: pos(3, 5) },
        Segment { id: 11, position: pos(4, 5) },
    ]);
    s.length = 3;
    s.heading = Direction::Up;
    assert!(s.advance(12));
    assert_eq!(s.position, pos(5, 6));
    assert_eq!(s.direction, Direction::Up);
    let tail: Vec<Segment> = s.tail.iter().copied().collect();
    assert_eq!(
        tail,
        vec![
            Segment { id: 12, position: pos(3, 5) },
            Segment { id: 11, position: pos(4, 5) },
            Segment { id: 10, position: pos(5, 5) },
        ]
    );
    assert!(!s.advance(13));
    assert_eq!(s.tail.len(), 3);
}

#[test]
fn collision_is_exact_equality() {
    let mut hit = SnakeHead::new(1, pos(5, 5));
    hit.tail.push_back(Segment { id: 2, position: pos(5, 5) });
    let mut snakes = vec![hit];
    kill_snake_hitting_tail(&mut snakes);
    assert!(snakes[0].dead);

    let mut near = SnakeHead::new(1, pos(5, 5));
    near.tail.push_back(Segment { id: 2, position: pos(6, 5) });
    let mut snakes = vec![near];
    kill_snake_hitting_tail(&mut snakes);
    assert!(!snakes[0].dead);
}

#[test]
fn tail_of_another_snake_kills() {
    let a = SnakeHead::new(1, pos(0, 0));
    let mut b = SnakeHead::new(2, pos(3, 3));
    b.tail.push_back(Segment { id: 3, position: pos(0, 0) });
    let mut snakes = vec![a, b];
    kill_snake_hitting_tail(&mut snakes);
    assert!(snakes[0].dead);
    assert!(!snakes[1].dead);
}

#[test]
fn wall_check_latches_death() {
    let arena = Arena {
        id: 1,
        position: pos(0, 0),
        rec: Rec { width: 21, height: 21 },
        tag: CleanUp::new(GameState::MainGameLoop),
    };
    let mut snakes = vec![SnakeHead::new(1, pos(10, 0)), SnakeHead::new(2, pos(11, 0))];
    snakes[0].dead = true;
    kill_snake_outside_arena(&mut snakes, &vec![arena]);
    assert!(snakes[0].dead);
    assert!(snakes[1].dead);
    let mut lone = vec![SnakeHead::new(3, pos(0, 0))];
    kill_snake_outside_arena(&mut lone, &vec![]);
    assert!(lone[0].dead);
}

#[test]
fn at_most_one_food() {
    let mut w = main_loop();
    assert_eq!(w.foods.len(), 0);
    assert!(w.spawn_food_at(pos(3, 4)));
    assert!(!w.spawn_food_at(pos(5, 5)));
    assert!(!w.spawn_apple());
    assert_eq!(w.foods.len(), 1);
    assert_eq!(w.foods[0].position, pos(3, 4));
    for _ in 0..5 {
        w.tick();
        w.spawn_apple();
        assert!(w.foods.len() <= 1);
    }
}

#[test]
fn random_food_lands_inside_the_arena() {
    let mut seen_other_than_low = false;
    for _ in 0..200 {
        let mut w = main_loop();
        assert!(w.spawn_apple());
        assert_eq!(w.foods.len(), 1);
        let p = w.foods[0].position;
        assert!(p.x >= -10 && p.x <= 10, "{:?}", p);
        assert!(p.y >= -10 && p.y <= 10, "{:?}", p);
        if p.x != -10 || p.y != -10 {
            seen_other_than_low = true;
        }
        assert_eq!(w.foods[0].tag.state, GameState::MainGameLoop);
    }
    assert!(seen_other_than_low);
}

#[test]
fn end_to_end_eat_and_grow() {
    let mut w = main_loop();
    assert_eq!(w.snakes.len(), 1);
    assert_eq!(w.snakes[0].position, pos(0, 0));
    assert_eq!(w.snakes[0].heading, Direction::Right);
    assert_eq!(w.snakes[0].length, 0);
    assert!(w.spawn_food_at(pos(1, 0)));
    let events = w.tick();
    assert_eq!(events.len(), 1);
    assert_eq!(w.snakes[0].position, pos(1, 0));
    assert_eq!(w.snakes[0].tail.len(), 0);
    assert_eq!(w.foods.len(), 0);
    assert_eq!(w.snakes[0].length, 1);
    assert_eq!(w.score, 1);
    w.tick();
    assert_eq!(w.snakes[0].position, pos(2, 0));
    assert_eq!(w.snakes[0].tail.len(), 1);
    assert_eq!(w.snakes[0].tail[0].position, pos(1, 0));
    assert_eq!(w.current(), GameState::MainGameLoop);
}

#[test]
fn two_snakes_on_one_food_both_grow_and_score_twice() {
    let foods = vec![food(9, pos(2, 2))];
    let mut snakes = vec![
        SnakeHead::new(1, pos(2, 2)),
        SnakeHead::new(2, pos(0, 0)),
        SnakeHead::new(3, pos(2, 2)),
    ];
    let events = collect_food(&foods, &snakes);
    assert_eq!(
        events,
        vec![CollectEvent { food: 9, snake: 1 }, CollectEvent { food: 9, snake: 3 }]
    );
    let mut foods = foods;
    despawn_food(&mut foods, &events);
    assert!(foods.is_empty());
    grow_snake(&mut snakes, &events);
    assert_eq!(snakes[0].length, 1);
    assert_eq!(snakes[1].length, 0);
    assert_eq!(snakes[2].length, 1);
    let mut score: usize = 4;
    track_score(&mut score, &events);
    assert_eq!(score, 6);
}

#[test]
fn despawn_keeps_unnamed_food() {
    let mut foods = vec![food(1, pos(0, 0)), food(2, pos(1, 1)), food(3, pos(2, 2))];
    despawn_food(&mut foods, &vec![CollectEvent { food: 2, snake: 8 }]);
    let ids: Vec<u64> = foods.iter().map(|f| f.id).collect();
    assert_eq!(ids, vec![1, 3]);
}

#[test]
fn pause_and_resume_keep_the_game() {
    let mut w = main_loop();
    w.snake_controls(Some(Direction::Up));
    w.spawn_food_at(pos(0, 1));
    w.tick();
    assert_eq!(w.score, 1);
    let snake_at = w.snakes[0].position;
    let widgets_before = w.widgets.len();

    w.pause_game(true);
    assert_eq!(w.current(), GameState::PauseMenu);
    assert_eq!(w.stack, vec![GameState::MainGameLoop, GameState::PauseMenu]);
    assert_eq!(w.snakes.len(), 1);
    assert_eq!(w.arenas.len(), 1);
    assert_eq!(count_kind(&w, WidgetKind::PausedText), 1);
    assert_eq!(count_kind(&w, WidgetKind::Shade), 1);

    w.resume(true);
    assert_eq!(w.current(), GameState::MainGameLoop);
    assert_eq!(count_kind(&w, WidgetKind::PausedText), 0);
    assert_eq!(count_kind(&w, WidgetKind::Shade), 0);
    assert_eq!(w.widgets.len(), widgets_before);
    assert_eq!(w.score, 1);
    assert_eq!(w.snakes[0].position, snake_at);
    assert_eq!(w.snakes[0].length, 1);
}

#[test]
fn unpressed_keys_change_nothing() {
    let mut w = World::new();
    w.start_game(false);
    assert_eq!(w.current(), GameState::StartMenu);
    w.start_game(true);
    w.pause_game(false);
    assert_eq!(w.current(), GameState::MainGameLoop);
}

#[test]
fn wall_exit_triggers_game_over_and_restart_resets() {
    let mut w = main_loop();
    w.spawn_food_at(pos(1, 0));
    let mut ticks = 0;
    while w.current() == GameState::MainGameLoop {
        w.tick();
        ticks += 1;
        assert!(ticks <= 11);
    }
    assert_eq!(ticks, 11);
    assert!(w.snakes[0].dead);
    assert_eq!(w.snakes[0].position, pos(11, 0));
    assert_eq!(w.current(), GameState::GameOver);
    assert_eq!(w.stack, vec![GameState::MainGameLoop, GameState::GameOver]);
    assert_eq!(count_kind(&w, WidgetKind::GameOverText), 1);
    assert_eq!(w.score, 1);

    w.restart_game(true);
    assert_eq!(w.stack, vec![GameState::MainGameLoop]);
    assert_eq!(count_kind(&w, WidgetKind::GameOverText), 0);
    assert_eq!(count_kind(&w, WidgetKind::ScoreBoard), 1);
    assert_eq!(w.score, 0);
    assert_eq!(w.snakes.len(), 1);
    assert_eq!(w.arenas.len(), 1);
    assert!(w.foods.is_empty());
    let fresh = &w.snakes[0];
    assert_eq!(fresh.position, pos(0, 0));
    assert!(!fresh.dead);
    assert_eq!(fresh.length, 0);
    assert_eq!(fresh.tail.len(), 0);
}

#[test]
fn game_over_with_no_snakes_is_vacuous() {
    let mut w = main_loop();
    w.snakes.clear();
    assert!(w.game_over());
    assert_eq!(w.current(), GameState::GameOver);
}

#[test]
fn running_into_own_tail_is_fatal() {
    let mut w = main_loop();
    w.snakes[0].length = 4;
    for d in [Direction::Right, Direction::Right, Direction::Up, Direction::Left] {
        w.snake_controls(Some(d));
        w.tick();
        assert_eq!(w.current(), GameState::MainGameLoop);
    }
    w.snake_controls(Some(Direction::Down));
    w.tick();
    assert_eq!(w.snakes[0].position, pos(1, 0));
    assert!(w.snakes[0].dead);
    assert_eq!(w.current(), GameState::GameOver);
}

#[test]
fn invalid_transitions_are_refused() {
    let mut w = World::new();
    assert_eq!(w.pop(), Err(StateError::StackEmpty));
    assert_eq!(w.push(GameState::PauseMenu), Err(StateError::InvalidTransition));
    assert_eq!(w.replace(GameState::GameOver), Err(StateError::InvalidTransition));
    assert_eq!(w.stack, vec![GameState::StartMenu]);
    assert_eq!(count_kind(&w, WidgetKind::StartText), 1);
    assert_eq!(w.replace(GameState::MainGameLoop), Ok(()));
    assert_eq!(count_kind(&w, WidgetKind::StartText), 0);
    assert_eq!(w.push(GameState::StartMenu), Err(StateError::InvalidTransition));
    assert!(can_push(GameState::MainGameLoop, GameState::PauseMenu));
    assert!(can_push(GameState::MainGameLoop, GameState::GameOver));
    assert!(!can_push(GameState::PauseMenu, GameState::MainGameLoop));
    assert!(!can_push(GameState::PauseMenu, GameState::GameOver));
    assert!(can_replace(GameState::StartMenu, GameState::MainGameLoop));
    assert!(can_replace(GameState::GameOver, GameState::MainGameLoop));
    assert!(!can_replace(GameState::MainGameLoop, GameState::PauseMenu));
    assert!(!can_replace(GameState::PauseMenu, GameState::MainGameLoop));
}

#[test]
fn score_board_syncs_only_on_change() {
    let mut w = main_loop();
    assert_eq!(w.update_score_board(), None);
    w.spawn_food_at(pos(1, 0));
    w.tick();
    assert_eq!(w.update_score_board(), Some(1));
    assert_eq!(w.update_score_board(), None);
}

#[test]
fn experience_bar_syncs_only_on_change() {
    let mut bar = ExperienceBar::default();
    assert_eq!(bar.sync(&Experience(0)), Some(0));
    assert_eq!(bar.sync(&Experience(0)), None);
    assert_eq!(bar.sync(&Experience(40)), Some(40));
}

#[test]
fn spawn_arena_takes_the_next_id() {
    let mut w = main_loop();
    assert_eq!(w.arenas.len(), 1);
    assert_eq!(w.arenas[0].rec, Rec { width: 21, height: 21 });
    assert_eq!(w.arenas[0].position, pos(0, 0));
    let id = w.next_id;
    w.spawn_arena();
    assert_eq!(w.arenas.len(), 2);
    assert_eq!(w.arenas[1].id, id);
    assert_eq!(w.next_id, id + 1);
    assert_eq!(w.arenas[1].tag.state, GameState::MainGameLoop);
}

#[test]
fn restart_destroys_the_finished_game() {
    let mut w = main_loop();
    w.snakes[0].length = 2;
    w.spawn_food_at(pos(-5, -5));
    for _ in 0..3 {
        w.tick();
    }
    assert_eq!(w.snakes[0].tail.len(), 2);
    w.snakes[0].dead = true;
    assert!(w.game_over());
    assert_eq!(w.stack, vec![GameState::MainGameLoop, GameState::GameOver]);
    let id_before = w.next_id;
    assert_eq!(w.replace(GameState::MainGameLoop), Ok(()));
    assert_eq!(w.stack, vec![GameState::MainGameLoop]);
    assert_eq!(w.snakes.len(), 1);
    assert_eq!(w.snakes[0].id, id_before);
    assert!(w.snakes[0].tail.is_empty());
    assert!(w.foods.is_empty());
    assert_eq!(w.arenas.len(), 1);
    assert_eq!(w.widgets.len(), 1);
    assert_eq!(w.widgets[0].kind, WidgetKind::ScoreBoard);
}

#[test]
fn transitions_are_checked_per_operation() {
    let mut w = main_loop();
    w.pause_game(true);
    assert_eq!(w.push(GameState::MainGameLoop), Err(StateError::InvalidTransition));
    assert_eq!(w.replace(GameState::MainGameLoop), Err(StateError::InvalidTransition));
    assert_eq!(w.stack, vec![GameState::MainGameLoop, GameState::PauseMenu]);
    assert_eq!(w.snakes.len(), 1);
    assert_eq!(w.pop(), Ok(()));
    assert_eq!(w.replace(GameState::PauseMenu), Err(StateError::InvalidTransition));
    assert_eq!(w.snakes.len(), 1);
    assert_eq!(w.pop(), Err(StateError::StackEmpty));
}

#[test]
fn head_at_the_edge_of_the_integer_range_moves_back() {
    let mut s = SnakeHead::new(1, pos(i32::MAX, i32::MIN));
    s.heading = Direction::Left;
    s.advance(2);
    assert_eq!(s.position, pos(i32::MAX - 1, i32::MIN));
}

fn keys() -> FrameInput {
    FrameInput::default()
}

#[test]
fn frames_drive_the_state_machine() {
    let mut w = World::new();
    w.frame(keys());
    assert_eq!(w.current(), GameState::StartMenu);
    w.frame(FrameInput { confirm: true, ..keys() });
    assert_eq!(w.current(), GameState::MainGameLoop);
    assert_eq!(w.snakes.len(), 1);
    // no tick: the snake stays, the spawner places food
    w.frame(FrameInput { up: true, ..keys() });
    assert_eq!(w.snakes[0].position, pos(0, 0));
    assert_eq!(w.snakes[0].heading, Direction::Up);
    assert_eq!(w.foods.len(), 1);
    // with no key held the heading falls back to the committed direction
    w.frame(keys());
    assert_eq!(w.snakes[0].heading, Direction::Right);
    // a fired tick moves the head along the heading held at that frame
    w.frame(FrameInput { fired: true, up: true, ..keys() });
    assert_eq!(w.snakes[0].position, pos(0, 1));
    assert_eq!(w.snakes[0].direction, Direction::Up);
    // pause, then a fired frame moves nothing, then resume
    w.frame(FrameInput { pause: true, ..keys() });
    assert_eq!(w.current(), GameState::PauseMenu);
    w.frame(FrameInput { fired: true, down: true, ..keys() });
    assert_eq!(w.snakes[0].position, pos(0, 1));
    w.frame(FrameInput { confirm: true, ..keys() });
    assert_eq!(w.current(), GameState::MainGameLoop);
    assert_eq!(w.stack, vec![GameState::MainGameLoop]);
}

#[test]
fn frames_restart_after_game_over() {
    let mut w = World::new();
    w.frame(FrameInput { confirm: true, ..keys() });
    w.foods.clear();
    for _ in 0..11 {
        if w.current() == GameState::MainGameLoop {
            w.foods.clear();
            w.frame(FrameInput { fired: true, ..keys() });
        }
    }
    assert_eq!(w.current(), GameState::GameOver);
    w.frame(FrameInput { fired: true, ..keys() });
    assert_eq!(w.current(), GameState::GameOver);
    w.frame(FrameInput { confirm: true, ..keys() });
    assert_eq!(w.stack, vec![GameState::MainGameLoop]);
    assert_eq!(w.snakes.len(), 1);
    assert_eq!(w.snakes[0].position, pos(0, 0));
    assert_eq!(w.score, 0);
}
