use lighthouse_snake::color::{snake_color, Color, BACKGROUND_COLOR, FRUIT_COLOR};
use lighthouse_snake::grid::{wrap, Delta, Pos, GRID_COLS, GRID_ROWS};
use lighthouse_snake::router::Router;
use lighthouse_snake::snake::{Snake, SNAKE_INITIAL_LENGTH};
use lighthouse_snake::state::State;

fn pos(x: i32, y: i32) -> Pos {
    Pos { x, y }
}

const RIGHT: Delta = Delta { dx: 1, dy: 0 };
const LEFT: Delta = Delta { dx: -1, dy: 0 };
const UP: Delta = Delta { dx: 0, dy: -1 };

#[test]
fn wrap_is_idempotent_on_samples() {
    let samples = vec![
        pos(0, 0),
        pos(27, 13),
        pos(28, 14),
        pos(-1, -1),
        pos(1000, -997),
        pos(-56, 28),
    ];
    for p in samples {
        let once = wrap(p);
        let twice = wrap(once);
        assert_eq!(once, twice);
    }
}

#[test]
fn wrap_wraps_each_edge() {
    assert_eq!(wrap(pos(28, 0)), pos(0, 0));
    assert_eq!(wrap(pos(-1, 0)), pos(27, 0));
    assert_eq!(wrap(pos(0, 14)), pos(0, 0));
    assert_eq!(wrap(pos(0, -1)), pos(0, 13));
    assert_eq!(wrap(pos(5, 5)), pos(5, 5));
    assert_eq!(wrap(pos(33, -1)), pos(5, 13));
}

#[test]
fn step_moves_single_snake_right() {
    // Grid 28 by 14, one snake of length 3 heading right.
    let mut s = Snake {
        body: vec![pos(5, 5), pos(4, 5), pos(3, 5)],
        dir: RIGHT,
        color: Color::Green,
    };
    s.step();
    assert_eq!(s.body, vec![pos(6, 5), pos(5, 5), pos(4, 5)]);
    assert_eq!(s.len(), 3);
    assert_eq!(s.color(), Color::Green);
}

#[test]
fn step_wraps_around_the_edge() {
    let mut s = Snake {
        body: vec![pos(27, 5), pos(26, 5), pos(25, 5)],
        dir: RIGHT,
        color: Color::Green,
    };
    s.step();
    assert_eq!(s.body, vec![pos(0, 5), pos(27, 5), pos(26, 5)]);
}

#[test]
fn grow_extends_tail_away_from_travel() {
    let mut s = Snake {
        body: vec![pos(5, 5), pos(4, 5)],
        dir: RIGHT,
        color: Color::Cyan,
    };
    s.grow();
    assert_eq!(s.body, vec![pos(5, 5), pos(4, 5), pos(3, 5)]);
    let before = s.body.clone();
    s.grow();
    assert_eq!(s.len(), 4);
    assert_eq!(&s.body[..3], &before[..]);
    assert_eq!(s.back(), pos(2, 5));
}

#[test]
fn intersects_itself_iff_revisited_cell() {
    let clean = Snake {
        body: vec![pos(5, 5), pos(4, 5), pos(3, 5)],
        dir: RIGHT,
        color: Color::Green,
    };
    assert!(!clean.intersects_itself());
    let folded = Snake {
        body: vec![pos(4, 5), pos(5, 5), pos(4, 5)],
        dir: LEFT,
        color: Color::Green,
    };
    assert!(folded.intersects_itself());
    let singleton = Snake { body: vec![pos(0, 0)], dir: UP, color: Color::Gray };
    assert!(!singleton.intersects_itself());
}

#[test]
fn contains_reports_membership() {
    let s = Snake {
        body: vec![pos(5, 5), pos(4, 5), pos(3, 5)],
        dir: RIGHT,
        color: Color::Green,
    };
    assert!(s.contains(pos(4, 5)));
    assert!(!s.contains(pos(6, 5)));
}

#[test]
fn field_set_counts_distinct_cells() {
    let folded = Snake {
        body: vec![pos(4, 5), pos(5, 5), pos(4, 5)],
        dir: LEFT,
        color: Color::Green,
    };
    assert_eq!(folded.field_set().len(), 2);
}

#[test]
fn with_length_at_lays_body_behind_head() {
    let s = Snake::with_length_at(3, Color::Blue, pos(5, 5), RIGHT);
    assert_eq!(s.body, vec![pos(5, 5), pos(4, 5), pos(3, 5)]);
    let w = Snake::with_length_at(3, Color::Blue, pos(0, 0), RIGHT);
    assert_eq!(w.body, vec![pos(0, 0), pos(27, 0), pos(26, 0)]);
}

#[test]
fn new_snake_is_fresh_and_in_bounds() {
    let s = Snake::new(Color::Magenta);
    assert_eq!(s.len(), SNAKE_INITIAL_LENGTH);
    assert_eq!(s.color(), Color::Magenta);
    assert!(!s.intersects_itself());
    for p in s.fields() {
        assert!(0 <= p.x && p.x < GRID_COLS && 0 <= p.y && p.y < GRID_ROWS);
    }
}

#[test]
fn rotate_head_only_changes_heading() {
    let mut s = Snake {
        body: vec![pos(5, 5), pos(4, 5), pos(3, 5)],
        dir: RIGHT,
        color: Color::Green,
    };
    s.rotate_head(UP);
    assert_eq!(s.body, vec![pos(5, 5), pos(4, 5), pos(3, 5)]);
    assert_eq!(s.dir, UP);
}

#[test]
fn ensure_snakes_grows_and_never_shrinks() {
    let mut state = State::empty();
    state.ensure_snakes(2);
    assert_eq!(state.snake_count(), 2);
    state.ensure_snakes(1);
    assert_eq!(state.snake_count(), 2);
    state.ensure_snakes(5);
    assert_eq!(state.snake_count(), 5);
    for i in 0..5 {
        assert_eq!(state.snake(i).color(), snake_color(i));
        assert_eq!(state.snake(i).len(), SNAKE_INITIAL_LENGTH);
    }
    assert_eq!(state.snake(0).color(), Color::Green);
    assert_eq!(state.snake(1).color(), Color::Yellow);
}

#[test]
fn palette_cycles_round_robin() {
    assert_eq!(snake_color(0), Color::Green);
    assert_eq!(snake_color(6), Color::Gray);
    assert_eq!(snake_color(7), Color::Green);
    assert_eq!(snake_color(9), Color::Cyan);
}

#[test]
fn new_state_places_fruit_on_free_cell() {
    let state = State::new();
    assert_eq!(state.snake_count(), 1);
    assert_eq!(state.snake(0).len(), SNAKE_INITIAL_LENGTH);
    assert_eq!(state.snake(0).color(), Color::Green);
    let fruit = state.fruit().expect("a fresh arena has a fruit");
    assert!(0 <= fruit.x && fruit.x < GRID_COLS && 0 <= fruit.y && fruit.y < GRID_ROWS);
    assert!(!state.snake(0).contains(fruit));
}

#[test]
fn respawn_keeps_color_and_slot() {
    let mut state = State::empty();
    state.snakes.push(Snake {
        body: vec![pos(5, 5), pos(4, 5), pos(3, 5)],
        dir: RIGHT,
        color: Color::Magenta,
    });
    state.respawn(0);
    assert_eq!(state.snake_count(), 1);
    assert_eq!(state.snake(0).color(), Color::Magenta);
    assert_eq!(state.snake(0).len(), SNAKE_INITIAL_LENGTH);
}

#[test]
fn head_on_collision_respawns_exactly_one() {
    // Both heads move onto (10, 10) in the same tick.
    let mut state = State {
        snakes: vec![
            Snake {
                body: vec![pos(9, 10), pos(8, 10), pos(7, 10)],
                dir: RIGHT,
                color: Color::Green,
            },
            Snake {
                body: vec![pos(11, 10), pos(12, 10), pos(13, 10)],
                dir: LEFT,
                color: Color::Yellow,
            },
        ],
        fruit: Some(pos(0, 0)),
    };
    state.step();
    assert_eq!(state.snake_count(), 2);
    assert_eq!(state.snake(0).color(), Color::Green);
    assert_eq!(state.snake(1).color(), Color::Yellow);
    assert_eq!(state.snake(0).len(), 3);
    assert_eq!(state.snake(1).len(), 3);
    let moved_0 = vec![pos(10, 10), pos(9, 10), pos(8, 10)];
    let moved_1 = vec![pos(10, 10), pos(11, 10), pos(12, 10)];
    let survivor_0 = state.snake(0).body == moved_0;
    let survivor_1 = state.snake(1).body == moved_1;
    // Exactly one snake was respawned; the other's body is the plain move.
    assert!(survivor_0 || survivor_1);
    assert!(!(survivor_0 && survivor_1));
    assert_eq!(state.fruit(), Some(pos(0, 0)));
}

#[test]
fn body_collision_kills_the_later_snake() {
    // Snake 1's head moves into snake 0's body: snake 1 loses, snake 0 is untouched.
    let mut state = State {
        snakes: vec![
            Snake {
                body: vec![pos(10, 10), pos(10, 11), pos(10, 12)],
                dir: UP,
                color: Color::Green,
            },
            Snake {
                body: vec![pos(9, 10), pos(8, 10), pos(7, 10)],
                dir: RIGHT,
                color: Color::Yellow,
            },
        ],
        fruit: Some(pos(0, 0)),
    };
    state.step();
    assert_eq!(state.snake(0).body, vec![pos(10, 9), pos(10, 10), pos(10, 11)]);
    assert_eq!(state.snake(1).color(), Color::Yellow);
    assert_eq!(state.snake(1).len(), 3);
}

#[test]
fn self_collision_respawns_the_snake() {
    // Reversing into the own body causes a self-collision on the next tick.
    let mut state = State {
        snakes: vec![Snake {
            body: vec![pos(5, 5), pos(4, 5), pos(3, 5)],
            dir: LEFT,
            color: Color::Cyan,
        }],
        fruit: Some(pos(0, 0)),
    };
    state.step();
    assert_eq!(state.snake_count(), 1);
    assert_eq!(state.snake(0).color(), Color::Cyan);
    assert_eq!(state.snake(0).len(), SNAKE_INITIAL_LENGTH);
    // A respawned snake is laid out contiguously, so it never overlaps itself.
    assert!(!state.snake(0).intersects_itself());
}

#[test]
fn eating_fruit_grows_and_relocates_it() {
    let mut state = State {
        snakes: vec![Snake {
            body: vec![pos(5, 5), pos(4, 5), pos(3, 5)],
            dir: RIGHT,
            color: Color::Green,
        }],
        fruit: Some(pos(6, 5)),
    };
    state.step();
    assert_eq!(state.snake_count(), 1);
    assert_eq!(
        state.snake(0).body,
        vec![pos(6, 5), pos(5, 5), pos(4, 5), pos(3, 5)],
        "the head lands on the fruit and the tail grows backwards"
    );
    let fruit = state.fruit().expect("free cells remain, so the fruit relocates");
    assert!(!state.snake(0).contains(fruit));
    assert!(0 <= fruit.x && fruit.x < GRID_COLS && 0 <= fruit.y && fruit.y < GRID_ROWS);
}

fn full_grid_body_with_head(head: Pos) -> Vec<Pos> {
    let mut body = vec![head];
    for y in 0..GRID_ROWS {
        for x in 0..GRID_COLS {
            let p = pos(x, y);
            if p != head {
                body.push(p);
            }
        }
    }
    body
}

#[test]
fn win_condition_resets_the_arena() {
    // One snake covers the whole grid with its head on the fruit: after the
    // fruit phase no free cell exists, so the arena resets to one fresh snake.
    let head = pos(3, 7);
    let mut state = State {
        snakes: vec![Snake { body: full_grid_body_with_head(head), dir: RIGHT, color: Color::Blue }],
        fruit: Some(head),
    };
    state.check_fruits();
    assert_eq!(state.snake_count(), 1);
    assert_eq!(state.snake(0).len(), SNAKE_INITIAL_LENGTH);
    assert_eq!(state.snake(0).color(), Color::Green);
    let fruit = state.fruit().expect("the reset arena has a fruit again");
    assert!(!state.snake(0).contains(fruit));
}

#[test]
fn fruit_never_left_on_a_body_after_eating() {
    // Two snakes; snake 0 eats. The relocated fruit avoids both bodies.
    let mut state = State {
        snakes: vec![
            Snake {
                body: vec![pos(5, 5), pos(4, 5), pos(3, 5)],
                dir: RIGHT,
                color: Color::Green,
            },
            Snake {
                body: vec![pos(20, 2), pos(19, 2), pos(18, 2)],
                dir: RIGHT,
                color: Color::Yellow,
            },
        ],
        fruit: Some(pos(6, 5)),
    };
    state.check_fruits();
    let fruit = state.fruit().expect("free cells remain");
    assert!(!state.snake(0).contains(fruit));
    assert!(!state.snake(1).contains(fruit));
}

#[test]
fn random_fruit_pos_finds_the_single_free_cell() {
    // Every cell but one is occupied: the sample must be that cell.
    let free = pos(17, 9);
    let mut body = Vec::new();
    for y in 0..GRID_ROWS {
        for x in 0..GRID_COLS {
            let p = pos(x, y);
            if p != free {
                body.push(p);
            }
        }
    }
    let state = State {
        snakes: vec![Snake { body, dir: RIGHT, color: Color::Green }],
        fruit: None,
    };
    assert_eq!(state.random_fruit_pos(), Some(free));
}

#[test]
fn router_assigns_indices_in_first_seen_order() {
    // Three distinct sources map to roster indices 0, 1, 2 and the roster
    // grows to match.
    let mut router = Router::new();
    let mut state = State::new();
    assert_eq!(state.snake_count(), 1);
    router.handle_event(&mut state, 101, Some(UP));
    assert_eq!(router.index_for(101), 0);
    assert_eq!(state.snake_count(), 1);
    router.handle_event(&mut state, 202, None);
    assert_eq!(router.index_for(202), 1);
    assert_eq!(state.snake_count(), 2);
    router.handle_event(&mut state, 303, Some(LEFT));
    assert_eq!(router.index_for(303), 2);
    assert_eq!(state.snake_count(), 3);
    // Known sources keep their slots.
    assert_eq!(router.index_for(101), 0);
    assert_eq!(router.index_for(202), 1);
    assert_eq!(router.len(), 3);
}

#[test]
fn router_applies_direction_to_the_mapped_snake() {
    let mut router = Router::new();
    let mut state = State::new();
    let before = state.snake(0).body.clone();
    router.handle_event(&mut state, 7, Some(UP));
    assert_eq!(state.snake(0).dir, UP);
    assert_eq!(state.snake(0).body, before);
    // An event without a direction only registers the source.
    router.handle_event(&mut state, 8, None);
    assert_eq!(state.snake_count(), 2);
}

#[test]
fn render_paints_fruit_snakes_and_background() {
    let state = State {
        snakes: vec![
            Snake {
                body: vec![pos(5, 5), pos(4, 5), pos(3, 5)],
                dir: RIGHT,
                color: Color::Green,
            },
            Snake { body: vec![pos(5, 5)], dir: UP, color: Color::Yellow },
        ],
        fruit: Some(pos(10, 10)),
    };
    let frame = state.render();
    assert_eq!(frame.get(pos(10, 10)), FRUIT_COLOR);
    assert_eq!(frame.get(pos(4, 5)), Color::Green);
    // Later roster slots overpaint earlier ones.
    assert_eq!(frame.get(pos(5, 5)), Color::Yellow);
    assert_eq!(frame.get(pos(0, 0)), BACKGROUND_COLOR);
}

#[test]
fn render_paints_snake_over_fruit_cell() {
    let state = State {
        snakes: vec![Snake {
            body: vec![pos(5, 5), pos(4, 5)],
            dir: RIGHT,
            color: Color::Green,
        }],
        fruit: Some(pos(5, 5)),
    };
    let frame = state.render();
    assert_eq!(frame.get(pos(5, 5)), Color::Green);
}

#[test]
fn tick_on_empty_roster_changes_nothing() {
    let mut state = State::empty();
    state.step();
    assert_eq!(state.snake_count(), 0);
    assert_eq!(state.fruit(), None);
    let frame = state.render();
    assert_eq!(frame.get(pos(0, 0)), BACKGROUND_COLOR);
    assert_eq!(frame.get(pos(27, 13)), BACKGROUND_COLOR);
}

#[test]
fn many_ticks_keep_the_arena_well_formed() {
    let mut state = State::new();
    state.ensure_snakes(3);
    for _ in 0..50 {
        state.step();
        assert_eq!(state.snake_count(), 3);
        let fruit = state.fruit().expect("free cells always remain here");
        assert!(0 <= fruit.x && fruit.x < GRID_COLS && 0 <= fruit.y && fruit.y < GRID_ROWS);
        for i in 0..3 {
            for p in state.snake(i).fields() {
                assert!(0 <= p.x && p.x < GRID_COLS && 0 <= p.y && p.y < GRID_ROWS);
            }
        }
    }
}
