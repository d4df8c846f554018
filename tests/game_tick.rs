use snake::direction::Direction;
use snake::food::{first_free_cell, get_random_grid_position};
use snake::game::Game;
use snake::snake::Snake;
use snake::square::{Food, Square};

fn cells(g: &Game) -> Vec<(i64, i64)> {
    g.get_snake().get_squares().iter().map(|q: &Square| q.get_position()).collect()
}

fn food_is_clear(g: &Game) -> bool {
    let (w, h) = g.get_board_size();
    let f = g.get_food().get_position();
    0 <= f.0 && f.0 < w && 0 <= f.1 && f.1 < h && !g.get_snake().occupies(f)
}

fn is_fresh_round(g: &Game) -> bool {
    let (w, h) = g.get_board_size();
    let c = cells(g);
    c.len() == 2
        && c[0] == c[1]
        && 0 <= c[0].0
        && c[0].0 < w
        && 0 <= c[0].1
        && c[0].1 < h
        && g.get_snake().get_direction() == Direction::Right
        && food_is_clear(g)
}

#[test]
fn new_rejects_boards_without_room() {
    assert!(Game::new((1, 1)).is_none());
    assert!(Game::new((0, 5)).is_none());
    assert!(Game::new((5, 0)).is_none());
    assert!(Game::new((-3, 4)).is_none());
    assert!(Game::new((i64::MAX, 4)).is_none());
    assert!(Game::new((2, 1)).is_some());
}

#[test]
fn new_game_starts_fresh() {
    for _ in 0..50 {
        let g = Game::new((20, 10)).unwrap();
        assert!(is_fresh_round(&g));
        assert_eq!(g.get_input_buffer().len(), 0);
        assert_eq!(g.get_board_size(), (20, 10));
    }
}

#[test]
fn tiny_board_still_places_food() {
    for _ in 0..50 {
        let g = Game::new((2, 1)).unwrap();
        assert!(is_fresh_round(&g));
    }
}

#[test]
fn tick_moves_right_without_input() {
    let s = Snake::new((5, 5), Direction::Right);
    let mut g = Game::from_parts((20, 10), s, (0, 0)).unwrap();
    g.update();
    assert_eq!(cells(&g), vec![(6, 5), (5, 5)]);
    assert_eq!(g.get_food().get_position(), (0, 0));
}

#[test]
fn tick_onto_food_grows_and_moves_food() {
    let s = Snake::new((6, 5), Direction::Right);
    let mut g = Game::from_parts((20, 10), s, (7, 5)).unwrap();
    g.update();
    assert_eq!(cells(&g), vec![(7, 5), (6, 5), (6, 5)]);
    assert!(food_is_clear(&g));
    assert_ne!(g.get_food().get_position(), (7, 5));
}

#[test]
fn crossing_far_wall_restarts() {
    let s = Snake::new((20, 5), Direction::Right);
    let mut g = Game::from_parts((20, 10), s, (0, 0)).unwrap();
    g.update();
    assert!(is_fresh_round(&g));
}

#[test]
fn crossing_near_wall_restarts() {
    let s = Snake::new((0, 5), Direction::Left);
    let mut g = Game::from_parts((20, 10), s, (3, 3)).unwrap();
    g.update();
    assert!(is_fresh_round(&g));
}

#[test]
fn far_edge_itself_is_inside() {
    let s = Snake::new((19, 5), Direction::Right);
    let mut g = Game::from_parts((20, 10), s, (0, 0)).unwrap();
    g.update();
    assert_eq!(cells(&g), vec![(20, 5), (19, 5)]);
    g.handle_input(Direction::Down);
    g.update();
    assert_eq!(cells(&g), vec![(20, 6), (20, 5)]);
    assert_eq!(g.get_food().get_position(), (0, 0));
}

#[test]
fn running_into_body_restarts() {
    let mut s = Snake::new((5, 5), Direction::Right);
    s.grow(3);
    for _ in 0..4 {
        s.iterate_movement();
    }
    s.update_direction(Direction::Down);
    s.iterate_movement();
    s.update_direction(Direction::Left);
    s.iterate_movement();
    let mut g = Game::from_parts((20, 10), s, (0, 0)).unwrap();
    g.handle_input(Direction::Up);
    g.update();
    assert!(is_fresh_round(&g));
}

#[test]
fn queued_turns_apply_one_per_tick() {
    let s = Snake::new((5, 5), Direction::Right);
    let mut g = Game::from_parts((20, 10), s, (0, 0)).unwrap();
    g.handle_input(Direction::Down);
    g.handle_input(Direction::Left);
    g.handle_input(Direction::Right);
    assert_eq!(g.get_input_buffer().len(), 2);
    g.update();
    assert_eq!(g.get_snake().get_direction(), Direction::Down);
    assert_eq!(g.get_snake().get_head_pos(), (5, 6));
    g.update();
    assert_eq!(g.get_snake().get_direction(), Direction::Left);
    assert_eq!(g.get_snake().get_head_pos(), (4, 6));
    assert_eq!(g.get_input_buffer().len(), 0);
}

#[test]
fn reversal_input_is_ignored() {
    let s = Snake::new((5, 5), Direction::Right);
    let mut g = Game::from_parts((20, 10), s, (0, 0)).unwrap();
    g.handle_input(Direction::Left);
    g.handle_input(Direction::Right);
    assert_eq!(g.get_input_buffer().len(), 0);
}

#[test]
fn from_parts_rejects_bad_layouts() {
    assert!(Game::from_parts((20, 10), Snake::new((5, 5), Direction::Up), (5, 5)).is_none());
    assert!(Game::from_parts((20, 10), Snake::new((21, 5), Direction::Up), (0, 0)).is_none());
    assert!(Game::from_parts((20, 10), Snake::new((5, 5), Direction::Up), (20, 0)).is_none());
    assert!(Game::from_parts((1, 1), Snake::new((0, 0), Direction::Up), (0, 0)).is_none());
    assert!(Game::from_parts((20, 10), Snake::new((20, 10), Direction::Up), (19, 9)).is_some());
}

#[test]
fn food_never_lands_on_snake() {
    let mut g = Game::new((4, 3)).unwrap();
    let turns = [Direction::Down, Direction::Left, Direction::Up, Direction::Right];
    for i in 0..400 {
        if i % 3 == 0 {
            g.handle_input(turns[(i / 3) % 4]);
        }
        g.update();
        assert!(food_is_clear(&g));
    }
}

#[test]
fn random_cells_stay_on_board() {
    for _ in 0..200 {
        let p = get_random_grid_position(3, 2);
        assert!(0 <= p.0 && p.0 < 3 && 0 <= p.1 && p.1 < 2);
    }
    let mut seen_nonzero = false;
    for _ in 0..200 {
        let p = get_random_grid_position(1000, 1000);
        if p != (0, 0) {
            seen_nonzero = true;
        }
    }
    assert!(seen_nonzero);
}

#[test]
fn scan_finds_first_free_cell() {
    let mut s = Snake::new((0, 0), Direction::Right);
    s.iterate_movement();
    assert_eq!(first_free_cell(3, 2, &s), Some((2, 0)));
    let s = Snake::new((0, 0), Direction::Right);
    assert_eq!(first_free_cell(1, 1, &s), None);
    assert_eq!(first_free_cell(2, 1, &s), Some((1, 0)));
}

#[test]
fn respawn_avoids_snake() {
    let mut s = Snake::new((0, 0), Direction::Right);
    s.iterate_movement();
    let mut f: Food = Square::new_food((0, 0));
    assert!(f.respawn(2, 1, &s) == false);
    assert_eq!(f.get_position(), (0, 0));
    assert!(f.respawn(3, 1, &s));
    assert_eq!(f.get_position(), (2, 0));
}
