use vstd::prelude::*;

use crate::direction::Direction;
use crate::food::{board_full, get_random_grid_position, in_board, place_food};
use crate::input::{pushed, valid_queue, InputBuffer};
use crate::snake::{lemma_grown_covers_same_cells, lemma_moved_covers, Snake, SnakeView};
use crate::square::{cell, Food, Role};

verus! {

/// Board dimensions the game can run on: at least two cells for food to go,
/// and room to step one cell past the far edges.
pub open spec fn valid_board(width: int, height: int) -> bool {
    &&& 1 <= width < i64::MAX
    &&& 1 <= height < i64::MAX
    &&& (width >= 2 || height >= 2)
}

/// The head has left the playing field. The far edges themselves still count
/// as inside: only `x > width` or `y > height` is out.
pub open spec fn outside(p: (int, int), width: int, height: int) -> bool {
    p.0 < 0 || p.1 < 0 || p.0 > width || p.1 > height
}

/// Everything a tick reads and writes.
pub struct GameView {
    pub width: int,
    pub height: int,
    pub queue: Seq<Direction>,
    pub snake: SnakeView,
    pub food: (int, int),
}

impl GameView {
    /// A round that has just begun: a coiled snake heading right on a cell of
    /// the board, and food on another cell.
    pub open spec fn is_fresh_round(self) -> bool {
        exists|p: (int, int)|
            in_board(p, self.width, self.height) && self.snake == #[trigger] SnakeView::fresh(
                p,
                Direction::Right,
            )
    }

    /// The snake's heading for this tick: the oldest queued turn, if any.
    pub open spec fn next_direction(self) -> Direction {
        if self.queue.len() > 0 {
            self.queue[0]
        } else {
            self.snake.direction
        }
    }

    /// The queue once this tick's turn is taken.
    pub open spec fn next_queue(self) -> Seq<Direction> {
        if self.queue.len() > 0 {
            self.queue.drop_first()
        } else {
            self.queue
        }
    }

    /// The snake after turning and moving one cell.
    pub open spec fn advanced(self) -> SnakeView {
        self.snake.with_direction(self.next_direction()).moved()
    }

    /// The head lands on the food.
    pub open spec fn eats(self) -> bool {
        self.advanced().head() == self.food
    }

    /// The moved snake, one segment longer when it ate.
    pub open spec fn fed(self) -> SnakeView {
        if self.eats() {
            self.advanced().grown(1)
        } else {
            self.advanced()
        }
    }

    /// The new head runs into the snake's own body or off the field.
    pub open spec fn crashes(self) -> bool {
        self.fed().tail_covers(self.advanced().head()) || outside(
            self.advanced().head(),
            self.width,
            self.height,
        )
    }
}

/// The whole game state: board, pending turns, snake and food.
pub struct Game {
    board_size: (i64, i64),
    input_buffer: InputBuffer,
    snake: Snake,
    food: Food,
}

impl View for Game {
    type V = GameView;

    closed spec fn view(&self) -> GameView {
        GameView {
            width: self.board_size.0 as int,
            height: self.board_size.1 as int,
            queue: self.input_buffer@,
            snake: self.snake@,
            food: self.food.spec_position(),
        }
    }
}

impl Game {
    /// The board is usable, the queue valid, the head on the field, and the
    /// food on a board cell that the snake leaves free.
    pub closed spec fn inv(&self) -> bool {
        &&& valid_board(self@.width, self@.height)
        &&& valid_queue(self@.queue)
        &&& self.snake.inv()
        &&& !outside(self@.snake.head(), self@.width, self@.height)
        &&& in_board(self@.food, self@.width, self@.height)
        &&& !self@.snake.occupies(self@.food)
        &&& self.food.spec_role() == Role::Food
    }

    /// What a well-formed game guarantees: a usable board, a valid queue of
    /// turns, a snake of at least two segments with its head on the field, and
    /// food on a board cell that the snake leaves free.
    pub proof fn lemma_inv_facts(&self)
        requires
            self.inv(),
        ensures
            valid_board(self@.width, self@.height),
            valid_queue(self@.queue),
            self@.snake.body.len() >= 2,
            !outside(self@.snake.head(), self@.width, self@.height),
            in_board(self@.food, self@.width, self@.height),
            !self@.snake.occupies(self@.food),
    {
        self.snake.lemma_inv_length();
    }

    /// A new snake heading right on a random cell, with food on another cell.
    fn new_round(board_width: i64, board_height: i64) -> (r: (Snake, Food))
        requires
            valid_board(board_width as int, board_height as int),
        ensures
            r.0.inv(),
            r.1.spec_role() == Role::Food,
            in_board(r.1.spec_position(), board_width as int, board_height as int),
            !r.0@.occupies(r.1.spec_position()),
            exists|p: (int, int)|
                in_board(p, board_width as int, board_height as int) && r.0@ == #[trigger] SnakeView::fresh(
                    p,
                    Direction::Right,
                ),
    {
        let snake_pos = get_random_grid_position(board_width, board_height);
        let snake = Snake::new(snake_pos, Direction::Right);
        proof {
            let p = cell(snake_pos);
            let q = if board_width >= 2 {
                (if p.0 == 0 { 1int } else { 0int }, p.1)
            } else {
                (p.0, if p.1 == 0 { 1int } else { 0int })
            };
            assert(in_board(q, board_width as int, board_height as int));
            assert(!snake@.occupies(q)) by {
                assert(snake@.body =~= seq![p, p]);
            }
        }
        match place_food(board_width, board_height, &snake) {
            Some(food) => (snake, food),
            // not reached: the coiled snake covers a single cell of at least two
            None => (snake, Food::new_food((0, 0))),
        }
    }

    /// A game on a board of `board_size` cells, or `None` when the board is
    /// too small to hold a snake and its food (or too large to step past).
    pub fn new(board_size: (i64, i64)) -> (r: Option<Game>)
        ensures
            r is None <==> !valid_board(board_size.0 as int, board_size.1 as int),
            r matches Some(g) ==> g.inv() && g@.width == board_size.0 && g@.height == board_size.1
                && g@.queue.len() == 0 && g@.is_fresh_round() && !g@.snake.occupies(g@.food)
                && in_board(g@.food, g@.width, g@.height),
    {
        if !(board_size.0 >= 1 && board_size.0 < i64::MAX && board_size.1 >= 1 && board_size.1
            < i64::MAX && (board_size.0 >= 2 || board_size.1 >= 2)) {
            return None;
        }
        let (snake, food) = Game::new_round(board_size.0, board_size.1);
        let g = Game { board_size, input_buffer: InputBuffer::new(), snake, food };
        Some(g)
    }

    /// A round in progress with `snake` and food on `food_position`, and no
    /// pending turns. `None` unless the board is usable, the snake's head lies
    /// on the field and the food on a board cell that the snake leaves free.
    pub fn from_parts(board_size: (i64, i64), snake: Snake, food_position: (i64, i64)) -> (r: Option<
        Game,
    >)
        requires
            snake.inv(),
        ensures
            r is None <==> !(valid_board(board_size.0 as int, board_size.1 as int) && !outside(
                snake@.head(),
                board_size.0 as int,
                board_size.1 as int,
            ) && in_board(cell(food_position), board_size.0 as int, board_size.1 as int)
                && !snake@.occupies(cell(food_position))),
            r matches Some(g) ==> g.inv() && g@ == (GameView {
                width: board_size.0 as int,
                height: board_size.1 as int,
                queue: Seq::empty(),
                snake: snake@,
                food: cell(food_position),
            })
                && in_board(g@.food, g@.width, g@.height) && !g@.snake.occupies(g@.food),
    {
        let (width, height) = board_size;
        if !(width >= 1 && width < i64::MAX && height >= 1 && height < i64::MAX && (width >= 2
            || height >= 2)) {
            return None;
        }
        let head = snake.get_head_pos();
        if head.0 < 0 || head.1 < 0 || head.0 > width || head.1 > height {
            return None;
        }
        if !(0 <= food_position.0 && food_position.0 < width && 0 <= food_position.1
            && food_position.1 < height) {
            return None;
        }
        if snake.occupies(food_position) {
            return None;
        }
        let food = Food::new_food(food_position);
        let g = Game { board_size, input_buffer: InputBuffer::new(), snake, food };
        assert(g@.queue =~= Seq::<Direction>::empty());
        Some(g)
    }

    /// Offers a turn to the input buffer, judged against the snake's heading
    /// once the turns already queued are applied.
    pub fn handle_input(&mut self, direction: Direction)
        requires
            old(self).inv(),
        ensures
            final(self).inv(),
            final(self)@ == (GameView { queue: pushed(old(self)@.queue, direction, old(self)@.snake.direction), ..old(self)@ }),
            !final(self)@.snake.occupies(final(self)@.food),
            in_board(final(self)@.food, final(self)@.width, final(self)@.height),
    {
        let current = self.snake.get_direction();
        self.input_buffer.push(direction, current);
    }

    /// Applies the oldest queued turn, if any.
    fn update_snake_direction(&mut self)
        requires
            old(self).inv(),
        ensures
            final(self).snake.inv(),
            valid_queue(final(self)@.queue),
            final(self)@ == (GameView {
                queue: old(self)@.next_queue(),
                snake: old(self)@.snake.with_direction(old(self)@.next_direction()),
                ..old(self)@
            }),
            final(self).food == old(self).food,
    {
        if let Some(direction) = self.input_buffer.pop() {
            self.snake.update_direction(direction);
        }
    }

    fn snake_head_is_outside_game(&self) -> (r: bool)
        requires
            self.snake.inv(),
        ensures
            r == outside(self@.snake.head(), self@.width, self@.height),
    {
        let head = self.snake.get_head_pos();
        head.0 < 0 || head.1 < 0 || head.0 > self.board_size.0 || head.1 > self.board_size.1
    }

    /// One tick: take a queued turn, move, eat and grow when the head reaches
    /// the food, and start a fresh round when the snake runs into itself or off
    /// the field, or when the food finds no free cell. Turns still queued are
    /// kept across a restart.
    pub fn update(&mut self)
        requires
            old(self).inv(),
            old(self)@.snake.body.len() < usize::MAX,
        ensures
            final(self).inv(),
            final(self)@.width == old(self)@.width,
            final(self)@.height == old(self)@.height,
            final(self)@.queue == old(self)@.next_queue(),
            old(self)@.crashes() ==> final(self)@.is_fresh_round(),
            !old(self)@.crashes() && !old(self)@.eats() ==> final(self)@.snake == old(self)@.advanced()
                && final(self)@.food == old(self)@.food,
            !old(self)@.crashes() && old(self)@.eats() && !board_full(
                old(self)@.advanced(),
                old(self)@.width,
                old(self)@.height,
            ) ==> final(self)@.snake == old(self)@.fed(),
            !old(self)@.crashes() && old(self)@.eats() && board_full(
                old(self)@.advanced(),
                old(self)@.width,
                old(self)@.height,
            ) ==> final(self)@.is_fresh_round(),
            !final(self)@.snake.occupies(final(self)@.food),
            in_board(final(self)@.food, final(self)@.width, final(self)@.height),
    {
        let ghost o = self@;
        proof {
            self.snake.lemma_inv_length();
        }
        self.update_snake_direction();
        self.snake.iterate_movement();
        proof {
            lemma_moved_covers(o.snake.with_direction(o.next_direction()), o.food);
        }
        let head = self.snake.get_head_pos();
        let mut restart = false;
        if self.food.is_at(head) {
            let placed = self.food.respawn(self.board_size.0, self.board_size.1, &self.snake);
            let ghost moved = self.snake@;
            self.snake.grow(1);
            proof {
                lemma_grown_covers_same_cells(moved, 1, self@.food);
            }
            restart = !placed;
        }
        if restart || self.snake.overlaps(head) || self.snake_head_is_outside_game() {
            let (snake, food) = Game::new_round(self.board_size.0, self.board_size.1);
            self.snake = snake;
            self.food = food;
        }
        proof {
            if !o.crashes() && !o.eats() {
                assert(!self@.snake.occupies(self@.food));
            }
        }
    }

    pub fn get_snake(&self) -> (r: &Snake)
        requires
            self.inv(),
        ensures
            r.inv(),
            r@ == self@.snake,
    {
        &self.snake
    }

    pub fn get_food(&self) -> (r: &Food)
        ensures
            r.spec_position() == self@.food,
    {
        &self.food
    }

    pub fn get_input_buffer(&self) -> (r: &InputBuffer)
        ensures
            r@ == self@.queue,
    {
        &self.input_buffer
    }

    pub fn get_board_size(&self) -> (r: (i64, i64))
        ensures
            r.0 == self@.width,
            r.1 == self@.height,
    {
        self.board_size
    }
}

} // verus!
