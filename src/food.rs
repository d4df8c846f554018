use vstd::prelude::*;

use crate::snake::{Snake, SnakeView};
use crate::square::{cell, Food, Role};

verus! {

/// How many random cells are tried before the board is searched in order.
pub const SAMPLE_LIMIT: u32 = 64;

/// `p` is a cell on which food may be placed: `[0, width) x [0, height)`.
pub open spec fn in_board(p: (int, int), width: int, height: int) -> bool {
    0 <= p.0 < width && 0 <= p.1 < height
}

/// The snake covers every cell on which food may be placed.
pub open spec fn board_full(v: SnakeView, width: int, height: int) -> bool {
    forall|p: (int, int)| in_board(p, width, height) ==> #[trigger] v.occupies(p)
}

/// Relies on rand::Rng::gen_range over rand::thread_rng: a value drawn from
/// `0..bound`, which panics only when the range is empty.
#[verifier::external_body]
fn random_below(bound: i64) -> (r: i64)
    requires
        bound > 0,
    ensures
        0 <= r < bound,
{
    rand::Rng::gen_range(&mut rand::thread_rng(), 0..bound)
}

/// A random cell of `[0, board_width) x [0, board_height)`.
pub fn get_random_grid_position(board_width: i64, board_height: i64) -> (r: (i64, i64))
    requires
        board_width > 0,
        board_height > 0,
    ensures
        in_board(cell(r), board_width as int, board_height as int),
{
    (random_below(board_width), random_below(board_height))
}

/// The first cell, row by row, on which food may be placed and that the snake
/// leaves free; `None` when the snake covers all of them.
pub fn first_free_cell(board_width: i64, board_height: i64, snake: &Snake) -> (r: Option<(i64, i64)>)
    requires
        snake.inv(),
    ensures
        r matches Some(p) ==> in_board(cell(p), board_width as int, board_height as int)
            && !snake@.occupies(cell(p)),
        r is None ==> board_full(snake@, board_width as int, board_height as int),
{
    let mut y: i64 = 0;
    while y < board_height
        invariant
            0 <= y,
            board_height > 0 ==> y <= board_height,
            snake.inv(),
            forall|p: (int, int)|
                #![trigger snake@.occupies(p)]
                0 <= p.0 < board_width && 0 <= p.1 < y ==> snake@.occupies(p),
        decreases board_height - y,
    {
        let mut x: i64 = 0;
        while x < board_width
            invariant
                0 <= x,
                board_width > 0 ==> x <= board_width,
                0 <= y < board_height,
                snake.inv(),
                forall|p: (int, int)|
                    #![trigger snake@.occupies(p)]
                    0 <= p.0 < board_width && 0 <= p.1 < y ==> snake@.occupies(p),
                forall|p: (int, int)|
                    #![trigger snake@.occupies(p)]
                    0 <= p.0 < x && p.1 == y ==> snake@.occupies(p),
            decreases board_width - x,
        {
            if !snake.occupies((x, y)) {
                return Some((x, y));
            }
            x = x + 1;
        }
        y = y + 1;
    }
    None
}

impl Food {
    /// Moves the food to a cell of `[0, board_width) x [0, board_height)` that
    /// the snake leaves free: random cells first, then the board in order.
    /// Returns false, leaving the food where it was, when no such cell exists.
    pub fn respawn(&mut self, board_width: i64, board_height: i64, snake: &Snake) -> (placed: bool)
        requires
            board_width > 0,
            board_height > 0,
            snake.inv(),
        ensures
            placed <==> !board_full(snake@, board_width as int, board_height as int),
            placed ==> in_board(final(self).spec_position(), board_width as int, board_height as int)
                && !snake@.occupies(final(self).spec_position()),
            !placed ==> final(self).spec_position() == old(self).spec_position(),
            final(self).spec_role() == old(self).spec_role(),
    {
        let mut tries: u32 = 0;
        while tries < SAMPLE_LIMIT
            invariant
                board_width > 0,
                board_height > 0,
                snake.inv(),
                self.spec_position() == old(self).spec_position(),
                self.spec_role() == old(self).spec_role(),
            decreases SAMPLE_LIMIT - tries,
        {
            let candidate = get_random_grid_position(board_width, board_height);
            if !snake.occupies(candidate) {
                self.set_position(candidate);
                return true;
            }
            tries = tries + 1;
        }
        match first_free_cell(board_width, board_height, snake) {
            Some(p) => {
                self.set_position(p);
                true
            },
            None => false,
        }
    }
}

/// Fresh food on a free cell, for a snake that leaves one.
pub fn place_food(board_width: i64, board_height: i64, snake: &Snake) -> (r: Option<Food>)
    requires
        board_width > 0,
        board_height > 0,
        snake.inv(),
    ensures
        r is None <==> board_full(snake@, board_width as int, board_height as int),
        r matches Some(f) ==> f.spec_role() == Role::Food
            && in_board(f.spec_position(), board_width as int, board_height as int)
            && !snake@.occupies(f.spec_position()),
{
    let mut food = Food::new_food((0, 0));
    if food.respawn(board_width, board_height, snake) {
        Some(food)
    } else {
        None
    }
}

} // verus!
