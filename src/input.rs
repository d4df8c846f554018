use std::collections::VecDeque;
use vstd::prelude::*;

use crate::direction::{opposite_of, Direction};

verus! {

/// How many turns can wait in the buffer at once.
pub const QUEUE_CAPACITY: usize = 4;

/// A turn may follow `prev` unless it keeps going the same way or reverses.
pub open spec fn is_turn(prev: Direction, next: Direction) -> bool {
    next != prev && next != opposite_of(prev)
}

/// A queue of pending turns: within capacity, and each turn a real turn
/// with respect to the one queued before it.
pub open spec fn valid_queue(q: Seq<Direction>) -> bool {
    &&& q.len() <= QUEUE_CAPACITY
    &&& forall|i: int| 0 <= i < q.len() - 1 ==> #[trigger] is_turn(q[i], q[i + 1])
}

/// The direction the snake will have once every queued turn is applied.
pub open spec fn effective_direction(q: Seq<Direction>, current: Direction) -> Direction {
    if q.len() == 0 {
        current
    } else {
        q.last()
    }
}

/// The queue after offering `d` while the snake travels `current`: the turn is
/// appended when there is room and it is a turn from the effective direction.
pub open spec fn pushed(q: Seq<Direction>, d: Direction, current: Direction) -> Seq<Direction> {
    if q.len() < QUEUE_CAPACITY && is_turn(effective_direction(q, current), d) {
        q.push(d)
    } else {
        q
    }
}

/// FIFO of pending direction changes, filled by key presses and drained once per tick.
pub struct InputBuffer {
    motions: VecDeque<Direction>,
}

impl View for InputBuffer {
    type V = Seq<Direction>;

    closed spec fn view(&self) -> Seq<Direction> {
        self.motions@
    }
}

impl InputBuffer {
    pub fn new() -> (r: InputBuffer)
        ensures
            r@ == Seq::<Direction>::empty(),
            valid_queue(r@),
    {
        InputBuffer { motions: VecDeque::with_capacity(QUEUE_CAPACITY) }
    }

    /// Queues `direction` unless the buffer is full or it does not turn away from
    /// the effective direction (the last queued turn, else `current_direction`).
    pub fn push(&mut self, direction: Direction, current_direction: Direction)
        requires
            valid_queue(old(self)@),
        ensures
            final(self)@ == pushed(old(self)@, direction, current_direction),
            valid_queue(final(self)@),
    {
        let len = self.motions.len();
        if len >= QUEUE_CAPACITY {
            return;
        }
        let mut effective = current_direction;
        if len > 0 {
            if let Some(last) = self.lookahead(len - 1) {
                effective = last;
            }
        }
        if direction != effective && direction != effective.opposite() {
            self.motions.push_back(direction);
        }
        proof {
            lemma_pushed_valid(old(self)@, direction, current_direction);
        }
    }

    /// Takes the oldest pending turn, if any.
    pub fn pop(&mut self) -> (r: Option<Direction>)
        requires
            valid_queue(old(self)@),
        ensures
            old(self)@.len() == 0 ==> r.is_none() && final(self)@ == old(self)@,
            old(self)@.len() > 0 ==> r == Some(old(self)@[0]) && final(self)@ == old(self)@.drop_first(),
            valid_queue(final(self)@),
    {
        let r = self.motions.pop_front();
        proof {
            lemma_popped_valid(old(self)@);
        }
        r
    }

    /// The pending turn at `index` (0 is the oldest), without removing it.
    pub fn lookahead(&self, index: usize) -> (r: Option<Direction>)
        ensures
            index < self@.len() ==> r == Some(self@[index as int]),
            index >= self@.len() ==> r.is_none(),
    {
        if index >= self.motions.len() {
            None
        } else {
            Some(self.motions[index])
        }
    }

    /// Number of pending turns.
    pub fn len(&self) -> (r: usize)
        ensures
            r == self@.len(),
    {
        self.motions.len()
    }
}

/// Offering a turn never breaks the buffer's capacity or lets two queued turns
/// repeat or reverse one another.
pub proof fn lemma_pushed_valid(q: Seq<Direction>, d: Direction, current: Direction)
    requires
        valid_queue(q),
    ensures
        valid_queue(pushed(q, d, current)),
{
    let r = pushed(q, d, current);
    assert forall|i: int| 0 <= i < r.len() - 1 implies #[trigger] is_turn(r[i], r[i + 1]) by {
        if r.len() > q.len() && i == q.len() - 1 {
            assert(r[i] == q.last());
        } else {
            assert(r[i] == q[i] && r[i + 1] == q[i + 1]);
        }
    }
}

/// Taking the oldest turn keeps the remaining ones valid.
pub proof fn lemma_popped_valid(q: Seq<Direction>)
    requires
        valid_queue(q),
    ensures
        q.len() > 0 ==> valid_queue(q.drop_first()),
{
    if q.len() > 0 {
        let r = q.drop_first();
        assert forall|i: int| 0 <= i < r.len() - 1 implies #[trigger] is_turn(r[i], r[i + 1]) by {
            assert(r[i] == q[i + 1] && r[i + 1] == q[i + 2]);
            assert(is_turn(q[i + 1], q[(i + 1) + 1]));
        }
    }
}

} // verus!
