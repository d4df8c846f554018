use vstd::prelude::*;

use crate::direction::{opposite_of, Direction};
use crate::square::{cell, Role, Square};

verus! {

/// The cell one step from `p` in direction `d` (y grows downwards).
pub open spec fn step(p: (int, int), d: Direction) -> (int, int) {
    match d {
        Direction::Up => (p.0, p.1 - 1),
        Direction::Down => (p.0, p.1 + 1),
        Direction::Left => (p.0 - 1, p.1),
        Direction::Right => (p.0 + 1, p.1),
    }
}

/// The positions of a run of squares, in order.
pub open spec fn positions(squares: Seq<Square>) -> Seq<(int, int)> {
    squares.map_values(|s: Square| s.spec_position())
}

/// A snake as the game sees it: cells from head to tail, and a heading.
pub struct SnakeView {
    pub body: Seq<(int, int)>,
    pub direction: Direction,
}

impl SnakeView {
    /// A freshly made snake: two segments coiled on one cell.
    pub open spec fn fresh(p: (int, int), direction: Direction) -> SnakeView {
        SnakeView { body: seq![p, p], direction }
    }

    pub open spec fn head(self) -> (int, int) {
        self.body[0]
    }

    pub open spec fn with_direction(self, d: Direction) -> SnakeView {
        SnakeView { body: self.body, direction: d }
    }

    /// One step forward: a new head ahead of the old one, the last segment dropped.
    pub open spec fn moved(self) -> SnakeView {
        SnakeView {
            body: seq![step(self.head(), self.direction)] + self.body.drop_last(),
            direction: self.direction,
        }
    }

    /// `n` extra segments stacked on the last one.
    pub open spec fn grown(self, n: nat) -> SnakeView {
        SnakeView {
            body: self.body + Seq::new(n, |i: int| self.body.last()),
            direction: self.direction,
        }
    }

    /// Some segment, the head included, lies on `p`.
    pub open spec fn occupies(self, p: (int, int)) -> bool {
        self.body.contains(p)
    }

    /// Some segment behind the head lies on `p`.
    pub open spec fn tail_covers(self, p: (int, int)) -> bool {
        exists|i: int| 1 <= i < self.body.len() && self.body[i] == p
    }
}

/// The player: a run of squares, head first, and the direction of travel.
pub struct Snake {
    squares: Vec<Square>,
    direction: Direction,
}

impl View for Snake {
    type V = SnakeView;

    closed spec fn view(&self) -> SnakeView {
        SnakeView { body: positions(self.squares@), direction: self.direction }
    }
}

impl Snake {
    /// At least two segments; the first is drawn as the head, the others as tail.
    pub closed spec fn inv(&self) -> bool {
        &&& self.squares@.len() >= 2
        &&& self.squares@[0].spec_role() == Role::Head
        &&& forall|i: int|
            1 <= i < self.squares@.len() ==> (#[trigger] self.squares@[i]).spec_role() == Role::Tail
    }

    /// A well-formed snake never has fewer than two segments.
    pub proof fn lemma_inv_length(&self)
        requires
            self.inv(),
        ensures
            self@.body.len() >= 2,
    {
    }

    /// A snake of two segments, both on `position`, heading `direction`.
    pub fn new(position: (i64, i64), direction: Direction) -> (r: Snake)
        ensures
            r.inv(),
            r@ == SnakeView::fresh(cell(position), direction),
    {
        let squares: Vec<Square> = vec![Square::new(position, Role::Head), Square::new(position, Role::Tail)];
        let r = Snake { squares, direction };
        assert(r@.body =~= SnakeView::fresh(cell(position), direction).body);
        r
    }

    pub fn update_direction(&mut self, direction: Direction)
        requires
            old(self).inv(),
        ensures
            final(self).inv(),
            final(self)@ == old(self)@.with_direction(direction),
    {
        self.direction = direction;
    }

    /// Adds `amount` segments on top of the last one; each is pulled into place
    /// by a later move instead of leaving a gap.
    pub fn grow(&mut self, amount: u8)
        requires
            old(self).inv(),
            old(self)@.body.len() + amount <= usize::MAX,
        ensures
            final(self).inv(),
            final(self)@ == old(self)@.grown(amount as nat),
            final(self)@.body.len() == old(self)@.body.len() + amount,
    {
        let ghost start = self.squares@;
        let mut k: u8 = 0;
        while k < amount
            invariant
                0 <= k <= amount,
                start.len() >= 2,
                start.len() + amount <= usize::MAX,
                self.inv(),
                self.direction == old(self).direction,
                self.squares@.len() == start.len() + k,
                forall|i: int| 0 <= i < start.len() ==> self.squares@[i] == start[i],
                forall|i: int|
                    start.len() <= i < self.squares@.len() ==> (#[trigger] self.squares@[i]).spec_position()
                        == start.last().spec_position(),
            decreases amount - k,
        {
            let last = self.squares.len() - 1;
            let tail_position = self.squares[last].get_position();
            self.squares.push(Square::new(tail_position, Role::Tail));
            k = k + 1;
        }
        assert(self@.body =~= old(self)@.grown(amount as nat).body);
    }

    /// Moves one cell in the current direction: a new head in front, the last
    /// segment removed, so the length stays the same.
    pub fn iterate_movement(&mut self)
        requires
            old(self).inv(),
            i64::MIN < old(self)@.head().0 < i64::MAX,
            i64::MIN < old(self)@.head().1 < i64::MAX,
        ensures
            final(self).inv(),
            final(self)@ == old(self)@.moved(),
            final(self)@.body.len() == old(self)@.body.len(),
            final(self)@.head() == step(old(self)@.head(), old(self)@.direction),
    {
        let head = self.squares[0].get_position();
        let position: (i64, i64) = match self.direction {
            Direction::Up => (head.0, head.1 - 1),
            Direction::Down => (head.0, head.1 + 1),
            Direction::Left => (head.0 - 1, head.1),
            Direction::Right => (head.0 + 1, head.1),
        };
        let mut old_head = self.squares[0];
        old_head.set_role(Role::Tail);
        self.squares.set(0, old_head);
        self.squares.insert(0, Square::new(position, Role::Head));
        let last = self.squares.len() - 1;
        self.squares.remove(last);
        assert(self@.body =~= old(self)@.moved().body);
    }

    /// Whether a segment behind the head lies on `position`.
    pub fn overlaps(&self, position: (i64, i64)) -> (r: bool)
        requires
            self.inv(),
        ensures
            r == self@.tail_covers(cell(position)),
    {
        let mut i: usize = 1;
        while i < self.squares.len()
            invariant
                1 <= i <= self.squares@.len(),
                forall|j: int| 1 <= j < i ==> self@.body[j] != cell(position),
            decreases self.squares@.len() - i,
        {
            if self.squares[i].is_at(position) {
                assert(self@.body[i as int] == self.squares@[i as int].spec_position());
                return true;
            }
            i = i + 1;
        }
        false
    }

    /// Whether any segment, the head included, lies on `position`.
    pub fn occupies(&self, position: (i64, i64)) -> (r: bool)
        requires
            self.inv(),
        ensures
            r == self@.occupies(cell(position)),
    {
        if self.squares[0].is_at(position) {
            assert(self@.body[0] == cell(position));
            return true;
        }
        let r = self.overlaps(position);
        proof {
            if r {
                let i = choose|i: int| 1 <= i < self@.body.len() && self@.body[i] == cell(position);
                assert(self@.body[i] == cell(position));
            } else {
                assert forall|i: int| 0 <= i < self@.body.len() implies self@.body[i] != cell(position) by {
                    if i > 0 {
                        assert(!(1 <= i < self@.body.len() && self@.body[i] == cell(position)));
                    }
                }
            }
        }
        r
    }

    /// The segments, head first.
    pub fn get_squares(&self) -> (r: &Vec<Square>)
        ensures
            positions(r@) == self@.body,
    {
        &self.squares
    }

    pub fn get_head_pos(&self) -> (r: (i64, i64))
        requires
            self.inv(),
        ensures
            cell(r) == self@.head(),
    {
        self.squares[0].get_position()
    }

    pub fn get_direction(&self) -> (r: Direction)
        ensures
            r == self@.direction,
    {
        self.direction
    }

    /// Number of segments.
    pub fn len(&self) -> (r: usize)
        ensures
            r == self@.body.len(),
    {
        self.squares.len()
    }
}

/// The snake after `k` moves with no turn and no growth.
pub open spec fn moved_times(v: SnakeView, k: nat) -> SnakeView
    decreases k,
{
    if k == 0 {
        v
    } else {
        moved_times(v, (k - 1) as nat).moved()
    }
}

/// A move keeps the length and puts the head exactly one cell further in the
/// direction of travel.
pub proof fn lemma_move_translates_head(v: SnakeView)
    requires
        v.body.len() >= 1,
    ensures
        v.moved().body.len() == v.body.len(),
        v.moved().head() == step(v.head(), v.direction),
        v.moved().direction == v.direction,
{
}

/// Moving one way and then the opposite way brings the head back where it was,
/// growth in between or not.
pub proof fn lemma_move_and_back(v: SnakeView, n: nat)
    requires
        v.body.len() >= 1,
    ensures
        v.moved().with_direction(opposite_of(v.direction)).moved().head() == v.head(),
        v.moved().grown(n).with_direction(opposite_of(v.direction)).moved().head() == v.head(),
{
}

/// Growing by `n` lengthens the snake by exactly `n`, and no number of later
/// moves changes that length again.
pub proof fn lemma_grow_then_move(v: SnakeView, n: nat, k: nat)
    requires
        v.body.len() >= 1,
    ensures
        v.grown(n).body.len() == v.body.len() + n,
        moved_times(v.grown(n), k).body.len() == v.body.len() + n,
    decreases k,
{
    if k > 0 {
        lemma_grow_then_move(v, n, (k - 1) as nat);
    }
}

/// After a move, every covered cell is the new head or was covered before.
pub proof fn lemma_moved_covers(v: SnakeView, p: (int, int))
    requires
        v.body.len() >= 1,
    ensures
        v.moved().body.len() == v.body.len(),
        v.moved().occupies(p) ==> p == v.moved().head() || v.occupies(p),
{
    let m = v.moved().body;
    if m.contains(p) && p != m[0] {
        let i = choose|i: int| 0 <= i < m.len() && m[i] == p;
        assert(v.body[i - 1] == p);
    }
}

/// The segments added by growing sit on cells the snake already covers.
pub proof fn lemma_grown_covers_same_cells(v: SnakeView, n: nat, p: (int, int))
    requires
        v.body.len() >= 1,
    ensures
        v.grown(n).occupies(p) <==> v.occupies(p),
        v.grown(n).tail_covers(p) <== v.tail_covers(p),
{
    let g = v.grown(n).body;
    if g.contains(p) {
        let i = choose|i: int| 0 <= i < g.len() && g[i] == p;
        if i >= v.body.len() {
            assert(v.body[v.body.len() - 1] == p);
        } else {
            assert(v.body[i] == p);
        }
    }
    if v.body.contains(p) {
        let i = choose|i: int| 0 <= i < v.body.len() && v.body[i] == p;
        assert(g[i] == p);
    }
    if v.tail_covers(p) {
        let i = choose|i: int| 1 <= i < v.body.len() && v.body[i] == p;
        assert(g[i] == p);
    }
}

} // verus!
