use vstd::prelude::*;

verus! {

/// What a square stands for; the renderer picks its size and colour from this.
#[derive(Clone, Copy, Debug, PartialEq, Eq, Structural)]
pub enum Role {
    Head,
    Tail,
    Food,
}

/// A single occupied cell of the board.
#[derive(Clone, Copy, Debug)]
pub struct Square {
    position: (i64, i64),
    role: Role,
}

/// The piece of food; only its position matters to the game.
pub type Food = Square;

/// A grid position read as a pair of mathematical integers.
pub open spec fn cell(p: (i64, i64)) -> (int, int) {
    (p.0 as int, p.1 as int)
}

impl Square {
    pub closed spec fn spec_position(&self) -> (int, int) {
        cell(self.position)
    }

    pub closed spec fn spec_role(&self) -> Role {
        self.role
    }

    pub fn new(position: (i64, i64), role: Role) -> (r: Square)
        ensures
            r.spec_position() == cell(position),
            r.spec_role() == role,
    {
        Square { position, role }
    }

    /// A food square at `position`.
    pub fn new_food(position: (i64, i64)) -> (r: Food)
        ensures
            r.spec_position() == cell(position),
            r.spec_role() == Role::Food,
    {
        Square { position, role: Role::Food }
    }

    pub fn get_position(&self) -> (r: (i64, i64))
        ensures
            cell(r) == self.spec_position(),
    {
        self.position
    }

    pub fn get_role(&self) -> (r: Role)
        ensures
            r == self.spec_role(),
    {
        self.role
    }

    pub fn set_position(&mut self, position: (i64, i64))
        ensures
            final(self).spec_position() == cell(position),
            final(self).spec_role() == old(self).spec_role(),
    {
        self.position = position;
    }

    pub fn set_role(&mut self, role: Role)
        ensures
            final(self).spec_position() == old(self).spec_position(),
            final(self).spec_role() == role,
    {
        self.role = role;
    }

    /// Whether this square lies on `position`.
    pub fn is_at(&self, position: (i64, i64)) -> (r: bool)
        ensures
            r == (self.spec_position() == cell(position)),
    {
        self.position.0 == position.0 && self.position.1 == position.1
    }
}

} // verus!
