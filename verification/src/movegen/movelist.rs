//! A list of moves, as filled by the move generator.
use super::defs::Move;
use vstd::prelude::*;

verus! {

/// The list of moves of a position.
pub struct MoveList {
    list: Vec<Move>,
}

impl View for MoveList {
    type V = Seq<Move>;

    closed spec fn view(&self) -> Seq<Move> {
        self.list@
    }
}

impl MoveList {
    pub fn new() -> (ml: Self)
        ensures
            ml@ == Seq::<Move>::empty(),
    {
        Self { list: Vec::new() }
    }

    /// The number of moves in the list.
    pub fn len(&self) -> (n: usize)
        ensures
            n == self@.len(),
    {
        self.list.len()
    }

    /// The move at `index`.
    pub fn get_move(&self, index: usize) -> (m: Move)
        requires
            index < self@.len(),
        ensures
            m == self@[index as int],
    {
        self.list[index]
    }

    /// A mutable reference to the move at `index`.
    pub fn get_mut_ref_move(&mut self, index: usize) -> (m: &mut Move)
        requires
            index < old(self)@.len(),
        ensures
            *m == old(self)@[index as int],
            final(self)@ == old(self)@.update(index as int, *final(m)),
    {
        &mut self.list[index]
    }

    /// Swaps the moves at `a` and `b`.
    pub fn swap(&mut self, a: usize, b: usize)
        requires
            a < old(self)@.len(),
            b < old(self)@.len(),
        ensures
            final(self)@ == old(self)@.update(a as int, old(self)@[b as int]).update(b as int, old(self)@[a as int]),
    {
        let ma = self.list[a];
        let mb = self.list[b];
        self.list.set(a, mb);
        self.list.set(b, ma);
    }

    /// Adds a move at the end of the list.
    pub fn push(&mut self, m: Move)
        ensures
            final(self)@ == old(self)@.push(m),
    {
        self.list.push(m);
    }
}

} // verus!
