//! A two-way cursor over an indexable sequence: one step forward, one step
//! back, and lookahead of one position, all without faults — out-of-range
//! access is an absent result, never an error.

use vstd::prelude::*;

verus! {

/// A reversible cursor with one-step lookahead. `elements` is the sequence
/// walked and `position` the current index into it; `next` consumes the
/// current element, `prev` steps back to re-read the one before it, and the
/// two peeks read without moving.
pub trait SuperIterator {
    type Item;

    spec fn elements(&self) -> Seq<Self::Item>;

    spec fn position(&self) -> int;

    /// Returns the current element and moves one step past it.
    fn next(&mut self) -> (r: Option<Self::Item>)
        ensures
            final(self).elements() == old(self).elements(),
            0 <= old(self).position() < old(self).elements().len() ==> {
                &&& final(self).position() == old(self).position() + 1
                &&& r == Some(old(self).elements()[old(self).position()])
            },
            !(0 <= old(self).position() < old(self).elements().len()) ==> {
                &&& final(self).position() == old(self).position()
                &&& r is None
            },
    ;

    /// Moves one step back and returns the element now under the cursor.
    fn prev(&mut self) -> (r: Option<Self::Item>)
        ensures
            final(self).elements() == old(self).elements(),
            0 < old(self).position() <= old(self).elements().len() ==> {
                &&& final(self).position() == old(self).position() - 1
                &&& r == Some(old(self).elements()[old(self).position() - 1])
            },
            !(0 < old(self).position() <= old(self).elements().len()) ==> {
                &&& final(self).position() == old(self).position()
                &&& r is None
            },
    ;

    /// Reads the current element without moving.
    fn peek(&self) -> (r: Option<Self::Item>)
        ensures
            0 <= self.position() < self.elements().len() ==> r == Some(
                self.elements()[self.position()],
            ),
            !(0 <= self.position() < self.elements().len()) ==> r is None,
    ;

    /// Reads the element one past the current one without moving.
    fn peek_next(&self) -> (r: Option<Self::Item>)
        ensures
            0 <= self.position() + 1 < self.elements().len() ==> r == Some(
                self.elements()[self.position() + 1],
            ),
            !(0 <= self.position() + 1 < self.elements().len()) ==> r is None,
    ;
}

} // verus!
