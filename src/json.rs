use vstd::prelude::*;

verus! {

/// A shape of a serialisable drawing, with the payload of its kind.
#[derive(Debug, Clone, Copy, PartialEq, Eq)]
pub enum Shape<D, L, R, N> {
    Disc(D),
    Line(L),
    Rect(R),
    Ngon(N),
}

/// An ordered list of shapes, drawn in list order.
#[derive(Debug)]
pub struct Shapes<D, L, R, N>(pub Vec<Shape<D, L, R, N>>);

impl<D, L, R, N> Shapes<D, L, R, N> {
    /// An empty list.
    pub fn new() -> (r: Self)
        ensures
            r.0@.len() == 0,
    {
        Shapes(Vec::new())
    }

    /// Appends a shape, returning the list for further additions.
    pub fn add(&mut self, shape: Shape<D, L, R, N>) -> (r: &mut Self)
        ensures
            r.0@ == old(self).0@.push(shape),
            *final(r) == *final(self),
    {
        self.0.push(shape);
        self
    }
}

} // verus!
