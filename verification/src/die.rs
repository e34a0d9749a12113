use vstd::prelude::*;

use crate::rollable::Rollable;
use vstd::std_specs::ops::AddSpec;

verus! {

/// The abstract state of a die: its face count and the face it shows.
pub struct DieView<T> {
    /// The die's immutable maximum face.
    pub faces: T,
    /// The face the die currently shows.
    pub value: T,
}

/// A single die. It is created already rolled: construction draws an
/// initial random face, and `roll` draws a fresh one.
#[derive(Clone, Copy, Debug)]
pub struct Die<T: Rollable = u32> {
    faces: T,
    current_value: T,
}

impl<T: Rollable> View for Die<T> {
    type V = DieView<T>;

    closed spec fn view(&self) -> DieView<T> {
        DieView { faces: self.faces, value: self.current_value }
    }
}

impl<T: Rollable> Die<T> {
    /// A well-formed die shows a face between 1 and its face count.
    pub open spec fn wf(self) -> bool {
        1 <= self@.value.as_nat() <= self@.faces.as_nat()
    }

    /// Creates a single die with the specified number of faces,
    /// rolled once so that it already shows a face. A die must have at
    /// least one face: the precondition rules out a zero-face die,
    /// which would have no face to show.
    pub fn new(faces: T) -> (die: Die<T>)
        requires
            1 <= faces.as_nat(),
        ensures
            die.wf(),
            die@.faces == faces,
    {
        let die = Die { faces, current_value: T::roll(faces) };
        die
    }

    /// Rolls the die: overwrites the current face with a fresh draw
    /// between 1 and the face count, and returns the new face.
    pub fn roll(&mut self) -> (r: T)
        requires
            old(self).wf(),
        ensures
            final(self).wf(),
            final(self)@.faces == old(self)@.faces,
            r == final(self)@.value,
    {
        self.current_value = T::roll(self.faces);
        self.current_value
    }

    /// The face the die currently shows.
    pub fn current_face(&self) -> (r: T)
        ensures
            r == self@.value,
    {
        self.current_value
    }

    /// The die's face count.
    pub fn faces(&self) -> (r: T)
        ensures
            r == self@.faces,
    {
        self.faces
    }
}

impl<T: Rollable + AddSpec<Output = T>> std::ops::Add for Die<T> {
    type Output = T;

    /// Adds the faces that the two dice currently show.
    fn add(self, other: Die<T>) -> T {
        self.current_value + other.current_value
    }
}

impl<T: Rollable + AddSpec<Output = T>> vstd::std_specs::ops::AddSpecImpl for Die<T> {
    open spec fn obeys_add_spec() -> bool {
        T::obeys_add_spec()
    }

    open spec fn add_req(self, rhs: Die<T>) -> bool {
        self@.value.add_req(rhs@.value)
    }

    open spec fn add_spec(self, rhs: Die<T>) -> T {
        self@.value.add_spec(rhs@.value)
    }
}

} // verus!
