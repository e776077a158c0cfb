//! Empty space that pushes its siblings apart.
use vstd::prelude::*;

use crate::geometry::{Point, Size};
use crate::host::Renderer;
use crate::view::{Env, Interactions, Widget};

verus! {

/// Takes whatever its siblings leave along a stack's axis, and draws and
/// declares nothing: it can never swallow a touch meant for a sibling.
///
/// It does not count across the stack either, so a spacer in a row never
/// makes the row taller.
pub struct Spacer {
    measured: Size,
}

impl Spacer {
    pub closed spec fn spec_measured(&self) -> Size {
        self.measured
    }

    pub fn new() -> (s: Spacer)
        ensures
            s.spec_measured() == Size::zero_spec(),
    {
        Spacer { measured: Size::zero() }
    }
}

impl<M> Widget<M> for Spacer {
    open spec fn spec_size(&self) -> Size {
        self.spec_measured()
    }

    open spec fn spec_flexible(&self) -> bool {
        true
    }

    open spec fn spec_contributes(&self) -> bool {
        false
    }

    fn is_flexible(&self) -> (b: bool) {
        true
    }

    fn contributes_cross_size(&self) -> (b: bool) {
        false
    }

    /// All of what it is offered.
    fn measure(&mut self, available: Size, env: &Env)
        ensures
            final(self).spec_measured() == available,
    {
        self.measured = available;
    }

    fn size(&self) -> (s: Size) {
        self.measured
    }

    fn render(&self, origin: Point, out: &mut Renderer, env: &Env)
        ensures
            *final(out) == *old(out),
    {
    }

    fn interactions(&mut self, origin: Point, out: &mut Interactions<M>, env: &Env)
        ensures
            *final(out) == *old(out),
    {
    }
}

} // verus!
