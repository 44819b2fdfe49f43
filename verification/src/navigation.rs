use vstd::prelude::*;

verus! {

/// Switch-able navigation for attack move orders.
/// Can be switched on and off, because other systems are expected to manage
/// the behaviour that pertains to the unit stopping when in range.
/// When off, the navigation outputs zero.
#[derive(Clone, Copy, Debug, PartialEq, Eq, Structural)]
pub struct AttackTargetNavigation(pub bool);

impl AttackTargetNavigation {
    /// Whether the navigation is switched on.
    pub fn is_on(&self) -> (r: bool)
        ensures
            r == self.0,
    {
        return self.0
    }
}

} // verus!
