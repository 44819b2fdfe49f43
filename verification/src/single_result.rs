use vstd::prelude::*;
use crate::detection::RTSUnitSoul;

verus! {

/// A component that holds a single detection result, for users to implement.
pub trait SingleResultDetection {
    /// The detection result that the component holds.
    spec fn held_detection(&self) -> Option<RTSUnitSoul>;

    /// Replaces the held detection result.
    fn set_detection(&mut self, detection: Option<RTSUnitSoul>)
        ensures
            final(self).held_detection() == detection,
    ;

    /// The held detection result.
    fn detection(&self) -> (r: Option<RTSUnitSoul>)
        ensures
            r == self.held_detection(),
    ;
}

} // verus!
