use vstd::prelude::*;

verus! {

/// Bang terminal of a behaviour-tree node.
/// Holds the active/inactive state of a node, and a flag asking the root of the
/// tree for a reset when that state changes.
#[derive(Clone, Copy, Debug, PartialEq, Eq, Structural)]
pub struct Bang {
    active: bool,
    update_to_root: bool,
}

impl Bang {
    /// Whether the node is active.
    pub closed spec fn active(self) -> bool {
        self.active
    }

    /// Whether a change of state still waits to be sent to the root.
    pub closed spec fn update_pending(self) -> bool {
        self.update_to_root
    }

    /// The bang of a fresh node: inactive, with nothing to send to the root.
    pub closed spec fn fresh() -> Bang {
        Bang { active: false, update_to_root: false }
    }

    /// The bang after an activation.
    pub closed spec fn activated(self) -> Bang {
        if self.active {
            self
        } else {
            Bang { active: true, update_to_root: true }
        }
    }

    /// The bang after a deactivation.
    pub closed spec fn deactivated(self) -> Bang {
        if !self.active {
            self
        } else {
            Bang { active: false, update_to_root: true }
        }
    }

    /// The bang after a deactivation handed down from a parent node:
    /// inactive, with the flag left as it was.
    pub closed spec fn propagated(self) -> Bang {
        Bang { active: false, update_to_root: self.update_to_root }
    }

    /// The bang once its pending update has been sent to the root.
    pub closed spec fn update_sent(self) -> Bang {
        Bang { active: self.active, update_to_root: false }
    }

    /// A new, inactive bang.
    pub fn new() -> (b: Bang)
        ensures
            b == Bang::fresh(),
            !b.active(),
            !b.update_pending(),
    {
        Bang { active: false, update_to_root: false }
    }

    /// Bang activation, done by latches that read the parent node.
    pub fn activate(&mut self)
        ensures
            *final(self) == old(self).activated(),
            final(self).active(),
            final(self).update_pending() == (old(self).update_pending() || !old(self).active()),
    {
        if self.active == true {
            return ;
        }
        self.update_to_root = true;
        self.active = true;
    }

    /// Bang deactivation, done by the systems that manage the node's behaviour.
    pub fn deactivate(&mut self)
        ensures
            *final(self) == old(self).deactivated(),
            !final(self).active(),
            final(self).update_pending() == (old(self).update_pending() || old(self).active()),
    {
        if self.active == false {
            return ;
        }
        self.update_to_root = true;
        self.active = false;
    }

    /// Whether the node is active.
    pub fn is_active(&self) -> (r: bool)
        ensures
            r == self.active(),
    {
        self.active
    }

    /// Deactivates without flagging a change.
    fn propogate_bang(&mut self)
        ensures
            *final(self) == old(self).propagated(),
    {
        self.active = false
    }

    /// Whether a change of state waits to be sent to the root.
    pub fn is_update_pending(&self) -> (r: bool)
        ensures
            r == self.update_pending(),
    {
        self.update_to_root
    }
}

impl Default for Bang {
    fn default() -> (b: Bang)
        ensures
            b == Bang::fresh(),
    {
        Bang::new()
    }
}

/// Deactivates the bang of a child node, as handed down from its parent.
pub fn bang_propogation(terminal: &mut Bang)
    ensures
        *final(terminal) == old(terminal).propagated(),
        !final(terminal).active(),
        final(terminal).update_pending() == old(terminal).update_pending(),
{
    terminal.propogate_bang();
}

/// Hands a deactivated node's state down to its children: when the node is
/// inactive, every child is deactivated (without flagging a change); when it is
/// active, the children are left alone.
pub fn bang_propogation_sys(node: &Bang, children: &mut Vec<Bang>)
    ensures
        final(children)@.len() == old(children)@.len(),
        node.active() ==> final(children)@ == old(children)@,
        !node.active() ==> forall|i: int|
            0 <= i < old(children)@.len() ==> #[trigger] final(children)@[i]
                == old(children)@[i].propagated(),
{
    if node.is_active() {
        return ;
    }
    let n = children.len();
    let mut i: usize = 0;
    while i < n
        invariant
            n == old(children)@.len(),
            children@.len() == n,
            0 <= i <= n,
            forall|j: int| 0 <= j < i ==> #[trigger] children@[j] == old(children)@[j].propagated(),
            forall|j: int| i <= j < n ==> #[trigger] children@[j] == old(children)@[j],
        decreases n - i,
    {
        let mut child = children[i];
        bang_propogation(&mut child);
        children.set(i, child);
        i = i + 1;
    }
}

/// Lowers the update flag of every terminal that has it raised, and returns,
/// in increasing order, the positions of those terminals: each of them sends a
/// reset signal to the root of its tree.
pub fn bang_update_to_root_sys(terminals: &mut Vec<Bang>) -> (signalled: Vec<usize>)
    ensures
        final(terminals)@.len() == old(terminals)@.len(),
        forall|i: int|
            0 <= i < old(terminals)@.len() ==> #[trigger] final(terminals)@[i]
                == old(terminals)@[i].update_sent(),
        forall|k: int|
            0 <= k < signalled@.len() ==> signalled@[k] < old(terminals)@.len()
                && old(terminals)@[signalled@[k] as int].update_pending(),
        forall|k: int, l: int| 0 <= k < l < signalled@.len() ==> signalled@[k] < signalled@[l],
        forall|i: int|
            0 <= i < old(terminals)@.len() && #[trigger] old(terminals)@[i].update_pending()
                ==> signalled@.contains(i as usize),
{
    let n = terminals.len();
    let mut signalled: Vec<usize> = Vec::new();
    let mut i: usize = 0;
    while i < n
        invariant
            n == old(terminals)@.len(),
            terminals@.len() == n,
            0 <= i <= n,
            forall|j: int| 0 <= j < i ==> #[trigger] terminals@[j] == old(terminals)@[j].update_sent(),
            forall|j: int| i <= j < n ==> #[trigger] terminals@[j] == old(terminals)@[j],
            forall|k: int|
                0 <= k < signalled@.len() ==> signalled@[k] < i
                    && old(terminals)@[signalled@[k] as int].update_pending(),
            forall|k: int, l: int| 0 <= k < l < signalled@.len() ==> signalled@[k] < signalled@[l],
            forall|j: int|
                0 <= j < i && #[trigger] old(terminals)@[j].update_pending()
                    ==> signalled@.contains(j as usize),
        decreases n - i,
    {
        let terminal = terminals[i];
        let ghost before = signalled@;
        if terminal.update_to_root {
            signalled.push(i);
            assert(signalled@[signalled@.len() - 1] == i);
            assert forall|j: int|
                0 <= j < i && #[trigger] old(terminals)@[j].update_pending() implies signalled@.contains(
                j as usize,
            ) by {
                let k = choose|k: int| 0 <= k < before.len() && before[k] == j as usize;
                assert(signalled@[k] == before[k]);
            }
        }
        terminals.set(i, Bang { active: terminal.active, update_to_root: false });
        i = i + 1;
    }
    signalled
}

/// Activating an active bang changes nothing, and neither does deactivating
/// an inactive one: activation and deactivation are idempotent.
pub proof fn lemma_activation_idempotent(b: Bang)
    ensures
        b.activated().activated() == b.activated(),
        b.deactivated().deactivated() == b.deactivated(),
        b.active() ==> b.activated() == b,
        !b.active() ==> b.deactivated() == b,
{
}

/// Every change of a bang's state raises the flag that sends it to the root,
/// and the flag stays raised until it is sent: activating then deactivating a
/// fresh bang leaves it inactive with an update pending.
pub proof fn lemma_state_change_reaches_root(b: Bang)
    ensures
        b.active() != b.activated().active() ==> b.activated().update_pending(),
        b.active() != b.deactivated().active() ==> b.deactivated().update_pending(),
        b.update_pending() ==> b.activated().update_pending() && b.deactivated().update_pending(),
        !Bang::fresh().activated().deactivated().active(),
        Bang::fresh().activated().deactivated().update_pending(),
{
}

/// A deactivation handed down from a parent neither raises nor lowers the
/// flag, and sending a pending update keeps the state while lowering it.
pub proof fn lemma_propagation_is_silent(b: Bang)
    ensures
        !b.propagated().active(),
        b.propagated().update_pending() == b.update_pending(),
        b.update_sent().active() == b.active(),
        !b.update_sent().update_pending(),
        !b.update_pending() ==> b.update_sent() == b,
{
}

} // verus!
