use vstd::prelude::*;

verus! {

/// The process-wide registration slot.
///
/// It holds the identity token of the active registrant, if any, and the
/// next token to hand out. Tokens are issued in increasing order, so within
/// one slot a token identifies one registration: a stale registrant can
/// always tell that it has been replaced. Tokens are unique per slot only
/// (every new slot starts again at zero), and nothing records which slot a
/// handler was registered in: callers use the handler with its own slot.
pub struct HookSlot {
    active: Option<u64>,
    next: u64,
}

impl HookSlot {
    /// The active registrant's token, if any.
    pub closed spec fn current(self) -> Option<u64> {
        self.active
    }

    /// The token that the next registration will receive.
    pub closed spec fn next_token(self) -> u64 {
        self.next
    }

    /// Every token in the slot was issued before the next one.
    pub closed spec fn wf(self) -> bool {
        self.active matches Some(t) ==> t < self.next
    }

    /// Whether one more token can be issued.
    pub open spec fn has_room(self) -> bool {
        self.next_token() < u64::MAX
    }

    /// Whether a fault is dispatched to the registrant holding `token`.
    pub open spec fn dispatches_to(self, token: u64) -> bool {
        self.current() == Some(token)
    }

    /// The slot after a new registrant took it, overwriting any other.
    pub closed spec fn after_install(self) -> HookSlot {
        HookSlot { active: Some(self.next), next: (self.next + 1) as u64 }
    }

    /// The slot after the registrant holding `token` left: emptied if that
    /// registrant is the active one, unchanged otherwise.
    pub closed spec fn after_clear(self, token: u64) -> HookSlot {
        if self.active == Some(token) {
            HookSlot { active: None, next: self.next }
        } else {
            self
        }
    }

    /// An empty slot, as at process start.
    pub fn new() -> (r: HookSlot)
        ensures
            r.wf(),
            r.current() is None,
            r.next_token() == 0,
    {
        HookSlot { active: None, next: 0 }
    }

    /// The active registrant's token, read by the fault entry point.
    pub fn current_token(&self) -> (r: Option<u64>)
        ensures
            r == self.current(),
    {
        self.active
    }

    /// Whether one more registration can be made.
    pub fn can_install(&self) -> (r: bool)
        ensures
            r == self.has_room(),
    {
        self.next < u64::MAX
    }

    /// Makes a new registrant the active one and returns its token.
    pub(crate) fn install(&mut self) -> (token: u64)
        requires
            old(self).wf(),
            old(self).has_room(),
        ensures
            token == old(self).next_token(),
            *final(self) == old(self).after_install(),
            final(self).wf(),
            final(self).current() == Some(token),
            final(self).next_token() == token + 1,
    {
        let token = self.next;
        self.active = Some(token);
        self.next = self.next + 1;
        token
    }

    /// Empties the slot if the registrant holding `token` is the active one.
    pub(crate) fn clear(&mut self, token: u64)
        requires
            old(self).wf(),
        ensures
            *final(self) == old(self).after_clear(token),
            final(self).wf(),
            final(self).current() != Some(token),
            old(self).current() != Some(token) ==> *final(self) == *old(self),
            final(self).next_token() == old(self).next_token(),
    {
        if self.active == Some(token) {
            self.active = None;
        }
    }
}

/// What installing does to a slot, in terms of its public views.
pub broadcast proof fn lemma_after_install(s: HookSlot)
    requires
        s.wf(),
        s.has_room(),
    ensures
        (#[trigger] s.after_install()).current() == Some(s.next_token()),
        s.after_install().next_token() == s.next_token() + 1,
        s.after_install().wf(),
{
}

/// What clearing does to a slot, in terms of its public views.
pub broadcast proof fn lemma_after_clear(s: HookSlot, token: u64)
    requires
        s.wf(),
    ensures
        (#[trigger] s.after_clear(token)).current() == (if s.current() == Some(token) {
            None
        } else {
            s.current()
        }),
        s.after_clear(token).next_token() == s.next_token(),
        s.after_clear(token).wf(),
        s.current() != Some(token) ==> s.after_clear(token) == s,
{
}

/// An empty slot sends a fault to no registrant at all.
pub proof fn lemma_empty_slot_dispatches_nowhere(s: HookSlot)
    requires
        s.current() is None,
    ensures
        forall|token: u64| !s.dispatches_to(token),
{
}

} // verus!
