use vstd::prelude::*;
use crate::fault::{report_text, write_report, FaultInfo};
use crate::sink::{wrote, Sink, WriteError};
use crate::slot::{lemma_after_clear, lemma_after_install, HookSlot};

verus! {

/// Owns a sink and keeps it registered as the target of fault reports.
///
/// Registration is recorded in a [`HookSlot`] as the handler's identity
/// token rather than as its address, so the handler may be moved freely:
/// the slot never refers to the handler's memory.
///
/// A handler ends its registration through [`PanicHandler::detach`] or
/// [`PanicHandler::destroy`]; there is no `Drop` that does it. A handler
/// dropped otherwise leaves its token active in the slot, and later faults
/// then reach no sink, since no live handler holds that token.
pub struct PanicHandler<W: Sink> {
    writer: W,
    token: u64,
}

impl<W: Sink> PanicHandler<W> {
    /// The owned sink.
    pub closed spec fn writer(self) -> W {
        self.writer
    }

    /// The identity under which this handler was registered.
    pub closed spec fn token(self) -> u64 {
        self.token
    }

    /// The handler that registering `writer` in `slot` yields.
    pub closed spec fn registered(writer: W, slot: HookSlot) -> PanicHandler<W> {
        PanicHandler { writer, token: slot.next_token() }
    }

    /// Wraps `writer` and makes it the active target of fault reports,
    /// replacing whatever registrant the slot held.
    pub fn new(writer: W, slot: &mut HookSlot) -> (r: PanicHandler<W>)
        requires
            old(slot).wf(),
            old(slot).has_room(),
        ensures
            r == PanicHandler::registered(writer, *old(slot)),
            r.writer() == writer,
            r.token() == old(slot).next_token(),
            *final(slot) == old(slot).after_install(),
            final(slot).wf(),
            final(slot).current() == Some(r.token()),
            final(slot).next_token() == old(slot).next_token() + 1,
    {
        let token = slot.install();
        PanicHandler { writer, token }
    }

    /// Ends the registration and hands the sink back. The slot is emptied
    /// if this handler is still the active registrant; a later registrant
    /// keeps it.
    pub fn detach(handler: PanicHandler<W>, slot: &mut HookSlot) -> (r: W)
        requires
            old(slot).wf(),
        ensures
            r == handler.writer(),
            *final(slot) == old(slot).after_clear(handler.token()),
            final(slot).wf(),
            old(slot).dispatches_to(handler.token()) ==> final(slot).current() is None,
            !old(slot).dispatches_to(handler.token()) ==> *final(slot) == *old(slot),
            final(slot).next_token() == old(slot).next_token(),
    {
        proof {
            lemma_after_clear(*slot, handler.token);
        }
        slot.clear(handler.token);
        handler.writer
    }

    /// Ends the registration and drops the sink, with the same effect on
    /// the slot as [`PanicHandler::detach`].
    pub fn destroy(self, slot: &mut HookSlot)
        requires
            old(slot).wf(),
        ensures
            *final(slot) == old(slot).after_clear(self.token()),
            final(slot).wf(),
            old(slot).dispatches_to(self.token()) ==> final(slot).current() is None,
            !old(slot).dispatches_to(self.token()) ==> *final(slot) == *old(slot),
            final(slot).next_token() == old(slot).next_token(),
    {
        proof {
            lemma_after_clear(*slot, self.token);
        }
        slot.clear(self.token);
    }

    /// Whether fault reports in `slot` go to this handler.
    pub fn is_active(&self, slot: &HookSlot) -> (r: bool)
        ensures
            r == slot.dispatches_to(self.token()),
    {
        match slot.current_token() {
            Some(t) => t == self.token,
            None => false,
        }
    }

    /// Writes the report of `info` into the owned sink. A refused write is
    /// dropped: once a fault is being handled there is nowhere to send it.
    pub fn report_fault(&mut self, info: &FaultInfo<'_>)
        ensures
            final(self).token() == old(self).token(),
            wrote(W::text(old(self).writer()@), report_text(*info), false, W::text(final(self).writer()@)),
            W::takes(old(self).writer()@, report_text(*info).len()) ==> W::text(final(self).writer()@)
                == W::text(old(self).writer()@) + report_text(*info),
    {
        let _ = write_report(&mut self.writer, info);
    }

    /// The owned sink.
    pub fn get_ref(&self) -> (r: &W)
        ensures
            *r == self.writer(),
    {
        &self.writer
    }
}

/// Registering a sink and releasing it at once hands back that very sink
/// and leaves the slot empty.
pub proof fn lemma_round_trip<W: Sink>(writer: W, slot: HookSlot)
    requires
        slot.wf(),
        slot.has_room(),
    ensures
        PanicHandler::registered(writer, slot).writer() == writer,
        slot.after_install().after_clear(PanicHandler::registered(writer, slot).token()).current() is None,
{
    broadcast use {lemma_after_install, lemma_after_clear};
}

/// After two registrations in a row, faults go to the second registrant
/// and never to the first.
pub proof fn lemma_single_active<W: Sink>(first: W, second: W, slot: HookSlot)
    requires
        slot.wf(),
        slot.has_room(),
        slot.after_install().has_room(),
    ensures
        ({
            let h1 = PanicHandler::registered(first, slot);
            let h2 = PanicHandler::registered(second, slot.after_install());
            let s2 = slot.after_install().after_install();
            s2.dispatches_to(h2.token()) && !s2.dispatches_to(h1.token())
        }),
{
    broadcast use {lemma_after_install, lemma_after_clear};
}

/// Releasing or destroying a handler that a later registration replaced
/// leaves the slot, and so the later registrant, untouched.
pub proof fn lemma_stale_clear_keeps_later<W: Sink>(first: W, second: W, slot: HookSlot)
    requires
        slot.wf(),
        slot.has_room(),
        slot.after_install().has_room(),
    ensures
        ({
            let h1 = PanicHandler::registered(first, slot);
            let h2 = PanicHandler::registered(second, slot.after_install());
            let s2 = slot.after_install().after_install();
            &&& s2.after_clear(h1.token()) == s2
            &&& s2.after_clear(h1.token()).dispatches_to(h2.token())
        }),
{
    broadcast use {lemma_after_install, lemma_after_clear};
}

/// A write through the handler does exactly what the same write does on a
/// sink in the same state as the owned one: the same result, refusals
/// included, and the same state after it.
pub proof fn lemma_pass_through<W: Sink>(handler: PanicHandler<W>, direct: W, s: Seq<char>)
    requires
        handler.writer()@ == direct@,
    ensures
        PanicHandler::<W>::accepts(handler@, s) == W::accepts(direct@, s),
        PanicHandler::<W>::after_write(handler@, s) == W::after_write(direct@, s),
        PanicHandler::<W>::text(handler@) == W::text(direct@),
{
}

impl<W: Sink> View for PanicHandler<W> {
    /// The model of the owned sink.
    type V = W::V;

    open spec fn view(&self) -> W::V {
        self.writer()@
    }
}

impl<W: Sink> Sink for PanicHandler<W> {
    open spec fn text(m: W::V) -> Seq<char> {
        W::text(m)
    }

    open spec fn accepts(m: W::V, s: Seq<char>) -> bool {
        W::accepts(m, s)
    }

    open spec fn after_write(m: W::V, s: Seq<char>) -> W::V {
        W::after_write(m, s)
    }

    open spec fn takes(m: W::V, n: nat) -> bool {
        W::takes(m, n)
    }

    /// Forwards the write to the owned sink and hands back its result.
    fn write_str(&mut self, s: &str) -> (r: Result<(), WriteError>)
        ensures
            final(self).token() == old(self).token(),
            (r is Ok) == W::accepts(old(self).writer()@, s@),
            final(self).writer()@ == W::after_write(old(self).writer()@, s@),
    {
        self.writer.write_str(s)
    }
}

} // verus!
