use vstd::prelude::*;
use crate::handler::PanicHandler;
use crate::sink::{lemma_wrote_stop, lemma_wrote_then, wrote, Sink, WriteError};
use crate::slot::HookSlot;

verus! {

/// Where in the source a fault was raised.
pub struct Location<'a> {
    pub file: &'a str,
    pub line: u32,
    pub column: u32,
}

/// What the environment reports about a fault.
pub struct FaultInfo<'a> {
    pub message: &'a str,
    pub location: Option<Location<'a>>,
}

/// The state reached once a fault has been handled. Nothing leaves it.
#[derive(Debug, Clone, Copy, PartialEq, Eq, Structural)]
pub struct Halted;

/// The character of the decimal digit `d`.
pub open spec fn digit_char(d: nat) -> char {
    if d == 0 { '0' }
    else if d == 1 { '1' }
    else if d == 2 { '2' }
    else if d == 3 { '3' }
    else if d == 4 { '4' }
    else if d == 5 { '5' }
    else if d == 6 { '6' }
    else if d == 7 { '7' }
    else if d == 8 { '8' }
    else { '9' }
}

/// `n` in decimal, without leading zeros.
pub open spec fn decimal(n: nat) -> Seq<char>
    decreases n,
{
    if n < 10 {
        seq![digit_char(n)]
    } else {
        decimal(n / 10) + seq![digit_char(n % 10)]
    }
}

/// A location as `file:line:column`.
pub open spec fn location_text(loc: Location<'_>) -> Seq<char> {
    loc.file@ + ":"@ + decimal(loc.line as nat) + ":"@ + decimal(loc.column as nat)
}

/// The text of a fault report: `panicked at file:line:column:` (or just
/// `panicked:` without a location), a line break, then the message.
pub open spec fn report_text(info: FaultInfo<'_>) -> Seq<char> {
    let at = match info.location {
        Some(loc) => " at "@ + location_text(loc),
        None => Seq::empty(),
    };
    "panicked"@ + at + ":\n"@ + info.message@
}

/// The one-character text of the decimal digit `d`.
fn digit_str(d: u32) -> (r: &'static str)
    requires
        d < 10,
    ensures
        r@ == seq![digit_char(d as nat)],
{
    proof {
        reveal_strlit("0");
        reveal_strlit("1");
        reveal_strlit("2");
        reveal_strlit("3");
        reveal_strlit("4");
        reveal_strlit("5");
        reveal_strlit("6");
        reveal_strlit("7");
        reveal_strlit("8");
        reveal_strlit("9");
    }
    match d {
        0 => "0",
        1 => "1",
        2 => "2",
        3 => "3",
        4 => "4",
        5 => "5",
        6 => "6",
        7 => "7",
        8 => "8",
        _ => "9",
    }
}

/// Writes `n` in decimal, most significant digit first, one digit at a
/// time and without a buffer.
pub fn write_decimal<W: Sink>(w: &mut W, n: u32) -> (r: Result<(), WriteError>)
    ensures
        wrote(W::text(old(w)@), decimal(n as nat), r is Ok, W::text(final(w)@)),
        forall|k: nat| #[trigger] W::takes(old(w)@, k + decimal(n as nat).len()) ==> r is Ok && W::takes(final(w)@, k),
    decreases n,
{
    if n < 10 {
        return w.write_str(digit_str(n));
    }
    let ghost m0 = (*w)@;
    let ghost head = decimal((n / 10) as nat);
    let ghost last = seq![digit_char((n % 10) as nat)];
    assert(decimal(n as nat) == head + last);
    let r = write_decimal(w, n / 10);
    if r.is_err() {
        proof {
            lemma_wrote_stop(W::text(m0), head, false, W::text((*w)@), last);
            assert forall|k: nat| #[trigger] W::takes(m0, k + decimal(n as nat).len()) implies r is Ok && W::takes((*w)@, k) by {
                assert(W::takes(m0, (k + 1) + head.len()));
            }
        }
        return r;
    }
    let ghost m1 = (*w)@;
    let r = w.write_str(digit_str(n % 10));
    proof {
        lemma_wrote_then(W::text(m0), head, W::text(m1), last, r is Ok, W::text((*w)@));
        assert forall|k: nat| #[trigger] W::takes(m0, k + decimal(n as nat).len()) implies r is Ok && W::takes((*w)@, k) by {
            assert(W::takes(m0, (k + 1) + head.len()));
            assert(W::takes(m1, k + last.len()));
        }
    }
    r
}

/// One more piece of a text `whole`, written into a sink that held
/// `before + done`: what the sink holds after it, on success and on
/// failure, and what remains of a promise to take all of `whole`.
proof fn lemma_piece<W: Sink>(
    before: Seq<char>,
    done: Seq<char>,
    piece: Seq<char>,
    whole: Seq<char>,
    m0: W::V,
    m1: W::V,
    ok: bool,
)
    requires
        W::text(m0) == before + done,
        (done + piece).is_prefix_of(whole),
        wrote(W::text(m0), piece, ok, W::text(m1)),
        forall|k: nat| #[trigger] W::takes(m0, k + piece.len()) ==> ok && W::takes(m1, k),
    ensures
        ok ==> W::text(m1) == before + (done + piece),
        wrote(before, whole, false, W::text(m1)),
        W::takes(m0, (whole.len() - done.len()) as nat) ==> ok && W::takes(
            m1,
            (whole.len() - (done + piece).len()) as nat,
        ),
{
    let rest = whole.subrange((done + piece).len() as int, whole.len() as int);
    assert(whole =~= (done + piece) + rest);
    lemma_wrote_then(before, done, before + done, piece, ok, W::text(m1));
    lemma_wrote_stop(before, done + piece, ok, W::text(m1), rest);
    let k = (whole.len() - (done + piece).len()) as nat;
    assert(k + piece.len() == (whole.len() - done.len()) as nat);
    assert(W::takes(m0, (whole.len() - done.len()) as nat) ==> W::takes(m0, k + piece.len()));
}

/// Writes the report of `info`, as [`report_text`] gives it, stopping at
/// the first write the sink refuses. A sink sure to take that much text
/// receives all of it.
pub fn write_report<W: Sink>(w: &mut W, info: &FaultInfo<'_>) -> (r: Result<(), WriteError>)
    ensures
        wrote(W::text(old(w)@), report_text(*info), r is Ok, W::text(final(w)@)),
        W::takes(old(w)@, report_text(*info).len()) ==> r is Ok,
{
    let ghost before = W::text((*w)@);
    let ghost whole = report_text(*info);
    let ghost mut done = Seq::<char>::empty();
    assert(before + done =~= before);
    let ghost mut m = (*w)@;
    let r = w.write_str("panicked");
    proof { lemma_piece::<W>(before, done, "panicked"@, whole, m, (*w)@, r is Ok); }
    if r.is_err() {
        return r;
    }
    proof { done = done + "panicked"@; m = (*w)@; }
    match &info.location {
        Some(loc) => {
            assert(whole =~= "panicked"@ + " at "@ + loc.file@ + ":"@ + decimal(loc.line as nat) + ":"@
                + decimal(loc.column as nat) + ":\n"@ + info.message@);
            let r = w.write_str(" at ");
            proof { lemma_piece::<W>(before, done, " at "@, whole, m, (*w)@, r is Ok); }
            if r.is_err() {
                return r;
            }
            proof { done = done + " at "@; m = (*w)@; }
            let r = w.write_str(loc.file);
            proof { lemma_piece::<W>(before, done, loc.file@, whole, m, (*w)@, r is Ok); }
            if r.is_err() {
                return r;
            }
            proof { done = done + loc.file@; m = (*w)@; }
            let r = w.write_str(":");
            proof { lemma_piece::<W>(before, done, ":"@, whole, m, (*w)@, r is Ok); }
            if r.is_err() {
                return r;
            }
            proof { done = done + ":"@; m = (*w)@; }
            let r = write_decimal(w, loc.line);
            proof { lemma_piece::<W>(before, done, decimal(loc.line as nat), whole, m, (*w)@, r is Ok); }
            if r.is_err() {
                return r;
            }
            proof { done = done + decimal(loc.line as nat); m = (*w)@; }
            let r = w.write_str(":");
            proof { lemma_piece::<W>(before, done, ":"@, whole, m, (*w)@, r is Ok); }
            if r.is_err() {
                return r;
            }
            proof { done = done + ":"@; m = (*w)@; }
            let r = write_decimal(w, loc.column);
            proof { lemma_piece::<W>(before, done, decimal(loc.column as nat), whole, m, (*w)@, r is Ok); }
            if r.is_err() {
                return r;
            }
            proof { done = done + decimal(loc.column as nat); m = (*w)@; }
        },
        None => {},
    }
    let r = w.write_str(":\n");
    proof { lemma_piece::<W>(before, done, ":\n"@, whole, m, (*w)@, r is Ok); }
    if r.is_err() {
        return r;
    }
    proof { done = done + ":\n"@; m = (*w)@; }
    let r = w.write_str(info.message);
    proof {
        lemma_piece::<W>(before, done, info.message@, whole, m, (*w)@, r is Ok);
        if r is Ok {
            assert(done + info.message@ =~= whole);
        }
    }
    r
}

/// The fault entry point. The report of `info` goes to `handler` if it is
/// the slot's active registrant, and nowhere otherwise; then the halted
/// state is reached, whatever became of the report. An active handler
/// whose sink is sure to take the whole report receives it exactly once.
pub fn handle_fault<W: Sink>(slot: &HookSlot, handler: &mut PanicHandler<W>, info: &FaultInfo<'_>) -> (r: Halted)
    ensures
        final(handler).token() == old(handler).token(),
        slot.dispatches_to(old(handler).token()) ==> wrote(
            W::text(old(handler).writer()@),
            report_text(*info),
            false,
            W::text(final(handler).writer()@),
        ),
        slot.dispatches_to(old(handler).token()) && W::takes(old(handler).writer()@, report_text(*info).len())
            ==> W::text(final(handler).writer()@) == W::text(old(handler).writer()@) + report_text(*info),
        !slot.dispatches_to(old(handler).token()) ==> *final(handler) == *old(handler),
{
    if handler.is_active(slot) {
        handler.report_fault(info);
    }
    Halted
}

} // verus!
