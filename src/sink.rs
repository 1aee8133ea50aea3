use vstd::prelude::*;
use vstd::string::StrSliceExecFns;
use vstd::string::StringExecFns;

verus! {

/// A sink declined to take (all of) some text.
#[derive(Debug, Clone, Copy, PartialEq, Eq, Structural)]
pub struct WriteError;

/// What one write of `s` may do to a sink whose text was `before`: the text
/// only grows, by a prefix of `s`, and by all of `s` when the write succeeds.
pub open spec fn wrote(before: Seq<char>, s: Seq<char>, ok: bool, after: Seq<char>) -> bool {
    &&& before.len() <= after.len()
    &&& after.is_prefix_of(before + s)
    &&& ok ==> after == before + s
}

/// A write that stopped early also stopped short of any longer text.
pub proof fn lemma_wrote_stop(before: Seq<char>, s: Seq<char>, ok: bool, after: Seq<char>, more: Seq<char>)
    requires
        wrote(before, s, ok, after),
    ensures
        wrote(before, s + more, false, after),
{
    assert((before + s + more).subrange(0, (before + s).len() as int) =~= before + s);
    assert(before + s + more =~= before + (s + more));
}

/// Two writes in a row, the first whole, act as one write of both texts.
pub proof fn lemma_wrote_then(
    before: Seq<char>,
    s: Seq<char>,
    mid: Seq<char>,
    t: Seq<char>,
    ok: bool,
    after: Seq<char>,
)
    requires
        mid == before + s,
        wrote(mid, t, ok, after),
    ensures
        wrote(before, s + t, ok, after),
{
    assert(before + s + t =~= before + (s + t));
}

/// A destination for formatted text: a serial port, a console, a log buffer.
///
/// A sink's behaviour is a function of its model (its view): the model fixes
/// the text held so far, whether a write is taken, and the model after it.
/// Two sinks with the same model therefore behave alike from then on.
pub trait Sink: View + Sized {
    /// The text held by a sink in state `m`.
    spec fn text(m: Self::V) -> Seq<char>;

    /// Whether a sink in state `m` takes all of `s` in one write.
    spec fn accepts(m: Self::V, s: Seq<char>) -> bool;

    /// The state of a sink in state `m` after a write of `s`.
    spec fn after_write(m: Self::V, s: Seq<char>) -> Self::V;

    /// Whether a sink in state `m` is sure to take whole every write, as
    /// long as they add up to at most `n` characters.
    spec fn takes(m: Self::V, n: nat) -> bool;

    /// Appends `s`, reporting whether all of it was taken.
    fn write_str(&mut self, s: &str) -> (r: Result<(), WriteError>)
        ensures
            (r is Ok) == Self::accepts(old(self)@, s@),
            final(self)@ == Self::after_write(old(self)@, s@),
            wrote(Self::text(old(self)@), s@, r is Ok, Self::text(final(self)@)),
            forall|k: nat| #[trigger] Self::takes(old(self)@, k + s@.len()) ==> r is Ok && Self::takes(final(self)@, k),
    ;
}

/// A sink that keeps its text in memory, up to a fixed number of
/// characters. A write that does not fit is refused whole.
pub struct BufferSink {
    buf: String,
    capacity: usize,
}

impl View for BufferSink {
    /// The text held, and the most characters the sink will hold.
    type V = (Seq<char>, nat);

    closed spec fn view(&self) -> (Seq<char>, nat) {
        (self.buf@, self.capacity as nat)
    }
}

impl BufferSink {
    /// An empty sink that holds at most `capacity` characters.
    pub fn new(capacity: usize) -> (r: BufferSink)
        ensures
            r@ == (Seq::<char>::empty(), capacity as nat),
    {
        BufferSink { buf: String::new(), capacity }
    }

    /// The text accepted so far.
    pub fn as_str(&self) -> (r: &str)
        ensures
            r@ == self@.0,
    {
        self.buf.as_str()
    }

    /// The number of characters accepted so far.
    pub fn len(&self) -> (r: usize)
        ensures
            r == self@.0.len(),
    {
        self.buf.as_str().unicode_len()
    }

    /// The most characters the sink will hold.
    pub fn capacity(&self) -> (r: usize)
        ensures
            r == self@.1,
    {
        self.capacity
    }

    /// Writes `s` into the sink: taken whole when it fits in the room left,
    /// refused with the sink unchanged otherwise.
    pub fn push(&mut self, s: &str) -> (r: Result<(), WriteError>)
        ensures
            (r is Ok) == (old(self)@.0.len() + s@.len() <= old(self)@.1),
            r is Ok ==> final(self)@ == (old(self)@.0 + s@, old(self)@.1),
            r is Err ==> final(self)@ == old(self)@,
    {
        let used = self.buf.as_str().unicode_len();
        let n = s.unicode_len();
        if used <= self.capacity && n <= self.capacity - used {
            self.buf.append(s);
            Ok(())
        } else {
            Err(WriteError)
        }
    }
}

impl Sink for BufferSink {
    open spec fn text(m: (Seq<char>, nat)) -> Seq<char> {
        m.0
    }

    open spec fn accepts(m: (Seq<char>, nat), s: Seq<char>) -> bool {
        m.0.len() + s.len() <= m.1
    }

    open spec fn after_write(m: (Seq<char>, nat), s: Seq<char>) -> (Seq<char>, nat) {
        if Self::accepts(m, s) {
            (m.0 + s, m.1)
        } else {
            m
        }
    }

    open spec fn takes(m: (Seq<char>, nat), n: nat) -> bool {
        m.0.len() + n <= m.1
    }

    /// As [`BufferSink::push`].
    fn write_str(&mut self, s: &str) -> (r: Result<(), WriteError>) {
        self.push(s)
    }
}

} // verus!
