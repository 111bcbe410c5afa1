use vstd::prelude::*;
use crate::args::{argv_strings, argv_wf, lemma_arg_end_terminates, ArgView};

verus! {

/// The line with every space turned into a NUL byte.
pub open spec fn spaces_to_nul(line: Seq<u8>) -> Seq<u8> {
    line.map_values(|x: u8| if x == 32 { 0u8 } else { x })
}

/// Whether an argument starts at `k`: a non-NUL byte at the start of the
/// buffer or right after a NUL.
pub open spec fn is_word_start(buf: Seq<u8>, k: int) -> bool {
    &&& 0 <= k < buf.len()
    &&& buf[k] != 0
    &&& (k == 0 || buf[k - 1] == 0)
}

/// `starts` lists, in increasing order, every index at which an argument of
/// `buf` starts, and nothing else.
pub open spec fn lists_word_starts(buf: Seq<u8>, starts: Seq<usize>) -> bool {
    &&& forall|i: int, j: int| 0 <= i < j < starts.len() ==> starts[i] < starts[j]
    &&& forall|i: int| 0 <= i < starts.len() ==> is_word_start(buf, #[trigger] starts[i] as int)
    &&& forall|k: int| is_word_start(buf, k) ==> exists|i: int|
        0 <= i < starts.len() && #[trigger] starts[i] == k
}

/// A non-empty byte string with no space and no NUL in it.
pub open spec fn is_plain_word(w: Seq<u8>) -> bool {
    &&& w.len() > 0
    &&& forall|k: int| 0 <= k < w.len() ==> w[k] != 0 && w[k] != 32
}

/// Splits a line at spaces into an argument vector: the line with spaces
/// turned into NUL bytes and a final NUL, and the offset of each argument.
pub fn split_args(line: &[u8]) -> (r: (Vec<u8>, Vec<usize>))
    requires
        line@.len() < usize::MAX,
    ensures
        r.0@ == spaces_to_nul(line@).push(0),
        argv_wf(r.0@, r.1@),
        lists_word_starts(r.0@, r.1@),
        forall|i: int| 0 <= i < r.1@.len() ==> is_plain_word(#[trigger] argv_strings(r.0@, r.1@)[i]),
{
    let ghost n = spaces_to_nul(line@);
    let mut buf: Vec<u8> = Vec::new();
    let mut starts: Vec<usize> = Vec::new();
    let mut k: usize = 0;
    while k < line.len()
        invariant
            k <= line@.len(),
            n == spaces_to_nul(line@),
            buf@ == n.subrange(0, k as int),
            forall|i: int, j: int| 0 <= i < j < starts@.len() ==> starts@[i] < starts@[j],
            forall|i: int| 0 <= i < starts@.len() ==> (#[trigger] starts@[i]) < k
                && is_word_start(n, starts@[i] as int),
            forall|q: int| 0 <= q < k && is_word_start(n, q) ==> exists|i: int|
                0 <= i < starts@.len() && #[trigger] starts@[i] == q,
        decreases line@.len() - k,
    {
        let b: u8 = if line[k] == 32 { 0 } else { line[k] };
        let starts_here = b != 0 && (k == 0 || buf[k - 1] == 0);
        proof {
            assert(n[k as int] == b);
            assert(starts_here == is_word_start(n, k as int));
        }
        if starts_here {
            let ghost old_starts = starts@;
            starts.push(k);
            proof {
                assert forall|q: int| 0 <= q < k + 1 && is_word_start(n, q) implies exists|i: int|
                    0 <= i < starts@.len() && #[trigger] starts@[i] == q by {
                    if q < k {
                        let i = choose|i: int| 0 <= i < old_starts.len() && #[trigger] old_starts[i] == q;
                        assert(starts@[i] == q);
                    } else {
                        assert(starts@[starts@.len() - 1] == q);
                    }
                }
            }
        }
        buf.push(b);
        k = k + 1;
        proof {
            assert(buf@ =~= n.subrange(0, k as int));
        }
    }
    buf.push(0);
    proof {
        assert(buf@ =~= n.push(0));
        assert forall|q: int| is_word_start(buf@, q) implies exists|i: int|
            0 <= i < starts@.len() && #[trigger] starts@[i] == q by {
            assert(q < n.len());
            assert(is_word_start(n, q));
        }
        assert forall|i: int| 0 <= i < starts@.len() implies is_word_start(buf@, #[trigger] starts@[i] as int) by {
            assert(is_word_start(n, starts@[i] as int));
        }
        assert forall|i: int| 0 <= i < starts@.len() implies is_plain_word(
            #[trigger] argv_strings(buf@, starts@)[i]) by {
            let s = starts@[i] as int;
            assert(is_word_start(n, s));
            assert(crate::args::nul_from(buf@, s)) by {
                assert(buf@[buf@.len() - 1] == 0);
            }
            lemma_arg_end_terminates(buf@, s);
            let w = argv_strings(buf@, starts@)[i];
            assert(w == buf@.subrange(s, crate::args::arg_end(buf@, s)));
            assert forall|k: int| 0 <= k < w.len() implies w[k] != 0 && w[k] != 32 by {
                assert(w[k] == buf@[s + k]);
                assert(buf@[s + k] == n[s + k]);
            }
            assert(w[0] == buf@[s]);
        }
    }
    (buf, starts)
}

/// Whether the line holds at least one argument once split at spaces.
pub open spec fn has_argument(line: Seq<u8>) -> bool {
    exists|k: int| is_word_start(spaces_to_nul(line).push(0), k)
}

/// Bytes a line may hold before the shell reports an overflow.
pub const LINE_CAP: usize = 256;

/// The line-assembly state after receiving `b`: a line feed ends the line; past
/// an overflow, bytes up to the next line feed are dropped; a byte that would
/// exceed the capacity marks the line as overflowed and drops it; any other
/// byte is kept.
pub open spec fn rx_line(line: Seq<u8>, overflowed: bool, b: u8) -> (Seq<u8>, bool) {
    if b == 10 {
        (Seq::empty(), false)
    } else if overflowed || line.len() >= LINE_CAP {
        (Seq::empty(), true)
    } else {
        (line.push(b), false)
    }
}

/// The three callback slots of a session, each holding at most one callback.
pub struct Slots<P, C, O> {
    print: Option<P>,
    command: Option<C>,
    overflow: Option<O>,
}

impl<P, C, O> Slots<P, C, O>
    where P: Fn(char), C: Fn(&ArgView), O: Fn(&[u8]),
{
    pub closed spec fn print_slot(&self) -> Option<P> {
        self.print
    }

    pub closed spec fn command_slot(&self) -> Option<C> {
        self.command
    }

    pub closed spec fn overflow_slot(&self) -> Option<O> {
        self.overflow
    }

    /// Every registered callback accepts every argument.
    pub open spec fn wf(&self) -> bool {
        &&& self.print_slot() matches Some(p) ==> forall|c: char| call_requires(p, (c,))
        &&& self.command_slot() matches Some(f) ==> forall|v: &ArgView| call_requires(f, (v,))
        &&& self.overflow_slot() matches Some(g) ==> forall|s: &[u8]| call_requires(g, (s,))
    }

    fn empty() -> (r: Self)
        ensures
            r.wf(),
            r.print_slot() is None,
            r.command_slot() is None,
            r.overflow_slot() is None,
    {
        Slots { print: None, command: None, overflow: None }
    }

    fn print(&self, c: char)
        requires
            self.wf(),
        ensures
            self.print_slot() matches Some(p) ==> call_ensures(p, (c,), ()),
    {
        match &self.print {
            Some(p) => p(c),
            None => {},
        }
    }

    fn run_command(&self, v: &ArgView)
        requires
            self.wf(),
        ensures
            self.command_slot() matches Some(f) ==> call_ensures(f, (v,), ()),
    {
        match &self.command {
            Some(f) => f(v),
            None => {},
        }
    }

    fn report_overflow(&self, line: &[u8])
        requires
            self.wf(),
        ensures
            self.overflow_slot() matches Some(g) ==> call_ensures(g, (line,), ()),
    {
        match &self.overflow {
            Some(g) => g(line),
            None => {},
        }
    }
}

/// A shell session: its callback slots and where the current line stands.
///
/// The line handling is a minimal engine: bytes are kept up to a fixed
/// capacity and echoed, a line feed ends the line and splits it at spaces.
/// It offers no line editing, history or quoting.
///
/// A callback carries no reference to the session; state that callbacks share
/// lives in the embedding program. A session is meant to live as long as the
/// process and has no teardown.
pub enum Esh<P, C, O> {
    /// Collecting the bytes of a line.
    Collecting(Slots<P, C, O>, Vec<u8>),
    /// The line overflowed: bytes are dropped up to the next line feed.
    Discarding(Slots<P, C, O>),
}

impl<P, C, O> Esh<P, C, O>
    where P: Fn(char), C: Fn(&ArgView), O: Fn(&[u8]),
{
    pub open spec fn slots(&self) -> Slots<P, C, O> {
        match self {
            Esh::Collecting(s, _) => *s,
            Esh::Discarding(s) => *s,
        }
    }

    pub open spec fn print_slot(&self) -> Option<P> {
        self.slots().print_slot()
    }

    pub open spec fn command_slot(&self) -> Option<C> {
        self.slots().command_slot()
    }

    pub open spec fn overflow_slot(&self) -> Option<O> {
        self.slots().overflow_slot()
    }

    /// The bytes of the line typed so far.
    pub open spec fn line_spec(&self) -> Seq<u8> {
        match self {
            Esh::Collecting(_, line) => line@,
            Esh::Discarding(_) => Seq::empty(),
        }
    }

    /// Whether the current line has overflowed.
    pub open spec fn overflowed_spec(&self) -> bool {
        self is Discarding
    }

    /// Every registered callback accepts every argument, and the line fits.
    pub open spec fn wf(&self) -> bool {
        &&& self.slots().wf()
        &&& self.line_spec().len() <= LINE_CAP
    }

    /// A fresh session: no callback registered, an empty line.
    pub fn init() -> (r: Option<Self>)
        ensures
            r is Some,
            r matches Some(e) ==> {
                &&& e.wf()
                &&& e.print_slot() is None
                &&& e.command_slot() is None
                &&& e.overflow_slot() is None
                &&& e.line_spec() == Seq::<u8>::empty()
                &&& !e.overflowed_spec()
            },
    {
        Some(Esh::Collecting(Slots::empty(), Vec::new()))
    }

    fn take(&mut self) -> (r: Self)
        ensures
            r == *old(self),
    {
        let mut cur = Esh::Discarding(Slots::empty());
        core::mem::swap(self, &mut cur);
        cur
    }

    /// Puts `cb` in the print slot, replacing what was there.
    pub fn register_print(&mut self, cb: P)
        requires
            old(self).wf(),
            forall|c: char| call_requires(cb, (c,)),
        ensures
            final(self).wf(),
            final(self).print_slot() == Some(cb),
            final(self).command_slot() == old(self).command_slot(),
            final(self).overflow_slot() == old(self).overflow_slot(),
            final(self).line_spec() == old(self).line_spec(),
            final(self).overflowed_spec() == old(self).overflowed_spec(),
    {
        *self = match self.take() {
            Esh::Collecting(mut s, line) => {
                s.print = Some(cb);
                Esh::Collecting(s, line)
            },
            Esh::Discarding(mut s) => {
                s.print = Some(cb);
                Esh::Discarding(s)
            },
        };
    }

    /// `after` is `before` with `cb` in the command slot and all else kept.
    pub open spec fn command_registered(before: Self, after: Self, cb: C) -> bool {
        &&& after.command_slot() == Some(cb)
        &&& after.print_slot() == before.print_slot()
        &&& after.overflow_slot() == before.overflow_slot()
        &&& after.line_spec() == before.line_spec()
        &&& after.overflowed_spec() == before.overflowed_spec()
    }

    /// Registering a command callback replaces the earlier one: after `a` and
    /// then `b` are registered, the slot holds `b` alone, and the other slots
    /// and the line are as they were before either registration.
    pub proof fn lemma_register_replaces(e0: Self, e1: Self, e2: Self, a: C, b: C)
        requires
            Self::command_registered(e0, e1, a),
            Self::command_registered(e1, e2, b),
        ensures
            e2.command_slot() == Some(b),
            a != b ==> e2.command_slot() != Some(a),
            e2.print_slot() == e0.print_slot(),
            e2.overflow_slot() == e0.overflow_slot(),
            e2.line_spec() == e0.line_spec(),
    {
    }

    /// Puts `cb` in the command slot, replacing what was there.
    pub fn register_command(&mut self, cb: C)
        requires
            old(self).wf(),
            forall|v: &ArgView| call_requires(cb, (v,)),
        ensures
            final(self).wf(),
            Self::command_registered(*old(self), *final(self), cb),
    {
        *self = match self.take() {
            Esh::Collecting(mut s, line) => {
                s.command = Some(cb);
                Esh::Collecting(s, line)
            },
            Esh::Discarding(mut s) => {
                s.command = Some(cb);
                Esh::Discarding(s)
            },
        };
    }

    /// Puts `cb` in the overflow slot, replacing what was there.
    pub fn register_overflow(&mut self, cb: O)
        requires
            old(self).wf(),
            forall|s: &[u8]| call_requires(cb, (s,)),
        ensures
            final(self).wf(),
            final(self).overflow_slot() == Some(cb),
            final(self).print_slot() == old(self).print_slot(),
            final(self).command_slot() == old(self).command_slot(),
            final(self).line_spec() == old(self).line_spec(),
            final(self).overflowed_spec() == old(self).overflowed_spec(),
    {
        *self = match self.take() {
            Esh::Collecting(mut s, line) => {
                s.overflow = Some(cb);
                Esh::Collecting(s, line)
            },
            Esh::Discarding(mut s) => {
                s.overflow = Some(cb);
                Esh::Discarding(s)
            },
        };
    }

    /// Receives one byte. Every byte kept in the line, and each line feed, is
    /// echoed through the print callback. A line feed hands the line, split at
    /// spaces, to the command callback if it holds an argument and did not
    /// overflow. The first byte past the capacity hands the line to the
    /// overflow callback; the rest of that line is dropped.
    pub fn rx(&mut self, b: u8)
        requires
            old(self).wf(),
        ensures
            final(self).wf(),
            (final(self).line_spec(), final(self).overflowed_spec())
                == rx_line(old(self).line_spec(), old(self).overflowed_spec(), b),
            final(self).slots() == old(self).slots(),
            b != 10 && !old(self).overflowed_spec() && old(self).line_spec().len() < LINE_CAP
                && old(self).print_slot() is Some ==> call_ensures(
                old(self).print_slot()->0,
                ((b as char),),
                (),
            ),
            b == 10 && old(self).print_slot() is Some ==> call_ensures(
                old(self).print_slot()->0,
                ('\n',),
                (),
            ),
            b == 10 && !old(self).overflowed_spec() && old(self).command_slot() is Some
                && has_argument(old(self).line_spec()) ==> exists|v: &ArgView| {
                &&& v.wf()
                &&& v@.len() > 0
                &&& v.buf_view() == spaces_to_nul(old(self).line_spec()).push(0)
                &&& lists_word_starts(v.buf_view(), v.starts_view())
                &&& call_ensures(old(self).command_slot()->0, (v,), ())
            },
            b != 10 && !old(self).overflowed_spec() && old(self).line_spec().len() >= LINE_CAP
                && old(self).overflow_slot() is Some ==> exists|s: &[u8]| {
                &&& s@ == old(self).line_spec()
                &&& call_ensures(old(self).overflow_slot()->0, (s,), ())
            },
    {
        *self = match self.take() {
            Esh::Collecting(s, mut line) => {
                if b == 10 {
                    s.print('\n');
                    let (buf, starts) = split_args(line.as_slice());
                    proof {
                        if has_argument(line@) {
                            let k = choose|k: int| is_word_start(buf@, k);
                            let i = choose|i: int| 0 <= i < starts@.len() && #[trigger] starts@[i] == k;
                        }
                    }
                    if starts.len() > 0 {
                        let v = ArgView::from_parts(buf.as_slice(), starts.as_slice());
                        s.run_command(&v);
                        assert(v@.len() > 0);
                    }
                    Esh::Collecting(s, Vec::new())
                } else if line.len() >= LINE_CAP {
                    let full = line.as_slice();
                    s.report_overflow(full);
                    assert(full@ == line@);
                    Esh::Discarding(s)
                } else {
                    line.push(b);
                    s.print(b as char);
                    Esh::Collecting(s, line)
                }
            },
            Esh::Discarding(s) => {
                if b == 10 {
                    s.print('\n');
                    Esh::Collecting(s, Vec::new())
                } else {
                    Esh::Discarding(s)
                }
            },
        };
    }
}

} // verus!
