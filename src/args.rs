use vstd::prelude::*;

verus! {

/// Index of the first NUL byte at or after `s` in `buf` (or `buf.len()` if none).
pub open spec fn arg_end(buf: Seq<u8>, s: int) -> int
    decreases buf.len() - s,
{
    if s < 0 || s >= buf.len() {
        buf.len() as int
    } else if buf[s] == 0 {
        s
    } else {
        arg_end(buf, s + 1)
    }
}

/// The bytes of the NUL-terminated string starting at `s`, terminator excluded.
pub open spec fn c_string_at(buf: Seq<u8>, s: int) -> Seq<u8> {
    buf.subrange(s, arg_end(buf, s))
}

/// A foreign argument vector: a NUL-terminated line buffer and the offsets at
/// which each argument starts.
pub open spec fn argv_wf(buf: Seq<u8>, starts: Seq<usize>) -> bool {
    &&& buf.len() > 0
    &&& buf[buf.len() - 1] == 0
    &&& forall|i: int| 0 <= i < starts.len() ==> (#[trigger] starts[i]) < buf.len()
}

/// The arguments that a well-formed vector holds, as byte strings.
pub open spec fn argv_strings(buf: Seq<u8>, starts: Seq<usize>) -> Seq<Seq<u8>> {
    starts.map_values(|s: usize| c_string_at(buf, s as int))
}

/// Whether a NUL byte lies at or after `s` in `buf`.
pub open spec fn nul_from(buf: Seq<u8>, s: int) -> bool {
    exists|k: int| s <= k < buf.len() && buf[k] == 0
}

/// The string found by `arg_end` ends at a NUL byte and holds none.
pub proof fn lemma_arg_end_terminates(buf: Seq<u8>, s: int)
    requires
        0 <= s < buf.len(),
        nul_from(buf, s),
    ensures
        s <= arg_end(buf, s) < buf.len(),
        buf[arg_end(buf, s)] == 0,
        forall|k: int| s <= k < arg_end(buf, s) ==> buf[k] != 0,
    decreases buf.len() - s,
{
    if buf[s] != 0 {
        let k = choose|k: int| s <= k < buf.len() && buf[k] == 0;
        assert(s + 1 <= k);
        lemma_arg_end_terminates(buf, s + 1);
    }
}

/// Length of the NUL-terminated string that starts at `s`.
pub fn c_strlen(buf: &[u8], s: usize) -> (r: usize)
    requires
        s < buf@.len(),
        nul_from(buf@, s as int),
    ensures
        r == arg_end(buf@, s as int) - s,
{
    let mut k: usize = s;
    while buf[k] != 0
        invariant
            s <= k < buf@.len(),
            nul_from(buf@, k as int),
            arg_end(buf@, k as int) == arg_end(buf@, s as int),
        decreases buf@.len() - k,
    {
        let ghost z = choose|z: int| k <= z < buf@.len() && buf@[z] == 0;
        assert(k + 1 <= z);
        k = k + 1;
    }
    k - s
}

/// What decoding `b` as UTF-8 gives: the text, or `None` if `b` is not valid UTF-8.
pub uninterp spec fn utf8_decode(b: Seq<u8>) -> Option<Seq<char>>;

/// The characters of an ASCII byte string, one per byte.
pub open spec fn ascii_chars(b: Seq<u8>) -> Seq<char> {
    b.map_values(|x: u8| x as char)
}

pub open spec fn is_ascii(b: Seq<u8>) -> bool {
    forall|i: int| 0 <= i < b.len() ==> b[i] < 128
}

/// Relies on core::str::from_utf8: it succeeds exactly on valid UTF-8, and
/// ASCII bytes decode to one character each.
#[verifier::external_body]
fn decode_utf8<'a>(b: &'a [u8]) -> (r: Option<&'a str>)
    ensures
        r is None <==> utf8_decode(b@) is None,
        r is Some ==> utf8_decode(b@) == Some(r->0@),
        is_ascii(b@) ==> r is Some && r->0@ == ascii_chars(b@),
{
    core::str::from_utf8(b).ok()
}

/// A borrowed, bounds-checked view of the arguments of one command line.
/// Nothing is copied: every accessor returns a reference into the line buffer.
pub struct ArgView<'a> {
    buf: &'a [u8],
    starts: &'a [usize],
}

impl<'a> ArgView<'a> {
    pub closed spec fn buf_view(&self) -> Seq<u8> {
        self.buf@
    }

    pub closed spec fn starts_view(&self) -> Seq<usize> {
        self.starts@
    }

    /// The arguments, in order; element 0 is the command name.
    pub open spec fn view(&self) -> Seq<Seq<u8>> {
        argv_strings(self.buf_view(), self.starts_view())
    }

    pub open spec fn wf(&self) -> bool {
        argv_wf(self.buf_view(), self.starts_view())
    }

    /// Wraps a line buffer and its argument offsets; `None` unless the buffer
    /// ends with a NUL byte and every offset lies inside it.
    pub fn new(buf: &'a [u8], starts: &'a [usize]) -> (r: Option<ArgView<'a>>)
        ensures
            r is Some <==> argv_wf(buf@, starts@),
            r matches Some(v) ==> v.buf_view() == buf@ && v.starts_view() == starts@,
    {
        if buf.len() == 0 || buf[buf.len() - 1] != 0 {
            return None;
        }
        let mut i: usize = 0;
        while i < starts.len()
            invariant
                i <= starts@.len(),
                forall|j: int| 0 <= j < i ==> (#[trigger] starts@[j]) < buf@.len(),
            decreases starts@.len() - i,
        {
            if starts[i] >= buf.len() {
                return None;
            }
            i = i + 1;
        }
        Some(ArgView { buf, starts })
    }

    /// Wraps parts already known to be well formed.
    pub fn from_parts(buf: &'a [u8], starts: &'a [usize]) -> (r: ArgView<'a>)
        requires
            argv_wf(buf@, starts@),
        ensures
            r.buf_view() == buf@,
            r.starts_view() == starts@,
            r.wf(),
    {
        ArgView { buf, starts }
    }

    /// Number of arguments.
    pub fn len(&self) -> (r: usize)
        ensures
            r == self@.len(),
    {
        self.starts.len()
    }

    /// The bytes of argument `i`, without its terminator. Reading past the
    /// last argument is a caller error, ruled out by the precondition.
    pub fn get(&self, i: usize) -> (r: &'a [u8])
        requires
            self.wf(),
            i < self@.len(),
        ensures
            r@ == self@[i as int],
            r@ == c_string_at(self.buf_view(), self.starts_view()[i as int] as int),
            forall|k: int| 0 <= k < r@.len() ==> r@[k] != 0,
    {
        let s = self.starts[i];
        proof {
            assert(nul_from(self.buf@, s as int)) by {
                assert(self.buf@[self.buf@.len() - 1] == 0);
            }
            lemma_arg_end_terminates(self.buf@, s as int);
        }
        let n = c_strlen(self.buf, s);
        let total = self.buf.len();
        assert(s + n < total);
        vstd::slice::slice_subrange(self.buf, s, s + n)
    }

    /// Argument `i` decoded as text, or `None` if its bytes are not UTF-8.
    pub fn get_text(&self, i: usize) -> (r: Option<&'a str>)
        requires
            self.wf(),
            i < self@.len(),
        ensures
            r is None <==> utf8_decode(self@[i as int]) is None,
            r matches Some(t) ==> utf8_decode(self@[i as int]) == Some(t@),
    {
        let b = self.get(i);
        decode_utf8(b)
    }
}

} // verus!
