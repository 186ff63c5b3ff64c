//! The line reader: presents an in-memory byte source as a sequence of
//! logical lines, each line being the bytes between two CR LF terminators
//! with the terminator stripped.  A bare LF without a preceding CR is
//! ordinary line content.

use vstd::prelude::*;

verus! {

/// Carriage return, the first byte of the line terminator.
pub const CARRIAGE_RETURN: u8 = 13;

/// Line feed, the second byte of the line terminator.
pub const LINEFEED: u8 = 10;

/// Error kind for a failing byte source.  A reader over in-memory bytes
/// never produces it; adapters that pull bytes from fallible sources report
/// their failure through this kind.
#[derive(Debug, PartialEq, Eq, Structural, Clone, Copy)]
pub enum LinesError {
    ReadError,
}

/// True when a CR LF pair starts at position `i` of `s`.
pub open spec fn is_crlf_at(s: Seq<u8>, i: int) -> bool {
    &&& 0 <= i
    &&& i + 1 < s.len()
    &&& s[i] == CARRIAGE_RETURN
    &&& s[i + 1] == LINEFEED
}

/// The first logical line of `s`: the bytes before the first CR LF, or all
/// of `s` when no CR LF occurs.
pub open spec fn spec_first_line(s: Seq<u8>) -> Seq<u8>
    decreases s.len(),
{
    if s.len() == 0 {
        Seq::empty()
    } else if is_crlf_at(s, 0) {
        Seq::empty()
    } else {
        seq![s[0]] + spec_first_line(s.drop_first())
    }
}

/// What remains of `s` after its first logical line and the terminator, if
/// any, are removed.
pub open spec fn spec_after_line(s: Seq<u8>) -> Seq<u8>
    decreases s.len(),
{
    if s.len() == 0 {
        Seq::empty()
    } else if is_crlf_at(s, 0) {
        s.skip(2)
    } else {
        spec_after_line(s.drop_first())
    }
}

/// Removing the first line from a non-empty byte sequence strictly shortens it.
pub proof fn lemma_after_line_shorter(s: Seq<u8>)
    requires
        s.len() > 0,
    ensures
        spec_after_line(s).len() < s.len(),
    decreases s.len(),
{
    if !is_crlf_at(s, 0) {
        if s.len() > 1 {
            lemma_after_line_shorter(s.drop_first());
        } else {
            assert(s.drop_first().len() == 0);
            assert(spec_after_line(s.drop_first()) == Seq::<u8>::empty());
        }
    }
}

/// The sequence of logical lines of `s`: empty input yields no line, and an
/// unterminated trailing line is yielded once.
pub open spec fn spec_lines(s: Seq<u8>) -> Seq<Seq<u8>>
    decreases s.len(),
    via spec_lines_decreases
{
    if s.len() == 0 {
        Seq::empty()
    } else {
        seq![spec_first_line(s)] + spec_lines(spec_after_line(s))
    }
}

#[via_fn]
proof fn spec_lines_decreases(s: Seq<u8>) {
    if s.len() > 0 {
        lemma_after_line_shorter(s);
    }
}

/// The bytes that follow the header section of `s`: everything after the
/// first empty line, or nothing when the input ends before one occurs.
pub open spec fn spec_body(s: Seq<u8>) -> Seq<u8>
    decreases s.len(),
    via spec_body_decreases
{
    if s.len() == 0 {
        Seq::empty()
    } else if spec_first_line(s).len() == 0 {
        spec_after_line(s)
    } else {
        spec_body(spec_after_line(s))
    }
}

#[via_fn]
proof fn spec_body_decreases(s: Seq<u8>) {
    if s.len() > 0 {
        lemma_after_line_shorter(s);
    }
}

/// A byte sequence that contains no CR LF pair forms a single line equal to
/// the whole input when it is non-empty, and no line at all when it is empty.
pub proof fn lemma_lines_without_crlf(s: Seq<u8>)
    requires
        forall|i: int| !is_crlf_at(s, i),
    ensures
        s.len() == 0 ==> spec_lines(s) == Seq::<Seq<u8>>::empty(),
        s.len() > 0 ==> spec_lines(s) == seq![s],
{
    lemma_first_line_without_crlf(s);
    if s.len() > 0 {
        assert(spec_lines(spec_after_line(s)) == Seq::<Seq<u8>>::empty());
        assert(spec_lines(s) =~= seq![s]);
    }
}

/// Without a CR LF pair the first line is the whole input and nothing follows it.
proof fn lemma_first_line_without_crlf(s: Seq<u8>)
    requires
        forall|i: int| !is_crlf_at(s, i),
    ensures
        spec_first_line(s) == s,
        spec_after_line(s) == Seq::<u8>::empty(),
    decreases s.len(),
{
    if s.len() > 0 {
        assert(!is_crlf_at(s, 0));
        assert forall|i: int| !is_crlf_at(#[trigger] s.drop_first(), i) by {
            assert(!is_crlf_at(s, i + 1));
            if 0 <= i && i + 1 < s.drop_first().len() {
                assert(s.drop_first()[i] == s[i + 1]);
                assert(s.drop_first()[i + 1] == s[i + 2]);
            }
        }
        lemma_first_line_without_crlf(s.drop_first());
        assert(spec_first_line(s) =~= s);
    } else {
        assert(spec_first_line(s) =~= s);
    }
}

/// A lazy reader that turns an owned byte source into the sequence of its
/// logical lines.  It never restarts; a new reader must be constructed to
/// scan the same bytes again.
pub struct Lines {
    bytes: Vec<u8>,
    pos: usize,
}

impl Lines {
    /// The bytes this reader has not consumed yet.
    pub closed spec fn rem(&self) -> Seq<u8> {
        self.bytes@.skip(self.pos as int)
    }

    #[verifier::type_invariant]
    spec fn wf(&self) -> bool {
        self.pos <= self.bytes@.len()
    }

    /// Wraps an owned byte source in a fresh reader positioned at its start.
    pub fn new(inner: Vec<u8>) -> (r: Self)
        ensures
            r.rem() == inner@,
    {
        let r = Lines { bytes: inner, pos: 0 };
        proof {
            assert(r.bytes@.skip(0) =~= r.bytes@);
        }
        r
    }

    /// Yields the next logical line, with its CR LF terminator stripped, or
    /// nothing once the source is exhausted.  Consumes no byte beyond the
    /// terminator of the line returned.
    pub fn next(&mut self) -> (r: Option<Vec<u8>>)
        ensures
            ({
                let s = old(self).rem();
                match r {
                    None => s.len() == 0 && final(self).rem() == s,
                    Some(l) => {
                        &&& s.len() > 0
                        &&& l@ == spec_first_line(s)
                        &&& final(self).rem() == spec_after_line(s)
                    },
                }
            }),
    {
        proof {
            use_type_invariant(&*self);
        }
        let ghost s0 = self.rem();
        if self.pos == self.bytes.len() {
            proof {
                assert(s0.len() == 0);
            }
            return None;
        }
        let mut buf: Vec<u8> = Vec::new();
        proof {
            assert(buf@ + spec_first_line(self.rem()) =~= spec_first_line(s0));
        }
        while self.pos < self.bytes.len()
            invariant
                self.pos <= self.bytes@.len(),
                s0 == old(self).rem(),
                s0.len() > 0,
                buf@ + spec_first_line(self.rem()) == spec_first_line(s0),
                spec_after_line(self.rem()) == spec_after_line(s0) || (self.rem().len() == 0
                    && spec_after_line(s0) == Seq::<u8>::empty()),
            decreases self.bytes@.len() - self.pos,
        {
            let ghost rem_here = self.rem();
            let byte = self.bytes[self.pos];
            proof {
                assert(rem_here[0] == byte);
            }
            if byte == CARRIAGE_RETURN && self.pos + 1 < self.bytes.len() && self.bytes[self.pos
                + 1] == LINEFEED {
                proof {
                    assert(rem_here[1] == LINEFEED);
                    assert(is_crlf_at(rem_here, 0));
                    assert(spec_first_line(rem_here) =~= Seq::<u8>::empty());
                    assert(buf@ + spec_first_line(rem_here) =~= buf@);
                }
                self.pos = self.pos + 2;
                proof {
                    assert(self.rem() =~= rem_here.skip(2));
                    assert(spec_after_line(rem_here) == rem_here.skip(2));
                }
                return Some(buf);
            }
            proof {
                assert(!is_crlf_at(rem_here, 0)) by {
                    if is_crlf_at(rem_here, 0) {
                        assert(rem_here[1] == self.bytes@[self.pos + 1]);
                    }
                }
                assert(spec_first_line(rem_here) == seq![rem_here[0]] + spec_first_line(
                    rem_here.drop_first(),
                ));
            }
            buf.push(byte);
            self.pos = self.pos + 1;
            proof {
                assert(self.rem() =~= rem_here.drop_first());
                assert(buf@ + spec_first_line(self.rem()) =~= spec_first_line(s0));
            }
        }
        proof {
            assert(self.rem().len() == 0);
            assert(spec_first_line(self.rem()) =~= Seq::<u8>::empty());
            assert(buf@ =~= spec_first_line(s0));
            assert(self.rem() =~= spec_after_line(s0));
        }
        Some(buf)
    }

    /// Hands back the bytes the reader has not consumed, giving up the reader.
    /// After the header section ends, these bytes are the message body.
    pub fn rest(self) -> (r: Vec<u8>)
        ensures
            r@ == self.rem(),
    {
        proof {
            use_type_invariant(&self);
        }
        let Lines { mut bytes, pos } = self;
        bytes.split_off(pos)
    }
}

/// Turns an owned byte source into a line reader.
pub trait ReadLines: Sized {
    /// The bytes the source will hand to the reader.
    spec fn spec_source(&self) -> Seq<u8>;

    /// Wraps the source in a fresh line reader.
    fn lines(self) -> (r: Lines)
        ensures
            r.rem() == self.spec_source(),
    ;
}

impl ReadLines for Vec<u8> {
    open spec fn spec_source(&self) -> Seq<u8> {
        self@
    }

    fn lines(self) -> (r: Lines) {
        Lines::new(self)
    }
}

impl ReadLines for &[u8] {
    open spec fn spec_source(&self) -> Seq<u8> {
        self@
    }

    fn lines(self) -> (r: Lines) {
        Lines::new(vstd::slice::slice_to_vec(self))
    }
}

} // verus!
