//! The header tokenizer: a finite-state machine that consumes the line
//! reader's output and assembles raw name/value pairs, honouring the
//! historical line-folding rule and rejecting malformed syntax.

use vstd::prelude::*;
use vstd::utf8::{decode_utf8, valid_utf8};

use crate::http::headers::{
    lemma_insert_all_push, spec_insert_all, Headers, RawHeader,
};
use crate::http::lines::{
    lemma_after_line_shorter, spec_after_line, spec_body, spec_first_line, spec_lines, Lines,
    LinesError,
};
use crate::http::parse::{
    is_control, is_token, is_whitespace, spec_is_control, spec_is_token, spec_is_whitespace,
    ASCII_COLON, ASCII_SPACE,
};
use crate::text::bytes_to_string;

verus! {

/// Where the tokenizer stands within a header field.  `NewLine` is entered
/// once per completed line, before the next line's first byte is processed.
#[derive(Debug, PartialEq, Eq, Structural, Clone, Copy)]
pub enum Pos {
    BeforeName,
    Name,
    NewLine,
    BeforeValue,
    Value,
}

/// What one consumed byte does to the buffers.
#[derive(Debug, PartialEq, Eq, Structural, Clone, Copy)]
pub enum Op {
    Skip,
    AppendName(u8),
    AppendValue(u8),
}

/// Why a parse was aborted: an illegal byte for its position, a failing line
/// source, or buffered bytes that are not valid text at commit time.
#[derive(Debug, PartialEq, Eq, Structural, Clone, Copy)]
pub enum ParseError {
    UnexpectedCharacterError(u8),
    LineParseError(LinesError),
    FromUtf8Error,
}

impl From<LinesError> for ParseError {
    /// A failing line source aborts the parse with its error wrapped.
    fn from(err: LinesError) -> (r: Self) {
        ParseError::LineParseError(err)
    }
}

impl vstd::std_specs::convert::FromSpecImpl<LinesError> for ParseError {
    open spec fn obeys_from_spec() -> bool {
        true
    }

    open spec fn from_spec(err: LinesError) -> ParseError {
        ParseError::LineParseError(err)
    }
}

/// The tokenizer's abstract state: its position, the pairs committed so far
/// in commit order, and the two byte buffers.
#[verifier::ext_equal]
pub ghost struct TokState {
    pub pos: Pos,
    pub pairs: Seq<(Seq<char>, Seq<char>)>,
    pub name: Seq<u8>,
    pub value: Seq<u8>,
}

/// The state every parse starts from: before a name, everything empty.
pub open spec fn spec_init() -> TokState {
    TokState { pos: Pos::BeforeName, pairs: Seq::empty(), name: Seq::empty(), value: Seq::empty() }
}

/// A byte in name position: a token character extends the name, anything
/// else is the offending byte.
pub open spec fn spec_consume_name(byte: u8) -> Result<(Op, Pos), u8> {
    if !spec_is_token(byte) {
        Err(byte)
    } else {
        Ok((Op::AppendName(byte), Pos::Name))
    }
}

/// Before a name only a token character may start one.
pub open spec fn spec_before_name(byte: u8) -> Result<(Op, Pos), u8> {
    spec_consume_name(byte)
}

/// Within a name a colon ends it; otherwise the byte must extend it.
pub open spec fn spec_name(byte: u8) -> Result<(Op, Pos), u8> {
    if byte == ASCII_COLON {
        Ok((Op::Skip, Pos::BeforeValue))
    } else {
        spec_consume_name(byte)
    }
}

/// A byte in value position: control characters are illegal, anything else
/// extends the value.
pub open spec fn spec_consume_value(byte: u8) -> Result<(Op, Pos), u8> {
    if spec_is_control(byte) {
        Err(byte)
    } else {
        Ok((Op::AppendValue(byte), Pos::Value))
    }
}

/// Before a value leading whitespace is skipped; any other byte starts the
/// value.
pub open spec fn spec_before_value(byte: u8) -> Result<(Op, Pos), u8> {
    if spec_is_whitespace(byte) {
        Ok((Op::Skip, Pos::BeforeValue))
    } else {
        spec_consume_value(byte)
    }
}

/// Within a value every non-control byte is kept.
pub open spec fn spec_value(byte: u8) -> Result<(Op, Pos), u8> {
    spec_consume_value(byte)
}

/// At a line boundary leading whitespace folds the line into the previous
/// value, with a single space as separator; any other byte starts a new
/// header name.
pub open spec fn spec_new_line(byte: u8) -> Result<(Op, Pos), u8> {
    if spec_is_whitespace(byte) {
        Ok((Op::AppendValue(ASCII_SPACE), Pos::BeforeValue))
    } else {
        spec_before_name(byte)
    }
}

/// The transition table: what one byte does in each position, or which byte
/// aborts the parse.
pub open spec fn spec_process(pos: Pos, byte: u8) -> Result<(Op, Pos), u8> {
    match pos {
        Pos::BeforeName => spec_before_name(byte),
        Pos::Name => spec_name(byte),
        Pos::BeforeValue => spec_before_value(byte),
        Pos::Value => spec_value(byte),
        Pos::NewLine => spec_new_line(byte),
    }
}

/// Applies a buffer operation to the state.
pub open spec fn spec_update(st: TokState, op: Op) -> TokState {
    match op {
        Op::Skip => st,
        Op::AppendName(b) => TokState {
            pos: st.pos,
            pairs: st.pairs,
            name: st.name.push(b),
            value: st.value,
        },
        Op::AppendValue(b) => TokState {
            pos: st.pos,
            pairs: st.pairs,
            name: st.name,
            value: st.value.push(b),
        },
    }
}

/// Commit: with an empty name buffer nothing happens; otherwise both buffers
/// are decoded as text, the pair is recorded and the buffers are cleared.
/// Bytes that are not valid text abort the parse.
pub open spec fn spec_commit(st: TokState) -> Result<TokState, ParseError> {
    if st.name.len() == 0 {
        Ok(st)
    } else if valid_utf8(st.name) && valid_utf8(st.value) {
        Ok(
            TokState {
                pos: st.pos,
                pairs: st.pairs.push((decode_utf8(st.name), decode_utf8(st.value))),
                name: Seq::empty(),
                value: Seq::empty(),
            },
        )
    } else {
        Err(ParseError::FromUtf8Error)
    }
}

/// One byte of one line: classify the byte, commit the buffered pair when a
/// new name begins right after a line boundary, then take the transition.
pub open spec fn spec_step(st: TokState, byte: u8) -> Result<TokState, ParseError> {
    match spec_process(st.pos, byte) {
        Err(b) => Err(ParseError::UnexpectedCharacterError(b)),
        Ok(t) => {
            let committed = if t.1 == Pos::Name && st.pos == Pos::NewLine {
                spec_commit(st)
            } else {
                Ok(st)
            };
            match committed {
                Err(e) => Err(e),
                Ok(st1) => Ok(
                    spec_update(
                        TokState { pos: t.1, pairs: st1.pairs, name: st1.name, value: st1.value },
                        t.0,
                    ),
                ),
            }
        },
    }
}

/// All bytes of one line, first to last.
pub open spec fn spec_line(st: TokState, line: Seq<u8>) -> Result<TokState, ParseError>
    decreases line.len(),
{
    if line.len() == 0 {
        Ok(st)
    } else {
        match spec_step(st, line[0]) {
            Err(e) => Err(e),
            Ok(st1) => spec_line(st1, line.drop_first()),
        }
    }
}

/// The whole header section: lines are consumed until the first empty line
/// or the end of input, and each completed line puts the state at a line
/// boundary.
pub open spec fn spec_run(st: TokState, lines: Seq<Seq<u8>>) -> Result<TokState, ParseError>
    decreases lines.len(),
{
    if lines.len() == 0 {
        Ok(st)
    } else if lines[0].len() == 0 {
        Ok(st)
    } else {
        match spec_line(st, lines[0]) {
            Err(e) => Err(e),
            Ok(st1) => spec_run(
                TokState { pos: Pos::NewLine, pairs: st1.pairs, name: st1.name, value: st1.value },
                lines.drop_first(),
            ),
        }
    }
}

/// The raw pairs a sequence of lines tokenizes to, in commit order, or the
/// error that aborts the parse.  Source exhaustion without a final empty
/// line still commits any pending buffered pair.
pub open spec fn spec_tokenize(lines: Seq<Seq<u8>>) -> Result<
    Seq<(Seq<char>, Seq<char>)>,
    ParseError,
> {
    match spec_run(spec_init(), lines) {
        Err(e) => Err(e),
        Ok(st) => match spec_commit(st) {
            Err(e) => Err(e),
            Ok(st2) => Ok(st2.pairs),
        },
    }
}

/// The tokenizer's concrete state: position, the collection built so far,
/// and the name and value buffers.
pub struct State {
    pos: Pos,
    headers: Headers,
    name: Vec<u8>,
    value: Vec<u8>,
    committed: Ghost<Seq<(Seq<char>, Seq<char>)>>,
}

impl View for State {
    type V = TokState;

    closed spec fn view(&self) -> TokState {
        TokState { pos: self.pos, pairs: self.committed@, name: self.name@, value: self.value@ }
    }
}

impl State {
    /// The state's invariant: the collection is exactly the committed pairs,
    /// inserted in commit order.
    pub closed spec fn wf(&self) -> bool {
        &&& self.headers.wf()
        &&& self.headers@ == spec_insert_all(
            Seq::<(Seq<char>, Seq<char>)>::empty(),
            self.committed@,
        )
    }

    /// A fresh state: before a name, with an empty collection and buffers.
    pub fn new() -> (r: Self)
        ensures
            r@ == spec_init(),
            r.wf(),
    {
        let r = State {
            pos: Pos::BeforeName,
            headers: Headers::new(),
            name: Vec::new(),
            value: Vec::new(),
            committed: Ghost(Seq::empty()),
        };
        proof {
            assert(r@ =~= spec_init());
        }
        r
    }

    /// The current position.
    fn pos(&self) -> (r: Pos)
        ensures
            r == self@.pos,
    {
        self.pos
    }

    /// Moves to a new position, leaving buffers and collection alone.
    fn set_pos(&mut self, pos: Pos)
        ensures
            final(self)@ == (TokState {
                pos,
                pairs: old(self)@.pairs,
                name: old(self)@.name,
                value: old(self)@.value,
            }),
            old(self).wf() ==> final(self).wf(),
    {
        self.pos = pos;
    }

    /// Applies one buffer operation.
    fn update(&mut self, op: Op)
        ensures
            final(self)@ == spec_update(old(self)@, op),
            old(self).wf() ==> final(self).wf(),
    {
        match op {
            Op::AppendName(byte) => self.name.push(byte),
            Op::AppendValue(byte) => self.value.push(byte),
            Op::Skip => {},
        }
    }

    /// Commits the buffered pair, if any: decodes both buffers as text,
    /// inserts the pair into the collection and clears the buffers.
    fn commit(&mut self) -> (r: Result<(), ParseError>)
        requires
            old(self).wf(),
        ensures
            match spec_commit(old(self)@) {
                Ok(st) => r is Ok && final(self)@ == st && final(self).wf(),
                Err(e) => r == Err::<(), ParseError>(e),
            },
    {
        if self.name.len() == 0 {
            return Ok(());
        }
        let name = match bytes_to_string(&self.name) {
            Some(s) => s,
            None => {
                return Err(ParseError::FromUtf8Error);
            },
        };
        let value = match bytes_to_string(&self.value) {
            Some(s) => s,
            None => {
                return Err(ParseError::FromUtf8Error);
            },
        };
        let ghost pair = (decode_utf8(self.name@), decode_utf8(self.value@));
        self.headers.append_raw(RawHeader::new(name.as_str(), value.as_str()));
        self.name.clear();
        self.value.clear();
        proof {
            lemma_insert_all_push(
                Seq::<(Seq<char>, Seq<char>)>::empty(),
                self.committed@,
                pair,
            );
        }
        self.committed = Ghost(self.committed@.push(pair));
        proof {
            assert(final(self)@ =~= spec_commit(old(self)@)->Ok_0);
        }
        Ok(())
    }

    /// Hands the built collection out, giving up the state.
    fn into_headers(self) -> (r: Headers)
        requires
            self.wf(),
        ensures
            r@ == spec_insert_all(Seq::<(Seq<char>, Seq<char>)>::empty(), self@.pairs),
            r.wf(),
    {
        self.headers
    }
}

/// Classifies one byte in the current position.
fn process(state: &State, byte: u8) -> (r: Result<(Op, Pos), ParseError>)
    ensures
        match spec_process(state@.pos, byte) {
            Ok(t) => r == Ok::<(Op, Pos), ParseError>(t),
            Err(b) => r == Err::<(Op, Pos), ParseError>(ParseError::UnexpectedCharacterError(b)),
        },
{
    match state.pos() {
        Pos::BeforeName => before_name(byte),
        Pos::Name => name(byte),
        Pos::BeforeValue => before_value(byte),
        Pos::Value => value(byte),
        Pos::NewLine => new_line(byte),
    }
}

/// Before a name only a token character may start one.
fn before_name(byte: u8) -> (r: Result<(Op, Pos), ParseError>)
    ensures
        match spec_before_name(byte) {
            Ok(t) => r == Ok::<(Op, Pos), ParseError>(t),
            Err(b) => r == Err::<(Op, Pos), ParseError>(ParseError::UnexpectedCharacterError(b)),
        },
{
    consume_name(byte)
}

/// Within a name a colon ends it; otherwise the byte must extend it.
fn name(byte: u8) -> (r: Result<(Op, Pos), ParseError>)
    ensures
        match spec_name(byte) {
            Ok(t) => r == Ok::<(Op, Pos), ParseError>(t),
            Err(b) => r == Err::<(Op, Pos), ParseError>(ParseError::UnexpectedCharacterError(b)),
        },
{
    if byte == ASCII_COLON {
        return Ok((Op::Skip, Pos::BeforeValue));
    }
    consume_name(byte)
}

/// A name byte must be a token character.
fn consume_name(byte: u8) -> (r: Result<(Op, Pos), ParseError>)
    ensures
        match spec_consume_name(byte) {
            Ok(t) => r == Ok::<(Op, Pos), ParseError>(t),
            Err(b) => r == Err::<(Op, Pos), ParseError>(ParseError::UnexpectedCharacterError(b)),
        },
{
    if !is_token(byte) {
        return Err(ParseError::UnexpectedCharacterError(byte));
    }
    Ok((Op::AppendName(byte), Pos::Name))
}

/// Before a value leading whitespace is skipped.
fn before_value(byte: u8) -> (r: Result<(Op, Pos), ParseError>)
    ensures
        match spec_before_value(byte) {
            Ok(t) => r == Ok::<(Op, Pos), ParseError>(t),
            Err(b) => r == Err::<(Op, Pos), ParseError>(ParseError::UnexpectedCharacterError(b)),
        },
{
    if is_whitespace(byte) {
        Ok((Op::Skip, Pos::BeforeValue))
    } else {
        consume_value(byte)
    }
}

/// Within a value every non-control byte is kept.
fn value(byte: u8) -> (r: Result<(Op, Pos), ParseError>)
    ensures
        match spec_value(byte) {
            Ok(t) => r == Ok::<(Op, Pos), ParseError>(t),
            Err(b) => r == Err::<(Op, Pos), ParseError>(ParseError::UnexpectedCharacterError(b)),
        },
{
    consume_value(byte)
}

/// A value byte must not be a control character.
fn consume_value(byte: u8) -> (r: Result<(Op, Pos), ParseError>)
    ensures
        match spec_consume_value(byte) {
            Ok(t) => r == Ok::<(Op, Pos), ParseError>(t),
            Err(b) => r == Err::<(Op, Pos), ParseError>(ParseError::UnexpectedCharacterError(b)),
        },
{
    if is_control(byte) {
        return Err(ParseError::UnexpectedCharacterError(byte));
    }
    Ok((Op::AppendValue(byte), Pos::Value))
}

/// At a line boundary whitespace folds the line into the previous value,
/// replacing the leading whitespace by a single space; anything else starts
/// a new header name.
fn new_line(byte: u8) -> (r: Result<(Op, Pos), ParseError>)
    ensures
        match spec_new_line(byte) {
            Ok(t) => r == Ok::<(Op, Pos), ParseError>(t),
            Err(b) => r == Err::<(Op, Pos), ParseError>(ParseError::UnexpectedCharacterError(b)),
        },
{
    if is_whitespace(byte) {
        Ok((Op::AppendValue(ASCII_SPACE), Pos::BeforeValue))
    } else {
        before_name(byte)
    }
}

/// Tokenizes the header section that the line reader yields, stopping at the
/// first empty line, and returns the collection of raw pairs or the error
/// that aborted the parse.
pub fn parse_headers(input: Lines) -> (r: Result<Headers, ParseError>)
    ensures
        ({
            let t = spec_tokenize(spec_lines(input.rem()));
            match r {
                Ok(h) => {
                    &&& t is Ok
                    &&& h@ == spec_insert_all(Seq::<(Seq<char>, Seq<char>)>::empty(), t->Ok_0)
                    &&& h.wf()
                },
                Err(e) => t == Err::<Seq<(Seq<char>, Seq<char>)>, ParseError>(e),
            }
        }),
{
    let mut lines = input;
    parse_headers_lines(&mut lines)
}

/// The tokenizer proper, leaving the line reader positioned on the first
/// byte after the header section so the message body can be read from it.
pub(crate) fn parse_headers_lines(lines: &mut Lines) -> (r: Result<Headers, ParseError>)
    ensures
        ({
            let t = spec_tokenize(spec_lines(old(lines).rem()));
            match r {
                Ok(h) => {
                    &&& t is Ok
                    &&& h@ == spec_insert_all(Seq::<(Seq<char>, Seq<char>)>::empty(), t->Ok_0)
                    &&& h.wf()
                    &&& final(lines).rem() == spec_body(old(lines).rem())
                },
                Err(e) => t == Err::<Seq<(Seq<char>, Seq<char>)>, ParseError>(e),
            }
        }),
{
    let ghost s0 = lines.rem();
    let mut state = State::new();
    loop
        invariant_except_break
            state.wf(),
            s0 == old(lines).rem(),
            spec_run(spec_init(), spec_lines(s0)) == spec_run(state@, spec_lines(lines.rem())),
            spec_body(s0) == spec_body(lines.rem()),
        ensures
            state.wf(),
            s0 == old(lines).rem(),
            spec_run(spec_init(), spec_lines(s0)) == Ok::<TokState, ParseError>(state@),
            lines.rem() == spec_body(s0),
        decreases lines.rem().len(),
    {
        let ghost rem_before = lines.rem();
        match lines.next() {
            None => {
                proof {
                    assert(spec_lines(rem_before) =~= Seq::<Seq<u8>>::empty());
                    assert(spec_run(state@, spec_lines(rem_before)) == Ok::<
                        TokState,
                        ParseError,
                    >(state@));
                }
                break ;
            },
            Some(line) => {
                let ghost all_lines = spec_lines(rem_before);
                proof {
                    assert(all_lines == seq![spec_first_line(rem_before)] + spec_lines(
                        spec_after_line(rem_before),
                    ));
                    assert(all_lines[0] == line@);
                    assert(all_lines.drop_first() =~= spec_lines(lines.rem()));
                }
                if line.len() == 0 {
                    proof {
                        assert(spec_run(state@, all_lines) == Ok::<TokState, ParseError>(state@));
                        assert(spec_body(rem_before) == spec_after_line(rem_before));
                    }
                    break ;
                }
                proof {
                    assert(spec_body(rem_before) == spec_body(spec_after_line(rem_before)));
                }
                let ghost st_line = state@;
                let ghost rest = spec_lines(lines.rem());
                let n = line.len();
                let mut i: usize = 0;
                proof {
                    assert(line@.skip(0) =~= line@);
                }
                while i < n
                    invariant
                        state.wf(),
                        n == line@.len(),
                        n > 0,
                        0 <= i <= n,
                        spec_line(st_line, line@) == spec_line(state@, line@.skip(i as int)),
                        s0 == old(lines).rem(),
                        rest == spec_lines(lines.rem()),
                        spec_run(spec_init(), spec_lines(s0)) == spec_run(
                            st_line,
                            seq![line@] + rest,
                        ),
                    decreases n - i,
                {
                    let byte = line[i];
                    let ghost tail = line@.skip(i as int);
                    proof {
                        assert(tail[0] == byte);
                        assert(tail.drop_first() =~= line@.skip(i + 1));
                    }
                    let ghost st_byte = state@;
                    let t = match process(&state, byte) {
                        Ok(t) => t,
                        Err(e) => {
                            proof {
                                assert(spec_line(state@, tail) == Err::<TokState, ParseError>(e));
                                lemma_run_of_error(st_line, line@, rest, e);
                                assert(spec_tokenize(spec_lines(s0)) == Err::<
                                    Seq<(Seq<char>, Seq<char>)>,
                                    ParseError,
                                >(e));
                            }
                            return Err(e);
                        },
                    };
                    let (op, pos) = t;
                    if pos == Pos::Name && state.pos() == Pos::NewLine {
                        match state.commit() {
                            Ok(()) => {},
                            Err(e) => {
                                proof {
                                    assert(spec_step(st_byte, byte) == Err::<
                                        TokState,
                                        ParseError,
                                    >(e));
                                    assert(spec_line(st_byte, tail) == Err::<
                                        TokState,
                                        ParseError,
                                    >(e));
                                    lemma_run_of_error(st_line, line@, rest, e);
                                    assert(spec_tokenize(spec_lines(s0)) == Err::<
                                        Seq<(Seq<char>, Seq<char>)>,
                                        ParseError,
                                    >(e));
                                }
                                return Err(e);
                            },
                        }
                    }
                    state.set_pos(pos);
                    state.update(op);
                    proof {
                        assert(state@ =~= spec_step(st_byte, byte)->Ok_0);
                        assert(spec_line(st_byte, tail) == spec_line(state@, tail.drop_first()));
                    }
                    i = i + 1;
                }
                proof {
                    assert(line@.skip(n as int) =~= Seq::<u8>::empty());
                    assert(spec_line(state@, line@.skip(n as int)) == Ok::<TokState, ParseError>(
                        state@,
                    ));
                }
                let ghost st_done = state@;
                state.set_pos(Pos::NewLine);
                proof {
                    assert(state@ =~= TokState {
                        pos: Pos::NewLine,
                        pairs: st_done.pairs,
                        name: st_done.name,
                        value: st_done.value,
                    });
                    let all = seq![line@] + rest;
                    assert(all.len() > 0);
                    assert(all[0] == line@);
                    assert(all[0].len() > 0);
                    assert(all.drop_first() =~= rest);
                    assert(spec_line(st_line, line@) == Ok::<TokState, ParseError>(st_done));
                    assert(spec_run(st_line, all) == spec_run(state@, rest));
                    lemma_after_line_shorter(rem_before);
                }
            },
        }
    }
    let ghost st_final = state@;
    let pairs = match state.commit() {
        Ok(()) => state.into_headers(),
        Err(e) => {
            proof {
                assert(spec_tokenize(spec_lines(s0)) == Err::<
                    Seq<(Seq<char>, Seq<char>)>,
                    ParseError,
                >(e));
            }
            return Err(e);
        },
    };
    proof {
        assert(spec_tokenize(spec_lines(s0)) == Ok::<Seq<(Seq<char>, Seq<char>)>, ParseError>(
            spec_commit(st_final)->Ok_0.pairs,
        ));
    }
    Ok(pairs)
}

/// A failing step within a non-empty first line fails the whole run.
proof fn lemma_run_of_error(st: TokState, line: Seq<u8>, rest: Seq<Seq<u8>>, e: ParseError)
    requires
        line.len() > 0,
        spec_line(st, line) == Err::<TokState, ParseError>(e),
    ensures
        spec_run(st, seq![line] + rest) == Err::<TokState, ParseError>(e),
{
    let all = seq![line] + rest;
    assert(all.len() > 0);
    assert(all[0] == line);
    assert(all.drop_first() =~= rest);
}

} // verus!
