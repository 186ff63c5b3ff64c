//! Raw header pairs and the header collection: an ordered, duplicate-free
//! store of name/value pairs with case-insensitive name lookup, plus the
//! typed-header layer that converts between raw pairs and structured values.

use vstd::prelude::*;

pub use crate::http::parse::headers::ParseError;

use crate::text::{
    chars_lt, lemma_chars_lt_transitive, lemma_chars_lt_trichotomy, lower, str_cmp,
};

verus! {

/// One raw header pair as it appeared on the wire: a name and a value.
/// Two pairs count as the same header entry when their names agree ignoring
/// ASCII case and their values agree exactly; the original casing is kept.
#[derive(Debug)]
pub struct RawHeader {
    name: String,
    value: String,
}

impl View for RawHeader {
    type V = (Seq<char>, Seq<char>);

    closed spec fn view(&self) -> (Seq<char>, Seq<char>) {
        (self.name@, self.value@)
    }
}

/// The identity under which the collection stores pairs: names compared with
/// ASCII case folded, values compared exactly.
pub open spec fn pair_eq(p: (Seq<char>, Seq<char>), q: (Seq<char>, Seq<char>)) -> bool {
    lower(p.0) == lower(q.0) && p.1 == q.1
}

/// The collection's canonical order on pairs: by case-folded name first,
/// then by exact value.
pub open spec fn pair_lt(p: (Seq<char>, Seq<char>), q: (Seq<char>, Seq<char>)) -> bool {
    ||| chars_lt(lower(p.0), lower(q.0))
    ||| (lower(p.0) == lower(q.0) && chars_lt(p.1, q.1))
}

/// Exactly one of `pair_lt(p, q)`, `pair_eq(p, q)`, `pair_lt(q, p)` holds.
pub proof fn lemma_pair_trichotomy(p: (Seq<char>, Seq<char>), q: (Seq<char>, Seq<char>))
    ensures
        pair_lt(p, q) || pair_eq(p, q) || pair_lt(q, p),
        pair_lt(p, q) ==> !pair_eq(p, q) && !pair_lt(q, p),
        pair_eq(p, q) ==> !pair_lt(p, q) && !pair_lt(q, p),
        pair_lt(q, p) ==> !pair_eq(p, q) && !pair_lt(p, q),
{
    lemma_chars_lt_trichotomy(lower(p.0), lower(q.0));
    lemma_chars_lt_trichotomy(p.1, q.1);
}

/// The order on pairs is transitive.
pub proof fn lemma_pair_lt_transitive(
    p: (Seq<char>, Seq<char>),
    q: (Seq<char>, Seq<char>),
    r: (Seq<char>, Seq<char>),
)
    requires
        pair_lt(p, q),
        pair_lt(q, r),
    ensures
        pair_lt(p, r),
{
    if chars_lt(lower(p.0), lower(q.0)) && chars_lt(lower(q.0), lower(r.0)) {
        lemma_chars_lt_transitive(lower(p.0), lower(q.0), lower(r.0));
    } else if !chars_lt(lower(p.0), lower(q.0)) && !chars_lt(lower(q.0), lower(r.0)) {
        lemma_chars_lt_transitive(p.1, q.1, r.1);
    }
}

/// True when the pairs stand in strictly increasing canonical order, which
/// also makes them pairwise distinct under the collection's identity.
pub open spec fn sorted(s: Seq<(Seq<char>, Seq<char>)>) -> bool {
    forall|i: int, j: int| 0 <= i < j < s.len() ==> pair_lt(#[trigger] s[i], #[trigger] s[j])
}

/// Insertion of a pair into a sorted pair sequence: a pair already present
/// under the collection's identity leaves the sequence unchanged, any other
/// pair lands at its ordered position.
pub open spec fn spec_insert(
    s: Seq<(Seq<char>, Seq<char>)>,
    p: (Seq<char>, Seq<char>),
) -> Seq<(Seq<char>, Seq<char>)>
    decreases s.len(),
{
    if s.len() == 0 {
        seq![p]
    } else if pair_eq(p, s[0]) {
        s
    } else if pair_lt(p, s[0]) {
        seq![p] + s
    } else {
        seq![s[0]] + spec_insert(s.drop_first(), p)
    }
}

/// Insertion of each pair of `ps` in turn, first to last.
pub open spec fn spec_insert_all(
    s: Seq<(Seq<char>, Seq<char>)>,
    ps: Seq<(Seq<char>, Seq<char>)>,
) -> Seq<(Seq<char>, Seq<char>)>
    decreases ps.len(),
{
    if ps.len() == 0 {
        s
    } else {
        spec_insert_all(spec_insert(s, ps[0]), ps.drop_first())
    }
}

/// Inserting pairs one by one commutes with appending one more at the end.
pub proof fn lemma_insert_all_push(
    s: Seq<(Seq<char>, Seq<char>)>,
    ps: Seq<(Seq<char>, Seq<char>)>,
    p: (Seq<char>, Seq<char>),
)
    ensures
        spec_insert_all(s, ps.push(p)) == spec_insert(spec_insert_all(s, ps), p),
    decreases ps.len(),
{
    if ps.len() == 0 {
        assert(ps.push(p)[0] == p);
        assert(ps.push(p).drop_first() =~= Seq::<(Seq<char>, Seq<char>)>::empty());
        assert(spec_insert_all(s, ps) == s);
        assert(spec_insert_all(
            spec_insert(s, p),
            Seq::<(Seq<char>, Seq<char>)>::empty(),
        ) == spec_insert(s, p));
    } else {
        assert(ps.push(p)[0] == ps[0]);
        assert(ps.push(p).drop_first() =~= ps.drop_first().push(p));
        lemma_insert_all_push(spec_insert(s, ps[0]), ps.drop_first(), p);
    }
}

/// Inserting a pair that is already present, at position `i`, is a no-op.
proof fn lemma_insert_noop(s: Seq<(Seq<char>, Seq<char>)>, p: (Seq<char>, Seq<char>), i: int)
    requires
        sorted(s),
        0 <= i < s.len(),
        pair_eq(p, s[i]),
        forall|j: int| 0 <= j < i ==> pair_lt(#[trigger] s[j], p),
    ensures
        spec_insert(s, p) == s,
    decreases i,
{
    if i == 0 {
    } else {
        lemma_pair_trichotomy(p, s[0]);
        let rest = s.drop_first();
        assert forall|x: int, y: int| 0 <= x < y < rest.len() implies pair_lt(
            #[trigger] rest[x],
            #[trigger] rest[y],
        ) by {
            assert(pair_lt(s[x + 1], s[y + 1]));
        }
        assert forall|j: int| 0 <= j < i - 1 implies pair_lt(#[trigger] rest[j], p) by {
            assert(pair_lt(s[j + 1], p));
        }
        assert(rest[i - 1] == s[i]);
        lemma_insert_noop(rest, p, i - 1);
        assert(seq![s[0]] + rest =~= s);
    }
}

/// Inserting a pair that is not yet present places it exactly at its ordered
/// position `i`.
proof fn lemma_insert_position(s: Seq<(Seq<char>, Seq<char>)>, p: (Seq<char>, Seq<char>), i: int)
    requires
        sorted(s),
        0 <= i <= s.len(),
        forall|j: int| 0 <= j < i ==> pair_lt(#[trigger] s[j], p),
        i < s.len() ==> pair_lt(p, s[i]),
    ensures
        spec_insert(s, p) == s.subrange(0, i) + seq![p] + s.skip(i),
    decreases i,
{
    if i == 0 {
        if s.len() == 0 {
            assert(spec_insert(s, p) =~= s.subrange(0, 0) + seq![p] + s.skip(0));
        } else {
            lemma_pair_trichotomy(p, s[0]);
            assert(spec_insert(s, p) =~= s.subrange(0, 0) + seq![p] + s.skip(0));
        }
    } else {
        assert(pair_lt(s[0], p));
        lemma_pair_trichotomy(p, s[0]);
        let rest = s.drop_first();
        assert forall|x: int, y: int| 0 <= x < y < rest.len() implies pair_lt(
            #[trigger] rest[x],
            #[trigger] rest[y],
        ) by {
            assert(pair_lt(s[x + 1], s[y + 1]));
        }
        assert forall|j: int| 0 <= j < i - 1 implies pair_lt(#[trigger] rest[j], p) by {
            assert(pair_lt(s[j + 1], p));
        }
        if i < s.len() {
            assert(rest[i - 1] == s[i]);
        }
        lemma_insert_position(rest, p, i - 1);
        assert(spec_insert(s, p) =~= s.subrange(0, i) + seq![p] + s.skip(i)) by {
            assert(spec_insert(s, p) == seq![s[0]] + spec_insert(rest, p));
            assert(spec_insert(rest, p) == rest.subrange(0, i - 1) + seq![p] + rest.skip(i - 1));
        }
    }
}

/// Inserting the same pair a second time leaves a sorted sequence unchanged:
/// the collection's duplicate rule in one law.
pub proof fn lemma_insert_idempotent(s: Seq<(Seq<char>, Seq<char>)>, p: (Seq<char>, Seq<char>))
    requires
        sorted(s),
    ensures
        spec_insert(spec_insert(s, p), p) == spec_insert(s, p),
    decreases s.len(),
{
    if s.len() == 0 {
        assert(spec_insert(s, p) == seq![p]);
        assert(pair_eq(p, seq![p][0]));
    } else if pair_eq(p, s[0]) {
    } else if pair_lt(p, s[0]) {
        assert((seq![p] + s)[0] == p);
        assert(pair_eq(p, (seq![p] + s)[0]));
    } else {
        let rest = s.drop_first();
        assert forall|x: int, y: int| 0 <= x < y < rest.len() implies pair_lt(
            #[trigger] rest[x],
            #[trigger] rest[y],
        ) by {
            assert(pair_lt(s[x + 1], s[y + 1]));
        }
        lemma_insert_idempotent(rest, p);
        let t = seq![s[0]] + spec_insert(rest, p);
        assert(spec_insert(s, p) == t);
        assert(t[0] == s[0]);
        lemma_pair_trichotomy(p, s[0]);
        assert(t.len() > 0);
        assert(spec_insert(t, p) == seq![t[0]] + spec_insert(t.drop_first(), p));
        assert(t.drop_first() =~= spec_insert(rest, p));
        assert(spec_insert(t, p) =~= t);
    }
}

/// True when the pair's name equals `name` with ASCII case folded on both
/// sides: the collection's lookup rule.
pub open spec fn name_matches(p: (Seq<char>, Seq<char>), name: Seq<char>) -> bool {
    lower(p.0) == lower(name)
}

/// The pairs of `s` whose name matches `name` ignoring ASCII case, in the
/// order they stand in `s`.
pub open spec fn spec_matching(
    s: Seq<(Seq<char>, Seq<char>)>,
    name: Seq<char>,
) -> Seq<(Seq<char>, Seq<char>)> {
    s.filter(|p: (Seq<char>, Seq<char>)| name_matches(p, name))
}

impl RawHeader {
    /// Builds a pair from its wire name and value, kept verbatim.
    pub fn new(name: &str, value: &str) -> (r: Self)
        ensures
            r@ == (name@, value@),
    {
        RawHeader { name: name.to_owned(), value: value.to_owned() }
    }

    /// The pair's name, in its original casing.
    pub fn name(&self) -> (r: &str)
        ensures
            r@ == self@.0,
    {
        self.name.as_str()
    }

    /// The pair's value, verbatim.
    pub fn value(&self) -> (r: &str)
        ensures
            r@ == self@.1,
    {
        self.value.as_str()
    }
}

impl PartialEq for RawHeader {
    /// Pairs are equal under the collection's identity: names ignoring ASCII
    /// case, values exactly.
    fn eq(&self, other: &RawHeader) -> (r: bool) {
        str_cmp(self.name.as_str(), other.name.as_str(), true) == 0 && self.value == other.value
    }
}

impl vstd::std_specs::cmp::PartialEqSpecImpl for RawHeader {
    open spec fn obeys_eq_spec() -> bool {
        true
    }

    open spec fn eq_spec(&self, other: &RawHeader) -> bool {
        pair_eq(self@, other@)
    }
}

/// Three-way comparison of two stored pairs under the canonical order.
fn pair_cmp(a: &RawHeader, b: &RawHeader) -> (r: i8)
    ensures
        (r == -1) <==> pair_lt(a@, b@),
        (r == 0) <==> pair_eq(a@, b@),
        (r == 1) <==> pair_lt(b@, a@),
        -1 <= r <= 1,
{
    proof {
        lemma_chars_lt_trichotomy(lower(a@.0), lower(b@.0));
    }
    let c = str_cmp(a.name.as_str(), b.name.as_str(), true);
    if c != 0 {
        c
    } else {
        str_cmp(a.value.as_str(), b.value.as_str(), false)
    }
}

/// The header collection: an ordered set of raw pairs.  No two stored pairs
/// are the same entry (name ignoring ASCII case, value exactly), and lookup
/// returns matches in the canonical sorted order.
#[derive(Debug)]
pub struct Headers {
    headers: Vec<RawHeader>,
}

impl View for Headers {
    type V = Seq<(Seq<char>, Seq<char>)>;

    closed spec fn view(&self) -> Seq<(Seq<char>, Seq<char>)> {
        self.headers@.map_values(|h: RawHeader| h@)
    }
}

impl Headers {
    /// The collection's invariant: the stored pairs stand in strictly
    /// increasing canonical order, so no entry occurs twice.  Every
    /// constructor establishes it and every mutation preserves it.
    pub open spec fn wf(&self) -> bool {
        sorted(self@)
    }

    /// An empty collection.
    pub fn new() -> (r: Self)
        ensures
            r@ == Seq::<(Seq<char>, Seq<char>)>::empty(),
            r.wf(),
    {
        let r = Headers { headers: Vec::new() };
        proof {
            assert(r@ =~= Seq::<(Seq<char>, Seq<char>)>::empty());
        }
        r
    }

    /// Parses a byte source into a header collection, consuming lines until
    /// the first empty line or the end of the source.
    pub fn parse(input: Vec<u8>) -> (r: Result<Headers, ParseError>)
        ensures
            ({
                let t = crate::http::parse::headers::spec_tokenize(
                    crate::http::lines::spec_lines(input@),
                );
                match r {
                    Ok(h) => {
                        &&& t is Ok
                        &&& h@ == spec_insert_all(
                            Seq::<(Seq<char>, Seq<char>)>::empty(),
                            t->Ok_0,
                        )
                        &&& h.wf()
                    },
                    Err(e) => t == Err::<Seq<(Seq<char>, Seq<char>)>, ParseError>(e),
                }
            }),
    {
        crate::http::parse::headers::parse_headers(crate::http::lines::Lines::new(input))
    }

    /// How many pairs the collection stores.
    pub fn len_raw(&self) -> (r: usize)
        ensures
            r == self@.len(),
    {
        self.headers.len()
    }

    /// Inserts a raw pair.  Inserting a pair that is already present, with
    /// the name compared ignoring ASCII case and the value exactly, is a
    /// no-op.
    pub fn append_raw(&mut self, header: RawHeader)
        requires
            old(self).wf(),
        ensures
            final(self)@ == spec_insert(old(self)@, header@),
            final(self).wf(),
    {
        let ghost s = self@;
        let ghost p = header@;
        let n = self.headers.len();
        let mut i: usize = 0;
        while i < n
            invariant
                self == old(self),
                s == self@,
                p == header@,
                sorted(s),
                n == self.headers@.len(),
                0 <= i <= n,
                forall|j: int| 0 <= j < i ==> pair_lt(#[trigger] s[j], p),
            decreases n - i,
        {
            proof {
                assert(s[i as int] == self.headers@[i as int]@);
            }
            let c = pair_cmp(&header, &self.headers[i]);
            if c == 0 {
                proof {
                    lemma_insert_noop(s, p, i as int);
                }
                return ;
            } else if c < 0 {
                proof {
                    lemma_insert_position(s, p, i as int);
                }
                self.headers.insert(i, header);
                proof {
                    assert(self@ =~= s.subrange(0, i as int) + seq![p] + s.skip(i as int));
                    assert forall|x: int, y: int| 0 <= x < y < self@.len() implies pair_lt(
                        #[trigger] self@[x],
                        #[trigger] self@[y],
                    ) by {
                        lemma_sorted_after_insert(s, p, i as int, x, y);
                    }
                }
                return ;
            }
            i = i + 1;
        }
        proof {
            lemma_insert_position(s, p, n as int);
        }
        self.headers.push(header);
        proof {
            assert(self@ =~= s.subrange(0, n as int) + seq![p] + s.skip(n as int));
            assert forall|x: int, y: int| 0 <= x < y < self@.len() implies pair_lt(
                #[trigger] self@[x],
                #[trigger] self@[y],
            ) by {
                lemma_sorted_after_insert(s, p, n as int, x, y);
            }
        }
    }

    /// All stored pairs in the collection's canonical order, for diagnostics
    /// and iteration.
    pub fn raw_entries(&self) -> (r: Vec<&RawHeader>)
        ensures
            r@.map_values(|h: &RawHeader| h@) == self@,
    {
        let mut result: Vec<&RawHeader> = Vec::new();
        let n = self.headers.len();
        let mut i: usize = 0;
        proof {
            assert(result@.map_values(|h: &RawHeader| h@) =~= self@.subrange(0, 0));
        }
        while i < n
            invariant
                n == self.headers@.len(),
                0 <= i <= n,
                result@.map_values(|h: &RawHeader| h@) == self@.subrange(0, i as int),
            decreases n - i,
        {
            let ghost before = result@;
            result.push(&self.headers[i]);
            proof {
                assert(self@[i as int] == self.headers@[i as int]@);
                assert(before.map_values(|h: &RawHeader| h@).len() == before.len());
                assert(before.len() == i as int);
                let m = result@.map_values(|h: &RawHeader| h@);
                assert forall|j: int| 0 <= j < i + 1 implies m[j] == self@.subrange(0, i + 1)[j] by {
                    if j < i {
                        assert(before.map_values(|h: &RawHeader| h@)[j] == self@.subrange(
                            0,
                            i as int,
                        )[j]);
                        assert(result@[j] == before[j]);
                    } else {
                        assert(result@[j]@ == self@[i as int]);
                    }
                }
                assert(m =~= self@.subrange(0, i + 1));
            }
            i = i + 1;
        }
        proof {
            assert(self@.subrange(0, n as int) =~= self@);
        }
        result
    }

    /// All stored pairs whose name matches `name` ignoring ASCII case, in
    /// the collection's canonical order; empty when nothing matches.
    pub fn get_raw(&self, name: &str) -> (r: Vec<&RawHeader>)
        ensures
            r@.map_values(|h: &RawHeader| h@) == spec_matching(self@, name@),
    {
        let mut result: Vec<&RawHeader> = Vec::new();
        let n = self.headers.len();
        let mut i: usize = 0;
        proof {
            reveal(Seq::filter);
            assert(self@.subrange(0, 0) =~= Seq::<(Seq<char>, Seq<char>)>::empty());
            assert(result@.map_values(|h: &RawHeader| h@) =~= spec_matching(
                self@.subrange(0, 0),
                name@,
            ));
        }
        while i < n
            invariant
                n == self.headers@.len(),
                0 <= i <= n,
                result@.map_values(|h: &RawHeader| h@) == spec_matching(
                    self@.subrange(0, i as int),
                    name@,
                ),
            decreases n - i,
        {
            let ghost prefix = self@.subrange(0, i as int);
            let ghost cur = self@[i as int];
            proof {
                assert(cur == self.headers@[i as int]@);
                assert(self@.subrange(0, i + 1) =~= prefix.push(cur));
                reveal(Seq::filter);
                assert(prefix.push(cur).drop_last() =~= prefix);
                assert(spec_matching(prefix.push(cur), name@) == if name_matches(cur, name@) {
                    spec_matching(prefix, name@).push(cur)
                } else {
                    spec_matching(prefix, name@)
                });
            }
            let h = &self.headers[i];
            if str_cmp(h.name.as_str(), name, true) == 0 {
                result.push(h);
                proof {
                    assert(result@.map_values(|x: &RawHeader| x@) =~= spec_matching(
                        self@.subrange(0, i + 1),
                        name@,
                    ));
                }
            } else {
                proof {
                    assert(!name_matches(cur, name@));
                }
            }
            i = i + 1;
        }
        proof {
            assert(self@.subrange(0, n as int) =~= self@);
        }
        result
    }
}

/// A typed header: a canonical name used for lookup and re-serialization, a
/// parse direction from the matching raw pairs to a structured value, and a
/// serialize direction from the structured value back to raw value strings.
/// The structured value is the type's view.
pub trait TypedHeader: View + Sized {
    /// The header's name in its canonical casing.
    spec fn spec_canonical_name() -> Seq<char>;

    /// The type's parse policy: what structured value, if any, a list of
    /// matching raw pairs denotes.
    spec fn spec_parse(raw: Seq<(Seq<char>, Seq<char>)>) -> Option<Self::V>;

    /// The raw value strings this structured value serializes to.
    spec fn spec_raw_values(&self) -> Seq<Seq<char>>;

    /// The name used both for lookup and for re-emission.
    fn canonical_name() -> (r: &'static str)
        ensures
            r@ == Self::spec_canonical_name(),
    ;

    /// Converts a list of raw pairs, already filtered by canonical name, to
    /// a typed header.  Headers that legally repeat receive every occurrence;
    /// others may use only the first.
    fn parse(raw: &[&RawHeader]) -> (r: Option<Self>)
        ensures
            ({
                let pairs = raw@.map_values(|h: &RawHeader| h@);
                match r {
                    Some(h) => Self::spec_parse(pairs) == Some(h@),
                    None => Self::spec_parse(pairs) is None,
                }
            }),
    ;

    /// The raw values of this header, one string per raw occurrence.
    fn raw_values(&self) -> (r: Vec<String>)
        ensures
            r@.map_values(|s: String| s@) == self.spec_raw_values(),
    ;

    /// Converts the header back to raw pairs: the canonical name paired with
    /// each raw value.
    fn to_raw(&self) -> (r: Vec<RawHeader>)
        ensures
            r@.map_values(|h: RawHeader| h@) == spec_to_raw(
                Self::spec_canonical_name(),
                self.spec_raw_values(),
            ),
    {
        let values = self.raw_values();
        let mut r: Vec<RawHeader> = Vec::new();
        let n = values.len();
        let mut i: usize = 0;
        proof {
            assert(r@.map_values(|h: RawHeader| h@) =~= spec_to_raw(
                Self::spec_canonical_name(),
                self.spec_raw_values(),
            ).subrange(0, 0));
        }
        while i < n
            invariant
                n == values@.len(),
                0 <= i <= n,
                values@.map_values(|s: String| s@) == self.spec_raw_values(),
                r@.map_values(|h: RawHeader| h@) == spec_to_raw(
                    Self::spec_canonical_name(),
                    self.spec_raw_values(),
                ).subrange(0, i as int),
            decreases n - i,
        {
            let h = RawHeader::new(Self::canonical_name(), values[i].as_str());
            let ghost before = r@;
            r.push(h);
            proof {
                let ghost pairs = spec_to_raw(
                    Self::spec_canonical_name(),
                    self.spec_raw_values(),
                );
                assert(values@.map_values(|s: String| s@)[i as int] == values@[i as int]@);
                assert(pairs[i as int] == (
                    Self::spec_canonical_name(),
                    self.spec_raw_values()[i as int],
                ));
                assert(h@ == pairs[i as int]);
                let m = r@.map_values(|x: RawHeader| x@);
                assert(before.map_values(|x: RawHeader| x@).len() == before.len());
                assert(before.map_values(|x: RawHeader| x@).len() == i as int);
                assert(before.len() == i as int);
                assert(r@ == before.push(h));
                assert(r@.len() == i + 1);
                assert(m.len() == i + 1);
                assert forall|j: int| 0 <= j < i + 1 implies m[j] == pairs.subrange(0, i + 1)[j] by {
                    if j < i {
                        assert(before.map_values(|x: RawHeader| x@)[j] == pairs.subrange(
                            0,
                            i as int,
                        )[j]);
                        assert(r@[j] == before[j]);
                    } else {
                        assert(r@[j] == h);
                    }
                }
                assert(m =~= pairs.subrange(0, i + 1));
            }
            i = i + 1;
        }
        proof {
            assert(spec_to_raw(Self::spec_canonical_name(), self.spec_raw_values()).subrange(
                0,
                n as int,
            ) =~= spec_to_raw(Self::spec_canonical_name(), self.spec_raw_values()));
        }
        r
    }
}

/// The raw pairs a structured value serializes to: the canonical name paired
/// with each raw value.
pub open spec fn spec_to_raw(name: Seq<char>, values: Seq<Seq<char>>) -> Seq<
    (Seq<char>, Seq<char>),
> {
    values.map_values(|v: Seq<char>| (name, v))
}

impl Headers {
    /// Serializes a typed header and inserts each of its raw pairs.
    pub fn append<H: TypedHeader>(&mut self, header: H)
        requires
            old(self).wf(),
        ensures
            final(self)@ == spec_insert_all(
                old(self)@,
                spec_to_raw(H::spec_canonical_name(), header.spec_raw_values()),
            ),
            final(self).wf(),
    {
        let ghost all = spec_to_raw(H::spec_canonical_name(), header.spec_raw_values());
        let mut raw = header.to_raw();
        proof {
            assert(raw@.map_values(|h: RawHeader| h@) == all);
        }
        while raw.len() > 0
            invariant
                self.wf(),
                spec_insert_all(old(self)@, all) == spec_insert_all(
                    self@,
                    raw@.map_values(|h: RawHeader| h@),
                ),
            decreases raw@.len(),
        {
            let ghost pairs = raw@.map_values(|h: RawHeader| h@);
            let ghost before = raw@;
            let h = raw.remove(0);
            proof {
                assert(h@ == pairs[0]);
                assert(raw@ =~= before.drop_first());
                assert(raw@.map_values(|x: RawHeader| x@) =~= pairs.drop_first());
            }
            self.append_raw(h);
        }
        proof {
            assert(raw@.map_values(|h: RawHeader| h@) =~= Seq::<(Seq<char>, Seq<char>)>::empty());
        }
    }

    /// Looks the typed header up by its canonical name and parses the
    /// matching pairs under the type's own policy.
    pub fn get<H: TypedHeader>(&self) -> (r: Option<H>)
        ensures
            ({
                let matching = spec_matching(self@, H::spec_canonical_name());
                match r {
                    Some(h) => H::spec_parse(matching) == Some(h@),
                    None => H::spec_parse(matching) is None,
                }
            }),
    {
        let raw = self.get_raw(H::canonical_name());
        H::parse(raw.as_slice())
    }
}

/// The tracking-preference flag: a three-valued structured header.
#[derive(Copy, Clone, PartialEq, Eq, Structural, Debug)]
pub enum Dnt {
    Disabled,
    Enabled,
    Unspecified,
}

/// The wire text of a flag value: `"0"` disabled, `"1"` enabled, empty when
/// unspecified.
pub open spec fn spec_dnt_text(d: Dnt) -> Seq<char> {
    match d {
        Dnt::Disabled => "0"@,
        Dnt::Enabled => "1"@,
        Dnt::Unspecified => ""@,
    }
}

/// The structured value one raw value denotes: `"1"` enables, `"0"`
/// disables, anything else falls back to unspecified rather than erring.
pub open spec fn spec_dnt_of(v: Seq<char>) -> Dnt {
    if v == "1"@ {
        Dnt::Enabled
    } else if v == "0"@ {
        Dnt::Disabled
    } else {
        Dnt::Unspecified
    }
}

impl Dnt {
    /// The flag's wire text.
    pub fn to_string(&self) -> (r: String)
        ensures
            r@ == spec_dnt_text(*self),
    {
        match *self {
            Dnt::Disabled => "0".to_owned(),
            Dnt::Enabled => "1".to_owned(),
            Dnt::Unspecified => "".to_owned(),
        }
    }
}

/// The typed header carrying a tracking-preference flag.
#[derive(PartialEq, Eq, Structural, Debug)]
pub struct DntHeader {
    value: Dnt,
}

impl View for DntHeader {
    type V = Dnt;

    closed spec fn view(&self) -> Dnt {
        self.value
    }
}

impl DntHeader {
    /// Wraps a flag value in its typed header.
    pub fn new(value: Dnt) -> (r: Self)
        ensures
            r@ == value,
    {
        DntHeader { value }
    }

    /// The structured flag value.
    pub fn value(&self) -> (r: Dnt)
        ensures
            r == self@,
    {
        self.value
    }
}

impl TypedHeader for DntHeader {
    open spec fn spec_canonical_name() -> Seq<char> {
        "DNT"@
    }

    open spec fn spec_parse(raw: Seq<(Seq<char>, Seq<char>)>) -> Option<Dnt> {
        if raw.len() == 0 {
            Some(Dnt::Unspecified)
        } else {
            Some(spec_dnt_of(raw[0].1))
        }
    }

    open spec fn spec_raw_values(&self) -> Seq<Seq<char>> {
        seq![spec_dnt_text(self@)]
    }

    fn canonical_name() -> (r: &'static str) {
        "DNT"
    }

    fn parse(raw: &[&RawHeader]) -> (r: Option<Self>) {
        if raw.len() == 0 {
            return Some(DntHeader { value: Dnt::Unspecified });
        }
        let h: &RawHeader = raw[0];
        proof {
            assert(raw@.map_values(|x: &RawHeader| x@)[0] == h@);
        }
        let v = h.value();
        let value = if str_cmp(v, "1", false) == 0 {
            Dnt::Enabled
        } else if str_cmp(v, "0", false) == 0 {
            Dnt::Disabled
        } else {
            Dnt::Unspecified
        };
        Some(DntHeader { value })
    }

    fn raw_values(&self) -> (r: Vec<String>) {
        let mut r: Vec<String> = Vec::new();
        r.push(self.value.to_string());
        proof {
            assert(r@.map_values(|s: String| s@) =~= self.spec_raw_values());
        }
        r
    }
}

/// The typed header carrying the client software identifier as free text.
/// It requires at least one raw occurrence to exist.
#[derive(PartialEq, Eq, Debug)]
pub struct UserAgentHeader {
    value: String,
}

impl View for UserAgentHeader {
    type V = Seq<char>;

    closed spec fn view(&self) -> Seq<char> {
        self.value@
    }
}

impl UserAgentHeader {
    /// The header's free-text value.
    pub fn value(&self) -> (r: &str)
        ensures
            r@ == self@,
    {
        self.value.as_str()
    }
}

impl TypedHeader for UserAgentHeader {
    open spec fn spec_canonical_name() -> Seq<char> {
        "User-Agent"@
    }

    open spec fn spec_parse(raw: Seq<(Seq<char>, Seq<char>)>) -> Option<Seq<char>> {
        if raw.len() == 0 {
            None
        } else {
            Some(raw[0].1)
        }
    }

    open spec fn spec_raw_values(&self) -> Seq<Seq<char>> {
        seq![self@]
    }

    fn canonical_name() -> (r: &'static str) {
        "User-Agent"
    }

    fn parse(raw: &[&RawHeader]) -> (r: Option<Self>) {
        if raw.len() == 0 {
            return None;
        }
        let h: &RawHeader = raw[0];
        proof {
            assert(raw@.map_values(|x: &RawHeader| x@)[0] == h@);
        }
        Some(UserAgentHeader { value: h.value().to_owned() })
    }

    fn raw_values(&self) -> (r: Vec<String>) {
        let mut r: Vec<String> = Vec::new();
        r.push(self.value.clone());
        proof {
            assert(r@.map_values(|s: String| s@) =~= self.spec_raw_values());
        }
        r
    }
}

/// Filtering a single pair keeps it exactly when its name matches.
proof fn lemma_matching_single(p: (Seq<char>, Seq<char>), name: Seq<char>)
    ensures
        name_matches(p, name) ==> spec_matching(seq![p], name) == seq![p],
        !name_matches(p, name) ==> spec_matching(seq![p], name) == Seq::<
            (Seq<char>, Seq<char>),
        >::empty(),
{
    reveal_with_fuel(Seq::filter, 3);
    let s = seq![p];
    assert(s.drop_last() =~= Seq::<(Seq<char>, Seq<char>)>::empty());
    assert(s.last() == p);
    if name_matches(p, name) {
        assert(spec_matching(s, name) =~= seq![p]);
    }
}

/// Round trip for the flag header: serializing any structured flag value and
/// re-parsing the pairs that match the canonical name reproduces the value.
pub proof fn lemma_dnt_round_trip(h: DntHeader)
    ensures
        DntHeader::spec_parse(
            spec_matching(
                spec_to_raw(DntHeader::spec_canonical_name(), h.spec_raw_values()),
                DntHeader::spec_canonical_name(),
            ),
        ) == Some(h@),
{
    let pairs = spec_to_raw(DntHeader::spec_canonical_name(), h.spec_raw_values());
    assert(pairs =~= seq![(DntHeader::spec_canonical_name(), spec_dnt_text(h@))]);
    lemma_matching_single(pairs[0], DntHeader::spec_canonical_name());
    assert(name_matches(pairs[0], DntHeader::spec_canonical_name()));
    reveal_strlit("0");
    reveal_strlit("1");
    reveal_strlit("");
    assert(spec_dnt_of(spec_dnt_text(h@)) == h@) by {
        assert("0"@.len() == 1 && "1"@.len() == 1 && ""@.len() == 0);
        assert("0"@[0] == '0' && "1"@[0] == '1');
    }
}

/// Round trip for the free-text header: serializing any structured value and
/// re-parsing the pairs that match the canonical name reproduces the value.
pub proof fn lemma_user_agent_round_trip(h: &UserAgentHeader)
    ensures
        UserAgentHeader::spec_parse(
            spec_matching(
                spec_to_raw(UserAgentHeader::spec_canonical_name(), h.spec_raw_values()),
                UserAgentHeader::spec_canonical_name(),
            ),
        ) == Some(h@),
{
    let pairs = spec_to_raw(UserAgentHeader::spec_canonical_name(), h.spec_raw_values());
    assert(pairs =~= seq![(UserAgentHeader::spec_canonical_name(), h@)]);
    lemma_matching_single(pairs[0], UserAgentHeader::spec_canonical_name());
    assert(name_matches(pairs[0], UserAgentHeader::spec_canonical_name()));
}

/// After placing `p` at its ordered position `i` of the sorted sequence `s`,
/// any two positions of the result are still in order.
proof fn lemma_sorted_after_insert(
    s: Seq<(Seq<char>, Seq<char>)>,
    p: (Seq<char>, Seq<char>),
    i: int,
    x: int,
    y: int,
)
    requires
        sorted(s),
        0 <= i <= s.len(),
        forall|j: int| 0 <= j < i ==> pair_lt(#[trigger] s[j], p),
        i < s.len() ==> pair_lt(p, s[i]),
        0 <= x < y < s.len() + 1,
    ensures
        pair_lt(
            (s.subrange(0, i) + seq![p] + s.skip(i))[x],
            (s.subrange(0, i) + seq![p] + s.skip(i))[y],
        ),
{
    let t = s.subrange(0, i) + seq![p] + s.skip(i);
    assert forall|k: int| 0 <= k < t.len() implies t[k] == (if k < i {
        s[k]
    } else if k == i {
        p
    } else {
        s[k - 1]
    }) by {}
    if x < i && y < i {
    } else if x < i && y == i {
    } else if x < i && y > i {
        if i < s.len() {
            if y - 1 > i {
                assert(pair_lt(s[x], s[y - 1]));
            }
        }
        assert(pair_lt(s[x], s[y - 1]));
    } else if x == i && y > i {
        if y - 1 == i {
            assert(pair_lt(p, s[i]));
        } else {
            lemma_pair_lt_transitive(p, s[i], s[y - 1]);
        }
    } else {
    }
}

} // verus!
