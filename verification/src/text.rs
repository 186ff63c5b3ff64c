//! Character-sequence helpers shared by the header collection: ASCII case
//! folding and a lexicographic order on character sequences.

use vstd::prelude::*;

verus! {

/// Lower-case image of one character: ASCII upper-case letters fold to the
/// matching lower-case letter, every other character is unchanged.
pub open spec fn spec_lower_char(c: char) -> char {
    if 65 <= c as u32 <= 90 {
        ((c as u32 + 32) as char)
    } else {
        c
    }
}

/// Lower-case image of a character sequence, folded character by character.
pub open spec fn lower(s: Seq<char>) -> Seq<char> {
    s.map_values(|c: char| spec_lower_char(c))
}

/// Strict lexicographic order on character sequences, comparing characters by
/// their Unicode scalar value; a proper prefix comes before its extensions.
pub open spec fn chars_lt(a: Seq<char>, b: Seq<char>) -> bool
    decreases a.len(),
{
    &&& b.len() > 0
    &&& {
        ||| a.len() == 0
        ||| (a[0] as u32) < (b[0] as u32)
        ||| (a[0] == b[0] && chars_lt(a.drop_first(), b.drop_first()))
    }
}

/// Exactly one of `chars_lt(a, b)`, `a == b`, `chars_lt(b, a)` holds.
pub proof fn lemma_chars_lt_trichotomy(a: Seq<char>, b: Seq<char>)
    ensures
        chars_lt(a, b) || a == b || chars_lt(b, a),
        chars_lt(a, b) ==> !chars_lt(b, a) && a != b,
        chars_lt(b, a) ==> !chars_lt(a, b) && a != b,
    decreases a.len(),
{
    if a.len() == 0 && b.len() == 0 {
        assert(a =~= b);
    } else if a.len() > 0 && b.len() > 0 && a[0] == b[0] {
        lemma_chars_lt_trichotomy(a.drop_first(), b.drop_first());
        if a.drop_first() == b.drop_first() {
            assert(a =~= b) by {
                assert(a.len() == b.len());
                assert forall|j: int| 0 <= j < a.len() implies a[j] == b[j] by {
                    if j > 0 {
                        assert(a.drop_first()[j - 1] == b.drop_first()[j - 1]);
                    }
                }
            }
        }
        if a == b {
            assert(a.drop_first() =~= b.drop_first());
        }
    } else if a.len() > 0 && b.len() > 0 {
        vstd::utf8::char_u32_cast(a[0], a[0] as u32);
        vstd::utf8::char_u32_cast(b[0], b[0] as u32);
        assert((a[0] as u32) != (b[0] as u32));
    }
}

/// The order is transitive.
pub proof fn lemma_chars_lt_transitive(a: Seq<char>, b: Seq<char>, c: Seq<char>)
    requires
        chars_lt(a, b),
        chars_lt(b, c),
    ensures
        chars_lt(a, c),
    decreases a.len(),
{
    if a.len() > 0 && b.len() > 0 && c.len() > 0 {
        if a[0] == b[0] && b[0] == c[0] {
            lemma_chars_lt_transitive(a.drop_first(), b.drop_first(), c.drop_first());
        }
    }
}

/// Dropping an equal prefix of both sequences does not change the order.
pub proof fn lemma_chars_lt_common_prefix(a: Seq<char>, b: Seq<char>, i: int)
    requires
        0 <= i <= a.len(),
        i <= b.len(),
        a.subrange(0, i) == b.subrange(0, i),
    ensures
        chars_lt(a, b) == chars_lt(a.skip(i), b.skip(i)),
    decreases i,
{
    if i > 0 {
        assert(a.subrange(0, i)[0] == b.subrange(0, i)[0]);
        assert(a.subrange(0, i)[0] == a[0]);
        assert(b.subrange(0, i)[0] == b[0]);
        assert(a[0] == b[0]);
        assert(a.drop_first().subrange(0, i - 1) =~= b.drop_first().subrange(0, i - 1)) by {
            assert forall|j: int| 0 <= j < i - 1 implies #[trigger] a.drop_first()[j]
                == b.drop_first()[j] by {
                assert(a.subrange(0, i)[j + 1] == b.subrange(0, i)[j + 1]);
                assert(a.subrange(0, i)[j + 1] == a[j + 1]);
                assert(b.subrange(0, i)[j + 1] == b[j + 1]);
                assert(a.drop_first()[j] == a[j + 1]);
                assert(b.drop_first()[j] == b[j + 1]);
            }
        }
        lemma_chars_lt_common_prefix(a.drop_first(), b.drop_first(), i - 1);
        assert(a.drop_first().skip(i - 1) =~= a.skip(i));
        assert(b.drop_first().skip(i - 1) =~= b.skip(i));
        assert(chars_lt(a, b) == chars_lt(a.drop_first(), b.drop_first())) by {
            assert(b.len() > 0 && a.len() > 0);
            assert(!((a[0] as u32) < (b[0] as u32)));
        }
    } else {
        assert(a.skip(0) =~= a);
        assert(b.skip(0) =~= b);
    }
}

/// Relies on `String::from_utf8` of the standard library: it returns the
/// decoded string exactly when the bytes are valid UTF-8, and an error
/// otherwise.  Validity and the decoded characters are the ones vstd's
/// UTF-8 specification defines.
#[verifier::external_body]
pub(crate) fn bytes_to_string(v: &Vec<u8>) -> (r: Option<String>)
    ensures
        r is Some <==> vstd::utf8::valid_utf8(v@),
        r matches Some(s) ==> s@ == vstd::utf8::decode_utf8(v@),
{
    String::from_utf8(v.clone()).ok()
}

/// Folds one ASCII upper-case letter to lower case; other characters pass
/// through unchanged.
pub fn lower_char(c: char) -> (r: char)
    ensures
        r == spec_lower_char(c),
{
    if c >= 'A' && c <= 'Z' {
        ((c as u8) + 32) as char
    } else {
        c
    }
}

/// Three-way comparison of two strings under the lexicographic order, case
/// folded first when `fold` is set: -1, 0 or 1 as the first string comes
/// before, equals, or comes after the second.
pub fn str_cmp(a: &str, b: &str, fold: bool) -> (r: i8)
    ensures
        ({
            let ka = if fold { lower(a@) } else { a@ };
            let kb = if fold { lower(b@) } else { b@ };
            &&& (r == -1) <==> chars_lt(ka, kb)
            &&& (r == 0) <==> ka == kb
            &&& (r == 1) <==> chars_lt(kb, ka)
            &&& -1 <= r <= 1
        }),
{
    let ghost ka = if fold { lower(a@) } else { a@ };
    let ghost kb = if fold { lower(b@) } else { b@ };
    let a_len = a.unicode_len();
    let b_len = b.unicode_len();
    let min_len = if a_len < b_len { a_len } else { b_len };
    let mut i: usize = 0;
    proof {
        lemma_chars_lt_trichotomy(ka, kb);
    }
    while i < min_len
        invariant
            0 <= i <= min_len,
            min_len <= a_len,
            min_len <= b_len,
            a_len == a@.len(),
            b_len == b@.len(),
            min_len == if a_len < b_len { a_len } else { b_len },
            ka == if fold { lower(a@) } else { a@ },
            kb == if fold { lower(b@) } else { b@ },
            ka.subrange(0, i as int) == kb.subrange(0, i as int),
        decreases min_len - i,
    {
        let ca = if fold { lower_char(a.get_char(i)) } else { a.get_char(i) };
        let cb = if fold { lower_char(b.get_char(i)) } else { b.get_char(i) };
        proof {
            lemma_chars_lt_common_prefix(ka, kb, i as int);
            lemma_chars_lt_common_prefix(kb, ka, i as int);
            assert(ka.skip(i as int)[0] == ca);
            assert(kb.skip(i as int)[0] == cb);
            vstd::utf8::char_u32_cast(ca, ca as u32);
            vstd::utf8::char_u32_cast(cb, cb as u32);
        }
        if ca != cb {
            proof {
                lemma_chars_lt_trichotomy(ka, kb);
            }
            if (ca as u32) < (cb as u32) {
                return -1;
            } else {
                return 1;
            }
        }
        proof {
            assert(ka.subrange(0, i + 1) =~= kb.subrange(0, i + 1)) by {
                assert forall|j: int| 0 <= j < i + 1 implies #[trigger] ka[j] == kb[j] by {
                    if j < i {
                        assert(ka.subrange(0, i as int)[j] == kb.subrange(0, i as int)[j]);
                    } else {
                        assert(ka.skip(i as int)[0] == kb.skip(i as int)[0]);
                    }
                }
            }
        }
        i = i + 1;
    }
    proof {
        lemma_chars_lt_common_prefix(ka, kb, min_len as int);
        lemma_chars_lt_common_prefix(kb, ka, min_len as int);
        lemma_chars_lt_trichotomy(ka, kb);
    }
    if a_len < b_len {
        -1
    } else if b_len < a_len {
        1
    } else {
        proof {
            assert(ka =~= kb);
        }
        0
    }
}

} // verus!
