//! The token model shared by the word count and the transforms: a token is a
//! maximal run of non-whitespace characters, and transformed tokens are joined
//! with single spaces.
use vstd::prelude::*;

verus! {

/// Unicode's White_Space property, the set that `char::is_whitespace` tests.
pub open spec fn is_white_space(c: char) -> bool {
    let u = c as u32;
    (0x09 <= u <= 0x0d) || u == 0x20 || u == 0x85 || u == 0xa0 || u == 0x1680 || (0x2000 <= u
        <= 0x200a) || u == 0x2028 || u == 0x2029 || u == 0x202f || u == 0x205f || u == 0x3000
}

/// The tokens of `s`, left to right: each maximal run of characters that are
/// not whitespace, so that leading, trailing and repeated whitespace yields
/// no empty token.
pub open spec fn words(s: Seq<char>) -> Seq<Seq<char>>
    decreases s.len(),
{
    if s.len() == 0 {
        seq![]
    } else {
        let prev = s.drop_last();
        let c = s.last();
        if is_white_space(c) {
            words(prev)
        } else if prev.len() > 0 && !is_white_space(prev.last()) {
            let w = words(prev);
            w.drop_last().push(w.last().push(c))
        } else {
            words(prev).push(seq![c])
        }
    }
}

/// The tokens `ws` joined with a single space between neighbours.
pub open spec fn join_words(ws: Seq<Seq<char>>) -> Seq<char>
    decreases ws.len(),
{
    if ws.len() == 0 {
        seq![]
    } else if ws.len() == 1 {
        ws[0]
    } else {
        join_words(ws.drop_last()) + seq![' '] + ws.last()
    }
}

/// A token in the sense of `words`: non-empty and free of whitespace.
pub open spec fn is_token(w: Seq<char>) -> bool {
    w.len() > 0 && forall|i: int| 0 <= i < w.len() ==> !is_white_space(#[trigger] w[i])
}

/// Relies on `char::is_whitespace`: true exactly for the characters with
/// Unicode's White_Space property.
#[verifier::external_body]
pub(crate) fn char_is_whitespace(c: char) -> (r: bool)
    ensures
        r == is_white_space(c),
{
    c.is_whitespace()
}

/// Relies on `String::push`: appends one character at the end.
#[verifier::external_body]
pub(crate) fn push_char(s: &mut String, c: char)
    ensures
        final(s)@ == old(s)@.push(c),
{
    s.push(c)
}

/// The views of a vector of strings.
pub open spec fn views(v: Seq<String>) -> Seq<Seq<char>> {
    v.map_values(|t: String| t@)
}

/// Splits `s` into its tokens, in order.
pub fn split_words(s: &str) -> (r: Vec<String>)
    ensures
        views(r@) == words(s@),
{
    let mut tokens: Vec<String> = Vec::new();
    let mut cur = String::new();
    let ghost mut seen: Seq<char> = seq![];
    for c in it: s.chars()
        invariant
            it.seq() == s@,
            seen == s@.take(it.index() as int),
            cur@.len() == 0 ==> views(tokens@) == words(seen) && (seen.len() == 0
                || is_white_space(seen.last())),
            cur@.len() > 0 ==> views(tokens@).push(cur@) == words(seen) && seen.len() > 0
                && !is_white_space(seen.last()),
    {
        let ghost before = seen;
        proof {
            seen = s@.take(it.index() + 1);
            assert(seen.drop_last() == before);
            assert(seen.last() == c);
        }
        if char_is_whitespace(c) {
            if !cur.as_str().is_empty() {
                let done = cur;
                cur = String::new();
                tokens.push(done);
                assert(views(tokens@) == views(tokens@.drop_last()).push(done@));
            }
        } else {
            let ghost old_cur = cur@;
            push_char(&mut cur, c);
            proof {
                if before.len() > 0 && !is_white_space(before.last()) {
                    assert(old_cur.len() > 0);
                    assert(old_cur.push(c) == cur@);
                } else {
                    assert(cur@ == seq![c]);
                }
            }
        }
    }
    proof {
        assert(seen == s@);
    }
    if !cur.as_str().is_empty() {
        let ghost old_tokens = tokens@;
        tokens.push(cur);
        assert(views(tokens@) == views(old_tokens).push(cur@));
    }
    tokens
}

/// Joins `ws` with a single space between neighbours.
pub fn join_with_spaces(ws: &Vec<String>) -> (r: String)
    ensures
        r@ == join_words(views(ws@)),
{
    let mut out = String::new();
    for i in 0..ws.len()
        invariant
            out@ == join_words(views(ws@.take(i as int))),
    {
        let ghost before = out@;
        if i > 0 {
            push_char(&mut out, ' ');
        }
        out.append(ws[i].as_str());
        proof {
            let v = views(ws@.take(i + 1));
            assert(v.drop_last() == views(ws@.take(i as int)));
            assert(v.last() == ws@[i as int]@);
            if i == 0 {
                assert(out@ == before + ws@[0]@);
            }
        }
    }
    proof {
        assert(ws@.take(ws@.len() as int) == ws@);
    }
    out
}

/// Every token that `words` yields is non-empty and free of whitespace, and
/// empty text has no token.
pub proof fn lemma_words_are_tokens(s: Seq<char>)
    ensures
        forall|i: int| 0 <= i < words(s).len() ==> is_token(#[trigger] words(s)[i]),
        s.len() == 0 ==> words(s).len() == 0,
    decreases s.len(),
{
    if s.len() > 0 {
        let prev = s.drop_last();
        let c = s.last();
        lemma_words_are_tokens(prev);
        let w = words(prev);
        if !is_white_space(c) {
            if prev.len() > 0 && !is_white_space(prev.last()) {
                lemma_words_nonempty(prev);
                let t = w.last().push(c);
                assert(is_token(w[w.len() - 1]));
                assert forall|i: int| 0 <= i < t.len() implies !is_white_space(#[trigger] t[i]) by {
                    if i < t.len() - 1 {
                        assert(t[i] == w[w.len() - 1][i]);
                    }
                }
                assert(is_token(t));
                assert forall|i: int| 0 <= i < words(s).len() implies is_token(
                    #[trigger] words(s)[i],
                ) by {
                    if i < words(s).len() - 1 {
                        assert(words(s)[i] == w[i]);
                    }
                }
            } else {
                assert(is_token(seq![c]));
                assert forall|i: int| 0 <= i < words(s).len() implies is_token(
                    #[trigger] words(s)[i],
                ) by {
                    if i < words(s).len() - 1 {
                        assert(words(s)[i] == w[i]);
                    }
                }
            }
        }
    }
}

/// Text that ends in a non-whitespace character has at least one token.
proof fn lemma_words_nonempty(s: Seq<char>)
    requires
        s.len() > 0,
        !is_white_space(s.last()),
    ensures
        words(s).len() > 0,
    decreases s.len(),
{
    let prev = s.drop_last();
    if prev.len() > 0 && !is_white_space(prev.last()) {
        lemma_words_nonempty(prev);
    }
}

/// A token appended after whitespace, or at the very start, adds exactly
/// that token.
proof fn lemma_words_append_token(p: Seq<char>, t: Seq<char>)
    requires
        is_token(t),
        p.len() == 0 || is_white_space(p.last()),
    ensures
        words(p + t) == words(p).push(t),
    decreases t.len(),
{
    let s = p + t;
    if t.len() == 1 {
        assert(s.drop_last() == p);
        assert(t == seq![t[0]]);
    } else {
        let u = t.drop_last();
        assert(is_token(u)) by {
            assert forall|i: int| 0 <= i < u.len() implies !is_white_space(#[trigger] u[i]) by {
                assert(u[i] == t[i]);
            }
        }
        lemma_words_append_token(p, u);
        assert(s.drop_last() == p + u);
        assert((p + u).last() == t[t.len() - 2]);
        assert(u.push(t.last()) == t);
    }
}

/// Joining tokens with single spaces and splitting the result again gives
/// back the same tokens.
pub proof fn lemma_words_of_join(ts: Seq<Seq<char>>)
    requires
        forall|i: int| 0 <= i < ts.len() ==> is_token(#[trigger] ts[i]),
    ensures
        words(join_words(ts)) == ts,
    decreases ts.len(),
{
    if ts.len() == 1 {
        lemma_words_append_token(seq![], ts[0]);
        assert(seq![] + ts[0] == ts[0]);
        assert(words(seq![]).push(ts[0]) == ts);
    } else if ts.len() > 1 {
        let init = ts.drop_last();
        lemma_words_of_join(init);
        let p = join_words(init) + seq![' '];
        assert(p.drop_last() == join_words(init));
        assert(words(p) == init);
        lemma_words_append_token(p, ts.last());
        assert(init.push(ts.last()) == ts);
    }
}

} // verus!
