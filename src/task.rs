//! The transform engine: the two word-level transforms and the task that a
//! selector resolves to.
use vstd::prelude::*;
use crate::args::Args;
use crate::text::{
    is_token, is_white_space, join_with_spaces, join_words, lemma_words_are_tokens,
    lemma_words_of_join, push_char, split_words, views, words,
};

verus! {

/// The word that replaces each token starting with a lowercase `p`.
pub const P_WORD: &'static str = "replaced";

/// What each lowercase `s` within a token becomes.
pub const S_CHAR: &'static str = "th";

/// The characters of `P_WORD`.
pub open spec fn p_word() -> Seq<char> {
    seq!['r', 'e', 'p', 'l', 'a', 'c', 'e', 'd']
}

/// The characters of `S_CHAR`.
pub open spec fn s_char() -> Seq<char> {
    seq!['t', 'h']
}

/// A token after the prefix rule: the replacement word when the token starts
/// with a lowercase `p`, else the token itself.
pub open spec fn replace_p_word(w: Seq<char>) -> Seq<char> {
    if w.len() > 0 && w[0] == 'p' {
        p_word()
    } else {
        w
    }
}

/// A token after the character rule: each lowercase `s` becomes `th`, every
/// other character stays.
pub open spec fn replace_s_chars(w: Seq<char>) -> Seq<char>
    decreases w.len(),
{
    if w.len() == 0 {
        seq![]
    } else {
        replace_s_chars(w.drop_last()) + if w.last() == 's' {
            s_char()
        } else {
            seq![w.last()]
        }
    }
}

/// The prefix transform of `s`: its tokens, each after the prefix rule,
/// joined by single spaces.
pub open spec fn prefix_transform(s: Seq<char>) -> Seq<char> {
    join_words(words(s).map_values(|w: Seq<char>| replace_p_word(w)))
}

/// The character transform of `s`: its tokens, each after the character
/// rule, joined by single spaces.
pub open spec fn char_transform(s: Seq<char>) -> Seq<char> {
    join_words(words(s).map_values(|w: Seq<char>| replace_s_chars(w)))
}

/// The transform that `arg` selects, applied to `s`.
pub open spec fn transform(arg: Args, s: Seq<char>) -> Seq<char> {
    match arg {
        Args::P => prefix_transform(s),
        Args::S => char_transform(s),
    }
}

fn replace_p_exec(w: &String) -> (r: String)
    ensures
        r@ == replace_p_word(w@),
{
    if !w.as_str().is_empty() && w.as_str().get_char(0) == 'p' {
        proof {
            reveal_strlit("replaced");
        }
        String::from_str(P_WORD)
    } else {
        w.clone()
    }
}

fn replace_s_exec(w: &String) -> (r: String)
    ensures
        r@ == replace_s_chars(w@),
{
    let mut out = String::new();
    for c in it: w.as_str().chars()
        invariant
            it.seq() == w@,
            out@ == replace_s_chars(w@.take(it.index() as int)),
    {
        let ghost k = it.index();
        proof {
            assert(w@.take(k + 1).drop_last() == w@.take(k));
        }
        if c == 's' {
            proof {
                reveal_strlit("th");
            }
            out.append(S_CHAR);
        } else {
            push_char(&mut out, c);
        }
    }
    proof {
        assert(w@.take(w@.len() as int) == w@);
    }
    out
}

/// The operation to perform on the loaded text, resolved from a selector.
pub struct Task {
    arg: Args,
}

impl View for Task {
    type V = Args;

    closed spec fn view(&self) -> Args {
        self.arg
    }
}

impl Task {
    /// Replaces each token that begins with a lowercase `p` by `P_WORD`; the
    /// tokens come back joined by single spaces.
    pub fn target_p(data: String) -> (r: String)
        ensures
            r@ == prefix_transform(data@),
    {
        let tokens = split_words(data.as_str());
        let mut out: Vec<String> = Vec::new();
        for i in 0..tokens.len()
            invariant
                views(out@) == views(tokens@).take(i as int).map_values(
                    |w: Seq<char>| replace_p_word(w),
                ),
        {
            let w = replace_p_exec(&tokens[i]);
            let ghost before = out@;
            out.push(w);
            assert(views(out@) == views(before).push(w@));
        }
        assert(views(tokens@).take(tokens@.len() as int) == views(tokens@));
        join_with_spaces(&out)
    }

    /// Replaces each lowercase `s` within the tokens by `S_CHAR`; the tokens
    /// come back joined by single spaces.
    pub fn target_s(data: String) -> (r: String)
        ensures
            r@ == char_transform(data@),
    {
        let tokens = split_words(data.as_str());
        let mut out: Vec<String> = Vec::new();
        for i in 0..tokens.len()
            invariant
                views(out@) == views(tokens@).take(i as int).map_values(
                    |w: Seq<char>| replace_s_chars(w),
                ),
        {
            let w = replace_s_exec(&tokens[i]);
            let ghost before = out@;
            out.push(w);
            assert(views(out@) == views(before).push(w@));
        }
        assert(views(tokens@).take(tokens@.len() as int) == views(tokens@));
        join_with_spaces(&out)
    }

    /// The task that `arg` selects: `Args::P` resolves to `target_p`,
    /// `Args::S` to `target_s`.
    pub fn new(arg: Args) -> (r: Self)
        ensures
            r@ == arg,
    {
        Self { arg }
    }

    /// Applies the selected transform to `data`.
    pub fn perform(&self, data: String) -> (r: String)
        ensures
            r@ == transform(self@, data@),
    {
        match self.arg {
            Args::P => Self::target_p(data),
            Args::S => Self::target_s(data),
        }
    }
}

/// The character rule keeps a token a token and leaves no lowercase `s`
/// behind; on a token without one it changes nothing.
proof fn lemma_replace_s_chars(w: Seq<char>)
    ensures
        !replace_s_chars(w).contains('s'),
        is_token(w) ==> is_token(replace_s_chars(w)),
        !w.contains('s') ==> replace_s_chars(w) == w,
    decreases w.len(),
{
    if w.len() > 0 {
        let u = w.drop_last();
        let c = w.last();
        lemma_replace_s_chars(u);
        let tail = if c == 's' {
            s_char()
        } else {
            seq![c]
        };
        let r = replace_s_chars(w);
        assert(r == replace_s_chars(u) + tail);
        assert(!r.contains('s')) by {
            assert forall|i: int| 0 <= i < r.len() implies r[i] != 's' by {
                if i < replace_s_chars(u).len() {
                    assert(r[i] == replace_s_chars(u)[i]);
                } else {
                    assert(r[i] == tail[i - replace_s_chars(u).len()]);
                }
            }
        }
        if is_token(w) {
            if u.len() > 0 {
                assert(is_token(u)) by {
                    assert forall|i: int| 0 <= i < u.len() implies !is_white_space(
                        #[trigger] u[i],
                    ) by {
                        assert(u[i] == w[i]);
                    }
                }
            }
            assert(!is_white_space(c)) by {
                assert(c == w[w.len() - 1]);
            }
            assert forall|i: int| 0 <= i < r.len() implies !is_white_space(#[trigger] r[i]) by {
                if i < replace_s_chars(u).len() {
                    assert(r[i] == replace_s_chars(u)[i]);
                    if u.len() == 0 {
                        assert(replace_s_chars(u).len() == 0);
                    }
                } else {
                    assert(r[i] == tail[i - replace_s_chars(u).len()]);
                }
            }
        }
        if !w.contains('s') {
            assert(!u.contains('s')) by {
                assert forall|i: int| 0 <= i < u.len() implies u[i] != 's' by {
                    assert(u[i] == w[i]);
                }
            }
            assert(c == w[w.len() - 1]);
            assert(u.push(c) == w);
        }
    }
}

/// The prefix rule keeps a token a token, and applying it twice is
/// applying it once.
proof fn lemma_replace_p_word(w: Seq<char>)
    ensures
        is_token(w) ==> is_token(replace_p_word(w)),
        replace_p_word(replace_p_word(w)) == replace_p_word(w),
{
    assert(is_token(p_word()));
}

/// Applying the character transform to its own output changes nothing: no
/// lowercase `s` is left to replace, and the tokens and their spacing are
/// already in normal form.
pub proof fn lemma_char_transform_idempotent(s: Seq<char>)
    ensures
        char_transform(char_transform(s)) == char_transform(s),
{
    let ts = words(s).map_values(|w: Seq<char>| replace_s_chars(w));
    lemma_words_are_tokens(s);
    assert forall|i: int| 0 <= i < ts.len() implies is_token(#[trigger] ts[i]) by {
        lemma_replace_s_chars(words(s)[i]);
    }
    lemma_words_of_join(ts);
    let again = ts.map_values(|w: Seq<char>| replace_s_chars(w));
    assert forall|i: int| 0 <= i < ts.len() implies #[trigger] again[i] == ts[i] by {
        lemma_replace_s_chars(words(s)[i]);
        lemma_replace_s_chars(ts[i]);
    }
    assert(again == ts);
}

/// Applying the prefix transform to its own output changes nothing: the
/// replacement word does not start with `p`, and the tokens and their
/// spacing are already in normal form.
pub proof fn lemma_prefix_transform_idempotent(s: Seq<char>)
    ensures
        prefix_transform(prefix_transform(s)) == prefix_transform(s),
{
    let ts = words(s).map_values(|w: Seq<char>| replace_p_word(w));
    lemma_words_are_tokens(s);
    assert forall|i: int| 0 <= i < ts.len() implies is_token(#[trigger] ts[i]) by {
        lemma_replace_p_word(words(s)[i]);
    }
    lemma_words_of_join(ts);
    let again = ts.map_values(|w: Seq<char>| replace_p_word(w));
    assert forall|i: int| 0 <= i < ts.len() implies #[trigger] again[i] == ts[i] by {
        lemma_replace_p_word(words(s)[i]);
    }
    assert(again == ts);
}

/// Every selector resolves to one of the two transforms: `Args::P` to the
/// prefix transform and `Args::S` to the character transform.
pub proof fn lemma_resolve_total(arg: Args, s: Seq<char>)
    ensures
        arg == Args::P ==> transform(arg, s) == prefix_transform(s),
        arg == Args::S ==> transform(arg, s) == char_transform(s),
        transform(arg, s) == prefix_transform(s) || transform(arg, s) == char_transform(s),
{
}

} // verus!
