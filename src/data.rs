//! Loaded text together with its word count.
use vstd::prelude::*;
use crate::text::{char_is_whitespace, is_white_space, words};

verus! {

/// The number of tokens of `s`.
pub open spec fn word_count(s: Seq<char>) -> nat {
    words(s).len()
}

/// Text paired with the number of its tokens, counted once at construction.
pub struct Data {
    data: String,
    word_count: usize,
}

impl View for Data {
    type V = Seq<char>;

    closed spec fn view(&self) -> Seq<char> {
        self.data@
    }
}

impl Data {
    #[verifier::type_invariant]
    spec fn counted(&self) -> bool {
        self.word_count == word_count(self.data@)
    }

    /// Wraps `data`, counting its tokens: runs of whitespace separate them
    /// and whitespace at either end starts none.
    pub fn new(data: String) -> (r: Self)
        ensures
            r@ == data@,
    {
        let n = data.as_str().unicode_len();
        let mut count: usize = 0;
        let mut in_word = false;
        let ghost mut seen: Seq<char> = seq![];
        for c in it: data.as_str().chars()
            invariant
                it.seq() == data@,
                n == data@.len(),
                seen == data@.take(it.index() as int),
                count == words(seen).len(),
                count <= it.index(),
                in_word == (seen.len() > 0 && !is_white_space(seen.last())),
        {
            proof {
                let next = data@.take(it.index() + 1);
                assert(next.drop_last() == seen);
                assert(next.last() == c);
                seen = next;
            }
            if char_is_whitespace(c) {
                in_word = false;
            } else {
                if !in_word {
                    count = count + 1;
                }
                in_word = true;
            }
        }
        proof {
            assert(seen == data@);
        }
        Self { data, word_count: count }
    }

    /// The number of tokens of the text, as a `u32`.
    pub fn get_word_count(&self) -> (r: u32)
        ensures
            r == word_count(self@) as u32,
    {
        proof {
            use_type_invariant(self);
        }
        self.word_count as u32
    }

    /// The text itself.
    pub fn get_data(&self) -> (r: &String)
        ensures
            r@ == self@,
    {
        &self.data
    }
}

} // verus!
