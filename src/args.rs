//! The selector that chooses which transform runs.
use vstd::prelude::*;

verus! {

/// Which transform to run: `P` replaces the tokens that start with `p`, `S`
/// rewrites each `s` within the tokens.
#[derive(Clone, Copy, Debug, PartialEq, Eq, Structural)]
pub enum Args {
    P,
    S,
}

/// A token that names no selector.
#[derive(Clone, Copy, Debug, PartialEq, Eq, Structural)]
pub enum ArgsError {
    InvalidSelector,
}

/// The selector that `token` names: `p` names `Args::P`, `s` names `Args::S`,
/// and no other token names one.
pub open spec fn selector_of(token: Seq<char>) -> Option<Args> {
    if token == seq!['p'] {
        Some(Args::P)
    } else if token == seq!['s'] {
        Some(Args::S)
    } else {
        None
    }
}

impl Args {
    /// Reads a selector from an outside token; any token but `p` or `s` is
    /// refused with `ArgsError::InvalidSelector`.
    pub fn from_token(token: &str) -> (r: Result<Args, ArgsError>)
        ensures
            selector_of(token@) is Some ==> r == Ok::<Args, ArgsError>(
                selector_of(token@)->0,
            ),
            selector_of(token@) is None ==> r == Err::<Args, ArgsError>(
                ArgsError::InvalidSelector,
            ),
    {
        if token.unicode_len() == 1 {
            let c = token.get_char(0);
            assert(token@ == seq![c]);
            if c == 'p' {
                return Ok(Args::P);
            } else if c == 's' {
                return Ok(Args::S);
            }
        }
        Err(ArgsError::InvalidSelector)
    }
}

} // verus!
