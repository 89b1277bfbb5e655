//! The arguments that the machine is booted with.

use vstd::prelude::*;
use crate::args::Tokens;

verus! {

/// The tokens that `str::split_whitespace` finds in a text, in their order.
pub uninterp spec fn whitespace_split(text: Seq<char>) -> Seq<Seq<char>>;

/// Calls `str::split_whitespace` and copies each token. Trusted: the tokens
/// are those that `whitespace_split` names, in the same order.
#[verifier::external_body]
pub(crate) fn split_whitespace(text: &str) -> (tokens: Vec<String>)
    ensures
        tokens.deep_view() == whitespace_split(text@),
{
    let mut tokens: Vec<String> = Vec::new();
    for token in text.split_whitespace() {
        tokens.push(token.to_string());
    }
    tokens
}

/// The booted arguments that an options string stands for: its
/// whitespace-separated tokens, and none where there is no options string.
pub open spec fn booted_spec(options: Option<Seq<char>>) -> Tokens {
    match options {
        Some(text) => whitespace_split(text),
        None => Seq::empty(),
    }
}

/// The arguments of the booted system, from the options string of its boot
/// entry. A boot entry without options, or no boot entry at all, is `None`
/// and gives the empty list.
pub fn booted_args(options: Option<&str>) -> (args: Vec<String>)
    ensures
        args.deep_view() == booted_spec(
            match options {
                Some(text) => Some(text@),
                None => None,
            },
        ),
{
    match options {
        Some(text) => split_whitespace(text),
        None => Vec::new(),
    }
}

} // verus!
