//! Fragment sources: what was read from the local directories or from the
//! tree of the new image, one entry for each fragment and in the order in
//! which the source lists them.

use vstd::prelude::*;
use vstd::utf8::{decode_utf8, valid_utf8};
use crate::args::{extend, Tokens};
use crate::error::KargsError;
use crate::fragment::{parse_file, parse_file_spec};

verus! {

/// `core::str::Utf8Error`, the reason bytes are not UTF-8 text.
#[verifier::external_type_specification]
#[verifier::external_body]
pub struct ExUtf8Error(core::str::Utf8Error);

/// What reading one fragment gave.
#[derive(Clone, Debug)]
pub enum Fetched {
    /// The text of the fragment.
    Text(String),
    /// The content of the fragment, not yet decoded.
    Bytes(Vec<u8>),
    /// The fragment, or the listing at this place, could not be read.
    Failed(KargsError),
}

/// The model of a [`Fetched`].
pub enum FetchedView {
    Text(Seq<char>),
    Bytes(Seq<u8>),
    Failed(KargsError),
}

impl DeepView for Fetched {
    type V = FetchedView;

    open spec fn deep_view(&self) -> FetchedView {
        match self {
            Fetched::Text(text) => FetchedView::Text(text@),
            Fetched::Bytes(bytes) => FetchedView::Bytes(bytes@),
            Fetched::Failed(error) => FetchedView::Failed(*error),
        }
    }
}

/// The text of an entry: bytes are decoded as UTF-8, and fail with `Decode`
/// where they are not UTF-8; a failed read keeps its error.
pub open spec fn text_of(entry: FetchedView) -> Result<Seq<char>, KargsError> {
    match entry {
        FetchedView::Text(text) => Ok(text),
        FetchedView::Bytes(bytes) => if valid_utf8(bytes) {
            Ok(decode_utf8(bytes))
        } else {
            Err(KargsError::Decode)
        },
        FetchedView::Failed(error) => Err(error),
    }
}

/// What one entry contributes on the architecture `target`.
pub open spec fn entry_args_spec(entry: FetchedView, target: Seq<char>) -> Result<
    Tokens,
    KargsError,
> {
    match text_of(entry) {
        Ok(text) => parse_file_spec(text, target),
        Err(error) => Err(error),
    }
}

/// The argument list of a source: the contributions of its entries, one
/// after the other. Where an entry fails, the list fails with the error of
/// the first such entry.
pub open spec fn collect_spec(entries: Seq<FetchedView>, target: Seq<char>) -> Result<
    Tokens,
    KargsError,
>
    decreases entries.len(),
{
    if entries.len() == 0 {
        Ok(Seq::empty())
    } else {
        match collect_spec(entries.drop_last(), target) {
            Err(error) => Err(error),
            Ok(before) => match entry_args_spec(entries.last(), target) {
                Err(error) => Err(error),
                Ok(args) => Ok(before + args),
            },
        }
    }
}

/// Calls `core::str::from_utf8`. Trusted: it succeeds exactly on valid UTF-8,
/// and the text it gives is what the bytes decode to.
#[verifier::external_body]
pub(crate) fn utf8_text(bytes: &[u8]) -> (text: Result<&str, core::str::Utf8Error>)
    ensures
        text is Ok <==> valid_utf8(bytes@),
        text matches Ok(s) ==> s@ == decode_utf8(bytes@),
{
    core::str::from_utf8(bytes)
}

/// What one entry contributes on the architecture `arch`.
pub fn entry_args(entry: &Fetched, arch: &str) -> (parsed: Result<Vec<String>, KargsError>)
    ensures
        match parsed {
            Ok(args) => entry_args_spec(entry.deep_view(), arch@) == Ok::<Tokens, KargsError>(
                args.deep_view(),
            ),
            Err(e) => entry_args_spec(entry.deep_view(), arch@) == Err::<Tokens, KargsError>(e),
        },
{
    match entry {
        Fetched::Text(text) => parse_file(text.clone(), arch),
        Fetched::Bytes(bytes) => match utf8_text(bytes.as_slice()) {
            Ok(text) => parse_file(text.to_owned(), arch),
            Err(_) => Err(KargsError::Decode),
        },
        Fetched::Failed(error) => Err(*error),
    }
}

/// The argument list of a source on the architecture `arch`: what its
/// entries contribute, in their order and without deduplication.
///
/// Fails with the error of the first entry that fails; no partial list is
/// returned.
pub fn collect_args(entries: &Vec<Fetched>, arch: &str) -> (collected: Result<
    Vec<String>,
    KargsError,
>)
    ensures
        match collected {
            Ok(args) => collect_spec(entries.deep_view(), arch@) == Ok::<Tokens, KargsError>(
                args.deep_view(),
            ),
            Err(e) => collect_spec(entries.deep_view(), arch@) == Err::<Tokens, KargsError>(e),
        },
{
    let mut args: Vec<String> = Vec::new();
    let mut i: usize = 0;
    assert(args.deep_view() =~= Seq::<Seq<char>>::empty());
    while i < entries.len()
        invariant
            i <= entries.len(),
            collect_spec(entries.deep_view().take(i as int), arch@) == Ok::<Tokens, KargsError>(
                args.deep_view(),
            ),
        decreases entries.len() - i,
    {
        proof {
            let next = entries.deep_view().take(i + 1);
            assert(next.drop_last() =~= entries.deep_view().take(i as int));
            lemma_collect_fails_on(entries.deep_view(), i + 1, arch@);
        }
        match entry_args(&entries[i], arch) {
            Err(error) => {
                return Err(error);
            },
            Ok(more) => {
                extend(&mut args, &more);
            },
        }
        i += 1;
    }
    assert(entries.deep_view().take(entries.len() as int) =~= entries.deep_view());
    Ok(args)
}

/// A source fails with the error of its first failing entry: where a prefix
/// of the entries fails, the whole list fails alike.
pub proof fn lemma_collect_fails_on(entries: Seq<FetchedView>, upto: int, target: Seq<char>)
    requires
        0 <= upto <= entries.len(),
    ensures
        collect_spec(entries.take(upto), target) matches Err(error) ==> collect_spec(
            entries,
            target,
        ) == Err::<Tokens, KargsError>(error),
    decreases entries.len(),
{
    if upto < entries.len() {
        assert(entries.drop_last().take(upto) =~= entries.take(upto));
        lemma_collect_fails_on(entries.drop_last(), upto, target);
    } else {
        assert(entries.take(upto) =~= entries);
    }
}

/// A source without entries gives the empty list.
pub proof fn lemma_collect_nothing(target: Seq<char>)
    ensures
        collect_spec(Seq::empty(), target) == Ok::<Tokens, KargsError>(Seq::empty()),
{
}

} // verus!
