//! The whole pass: from what was read to the arguments of the next boot.

use vstd::prelude::*;
use crate::args::{without_spec, Tokens};
use crate::booted::{booted_args, booted_spec};
use crate::error::KargsError;
use crate::reconcile::{lemma_reconcile_empty_remote, reconcile, reconcile_spec};
use crate::source::{collect_args, collect_spec, Fetched, FetchedView};

verus! {

/// The arguments of the next boot, from the options string of the booted
/// entry, the local fragments and the fragments of the new image. The local
/// source is gone through first; the first failure in that order is the
/// result.
pub open spec fn get_kargs_spec(
    options: Option<Seq<char>>,
    local: Seq<FetchedView>,
    remote: Seq<FetchedView>,
    target: Seq<char>,
) -> Result<Tokens, KargsError> {
    match collect_spec(local, target) {
        Err(error) => Err(error),
        Ok(local_args) => match collect_spec(remote, target) {
            Err(error) => Err(error),
            Ok(remote_args) => Ok(reconcile_spec(booted_spec(options), local_args, remote_args)),
        },
    }
}

/// An image that ships no fragment directory has a source without entries:
/// its list is empty, and the pass removes from the booted arguments every
/// token that the local fragments ask for, and adds nothing.
pub proof fn lemma_get_kargs_without_remote(
    options: Option<Seq<char>>,
    local: Seq<FetchedView>,
    target: Seq<char>,
)
    ensures
        get_kargs_spec(options, local, Seq::empty(), target) == match collect_spec(local, target) {
            Err(error) => Err::<Tokens, KargsError>(error),
            Ok(local_args) => Ok(without_spec(booted_spec(options), local_args)),
        },
{
    match collect_spec(local, target) {
        Err(_) => {},
        Ok(local_args) => {
            lemma_reconcile_empty_remote(booted_spec(options), local_args);
        },
    }
}

/// Derives the arguments of the next boot.
///
/// `options` is the options string of the booted entry, `None` where the
/// entry or its options are absent. `local` and `remote` hold what was read
/// of the local fragments and of the fragments in the new image; an image
/// without a fragment directory has no entries. `arch` is the architecture
/// that fragments are matched against.
///
/// Any failure fails the whole pass, with the error of the first failing
/// entry, local entries before remote ones.
pub fn get_kargs(
    options: Option<&str>,
    local: &Vec<Fetched>,
    remote: &Vec<Fetched>,
    arch: &str,
) -> (next: Result<Vec<String>, KargsError>)
    ensures
        match next {
            Ok(args) => get_kargs_spec(
                match options {
                    Some(text) => Some(text@),
                    None => None,
                },
                local.deep_view(),
                remote.deep_view(),
                arch@,
            ) == Ok::<Tokens, KargsError>(args.deep_view()),
            Err(e) => get_kargs_spec(
                match options {
                    Some(text) => Some(text@),
                    None => None,
                },
                local.deep_view(),
                remote.deep_view(),
                arch@,
            ) == Err::<Tokens, KargsError>(e),
        },
{
    let booted = booted_args(options);
    let local_args = match collect_args(local, arch) {
        Err(error) => {
            return Err(error);
        },
        Ok(args) => args,
    };
    let remote_args = match collect_args(remote, arch) {
        Err(error) => {
            return Err(error);
        },
        Ok(args) => args,
    };
    Ok(reconcile(&booted, &local_args, &remote_args))
}

} // verus!
