//! The three-way merge that derives the next boot's arguments.

use vstd::prelude::*;
use crate::args::{
    extend, lemma_concat_members, lemma_without_concat, lemma_without_everything, lemma_without_members,
    lemma_without_nothing, lemma_without_same_members, without, without_spec, Tokens,
};

verus! {

/// What the new image asks for and the local fragments did not: the tokens of
/// `remote` that do not occur in `local`, in `remote`'s order.
pub open spec fn added_spec(local: Tokens, remote: Tokens) -> Tokens {
    without_spec(remote, local)
}

/// What the local fragments asked for and the new image no longer does: the
/// tokens of `local` that do not occur in `remote`, in `local`'s order.
pub open spec fn removed_spec(local: Tokens, remote: Tokens) -> Tokens {
    without_spec(local, remote)
}

/// The arguments of the next boot: the booted arguments without the removed
/// tokens, followed by the added tokens.
pub open spec fn reconcile_spec(booted: Tokens, local: Tokens, remote: Tokens) -> Tokens {
    without_spec(booted, removed_spec(local, remote)) + added_spec(local, remote)
}

/// The tokens that the new image adds to what the local fragments applied.
pub fn added_kargs(local: &Vec<String>, remote: &Vec<String>) -> (added: Vec<String>)
    ensures
        added.deep_view() == added_spec(local.deep_view(), remote.deep_view()),
{
    without(remote, local)
}

/// The tokens that the local fragments applied and the new image drops.
pub fn removed_kargs(local: &Vec<String>, remote: &Vec<String>) -> (removed: Vec<String>)
    ensures
        removed.deep_view() == removed_spec(local.deep_view(), remote.deep_view()),
{
    without(local, remote)
}

/// Derives the arguments of the next boot from the booted arguments and the
/// difference between the local and the image-provided lists.
///
/// Booted tokens that are not removed keep their place and their order; added
/// tokens follow them, in the order of `remote`. Nothing is deduplicated: a
/// token that is both booted and added appears twice.
pub fn reconcile(booted: &Vec<String>, local: &Vec<String>, remote: &Vec<String>) -> (next: Vec<
    String,
>)
    ensures
        next.deep_view() == reconcile_spec(
            booted.deep_view(),
            local.deep_view(),
            remote.deep_view(),
        ),
{
    let added = added_kargs(local, remote);
    let removed = removed_kargs(local, remote);
    let mut next = without(booted, &removed);
    extend(&mut next, &added);
    next
}

/// Where the local and the image-provided lists are the same list, nothing is
/// added, nothing is removed, and the booted arguments come back unchanged.
pub proof fn lemma_reconcile_same_lists(booted: Tokens, list: Tokens)
    ensures
        added_spec(list, list) == Seq::<Seq<char>>::empty(),
        removed_spec(list, list) == Seq::<Seq<char>>::empty(),
        reconcile_spec(booted, list, list) == booted,
{
    assert forall|i: int| 0 <= i < list.len() implies list.contains(#[trigger] list[i]) by {}
    lemma_without_everything(list, list);
    let none = Seq::<Seq<char>>::empty();
    assert forall|i: int| 0 <= i < booted.len() implies !none.contains(#[trigger] booted[i]) by {}
    lemma_without_nothing(booted, none);
}

/// An image without fragments: where the image-provided list is empty,
/// nothing is added, every token of the local list counts as removed, and the
/// result is the booted list without the tokens that occur in the local list.
pub proof fn lemma_reconcile_empty_remote(booted: Tokens, local: Tokens)
    ensures
        added_spec(local, Seq::empty()) == Seq::<Seq<char>>::empty(),
        removed_spec(local, Seq::empty()) == local,
        reconcile_spec(booted, local, Seq::empty()) == without_spec(booted, local),
{
    let none = Seq::<Seq<char>>::empty();
    reveal(Seq::filter);
    assert forall|i: int| 0 <= i < local.len() implies !none.contains(#[trigger] local[i]) by {}
    lemma_without_nothing(local, none);
}

/// The difference between the two lists is all that changes the booted list.
/// Let `dropped` be tokens of the local list and `fresh` tokens that the local
/// list does not hold. Where the image-provided list holds exactly the local
/// tokens that are not dropped together with the fresh ones, in whatever
/// arrangement, and holds the fresh ones in the order of `fresh`, the result
/// is the booted list without the dropped tokens, followed by `fresh`.
pub proof fn lemma_reconcile_adds_and_removes(
    booted: Tokens,
    local: Tokens,
    remote: Tokens,
    dropped: Tokens,
    fresh: Tokens,
)
    requires
        forall|t: Seq<char>| dropped.contains(t) ==> local.contains(t),
        forall|t: Seq<char>| fresh.contains(t) ==> !local.contains(t),
        forall|t: Seq<char>|
            remote.contains(t) <==> (local.contains(t) && !dropped.contains(t)) || fresh.contains(
                t,
            ),
        without_spec(remote, local) == fresh,
    ensures
        added_spec(local, remote) == fresh,
        forall|t: Seq<char>| removed_spec(local, remote).contains(t) <==> dropped.contains(t),
        reconcile_spec(booted, local, remote) == without_spec(booted, dropped) + fresh,
{
    let removed = removed_spec(local, remote);
    assert forall|t: Seq<char>| removed.contains(t) <==> dropped.contains(t) by {
        lemma_without_members(local, remote, t);
    }
    lemma_without_same_members(booted, removed, dropped);
}

/// Removal and addition together. Let `dropped` be tokens of the local list
/// and `fresh` tokens that the local list does not hold. With the local
/// list without the dropped tokens, followed by the fresh ones, as the
/// image-provided list, the result is the booted list without the dropped
/// tokens, followed by `fresh` in its order. Nothing is deduplicated against
/// the booted list: a fresh token that is booted already stays where it is
/// and is appended once more.
pub proof fn lemma_reconcile_drops_then_adds(
    booted: Tokens,
    local: Tokens,
    dropped: Tokens,
    fresh: Tokens,
)
    requires
        forall|t: Seq<char>| dropped.contains(t) ==> local.contains(t),
        forall|t: Seq<char>| fresh.contains(t) ==> !local.contains(t),
    ensures
        added_spec(local, without_spec(local, dropped) + fresh) == fresh,
        reconcile_spec(booted, local, without_spec(local, dropped) + fresh) == without_spec(
            booted,
            dropped,
        ) + fresh,
{
    let stays = without_spec(local, dropped);
    let remote = stays + fresh;
    assert forall|t: Seq<char>|
        remote.contains(t) <==> (local.contains(t) && !dropped.contains(t)) || fresh.contains(
            t,
        ) by {
        lemma_without_members(local, dropped, t);
        lemma_concat_members(stays, fresh, t);
    }
    assert forall|i: int| 0 <= i < stays.len() implies local.contains(#[trigger] stays[i]) by {
        lemma_without_members(local, dropped, stays[i]);
    }
    lemma_without_everything(stays, local);
    assert forall|i: int| 0 <= i < fresh.len() implies !local.contains(#[trigger] fresh[i]) by {
        assert(fresh.contains(fresh[i]));
    }
    lemma_without_nothing(fresh, local);
    lemma_without_concat(stays, fresh, local);
    lemma_reconcile_adds_and_removes(booted, local, remote, dropped, fresh);
}

/// The result keeps the booted tokens that are not removed in their booted
/// order and places every added token behind them.
pub proof fn lemma_reconcile_shape(booted: Tokens, local: Tokens, remote: Tokens)
    ensures
        reconcile_spec(booted, local, remote).len() == without_spec(
            booted,
            removed_spec(local, remote),
        ).len() + added_spec(local, remote).len(),
        reconcile_spec(booted, local, remote).take(
            without_spec(booted, removed_spec(local, remote)).len() as int,
        ) == without_spec(booted, removed_spec(local, remote)),
        reconcile_spec(booted, local, remote).skip(
            without_spec(booted, removed_spec(local, remote)).len() as int,
        ) == added_spec(local, remote),
        forall|t: Seq<char>|
            reconcile_spec(booted, local, remote).contains(t) <==> (booted.contains(t) && !(
            local.contains(t) && !remote.contains(t))) || (remote.contains(t) && !local.contains(
                t,
            )),
{
    let kept = without_spec(booted, removed_spec(local, remote));
    let added = added_spec(local, remote);
    let next = reconcile_spec(booted, local, remote);
    assert forall|t: Seq<char>|
        next.contains(t) <==> (booted.contains(t) && !(local.contains(t) && !remote.contains(t)))
            || (remote.contains(t) && !local.contains(t)) by {
        lemma_without_members(booted, removed_spec(local, remote), t);
        lemma_without_members(local, remote, t);
        lemma_without_members(remote, local, t);
        lemma_concat_members(kept, added, t);
    }
    assert(next.take(kept.len() as int) =~= kept);
    assert(next.skip(kept.len() as int) =~= added);
}

} // verus!
