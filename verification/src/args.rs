//! Argument lists: ordered sequences of kernel command-line tokens.
//!
//! An executable list is a `Vec<String>`; its model is the sequence of its
//! tokens, each a sequence of characters (`deep_view`). Tokens are compared by
//! exact equality of their characters.

use vstd::prelude::*;

verus! {

/// The model of an argument list.
pub type Tokens = Seq<Seq<char>>;

/// The tokens of `list` that do not occur in `excluded`, in their order.
pub open spec fn without_spec(list: Tokens, excluded: Tokens) -> Tokens {
    list.filter(|t: Seq<char>| !excluded.contains(t))
}

/// Extending a list by one token extends its filtered form by that token
/// exactly when the token is not excluded.
pub proof fn lemma_without_push(list: Tokens, token: Seq<char>, excluded: Tokens)
    ensures
        without_spec(list.push(token), excluded) == if excluded.contains(token) {
            without_spec(list, excluded)
        } else {
            without_spec(list, excluded).push(token)
        },
{
    reveal(Seq::filter);
    assert(list.push(token).drop_last() =~= list);
}

/// Where no token of the list is excluded, the list stays as it is.
pub proof fn lemma_without_nothing(list: Tokens, excluded: Tokens)
    requires
        forall|i: int| 0 <= i < list.len() ==> !excluded.contains(#[trigger] list[i]),
    ensures
        without_spec(list, excluded) == list,
    decreases list.len(),
{
    reveal(Seq::filter);
    if list.len() > 0 {
        let rest = list.drop_last();
        assert forall|i: int| 0 <= i < rest.len() implies !excluded.contains(
            #[trigger] rest[i],
        ) by {
            assert(rest[i] == list[i]);
        }
        lemma_without_nothing(rest, excluded);
    }
}

/// Where every token of the list is excluded, nothing stays.
pub proof fn lemma_without_everything(list: Tokens, excluded: Tokens)
    requires
        forall|i: int| 0 <= i < list.len() ==> excluded.contains(#[trigger] list[i]),
    ensures
        without_spec(list, excluded) == Seq::<Seq<char>>::empty(),
    decreases list.len(),
{
    reveal(Seq::filter);
    if list.len() > 0 {
        let rest = list.drop_last();
        assert forall|i: int| 0 <= i < rest.len() implies excluded.contains(
            #[trigger] rest[i],
        ) by {
            assert(rest[i] == list[i]);
        }
        lemma_without_everything(rest, excluded);
    }
}

/// Two exclusion lists with the same members exclude alike.
pub proof fn lemma_without_same_members(list: Tokens, first: Tokens, second: Tokens)
    requires
        forall|t: Seq<char>| first.contains(t) <==> second.contains(t),
    ensures
        without_spec(list, first) == without_spec(list, second),
    decreases list.len(),
{
    reveal(Seq::filter);
    if list.len() > 0 {
        lemma_without_same_members(list.drop_last(), first, second);
    }
}

/// A token is in the filtered list exactly when it is in the list and not
/// excluded.
pub proof fn lemma_without_members(list: Tokens, excluded: Tokens, token: Seq<char>)
    ensures
        without_spec(list, excluded).contains(token) <==> list.contains(token)
            && !excluded.contains(token),
    decreases list.len(),
{
    reveal(Seq::filter);
    if list.len() > 0 {
        let rest = list.drop_last();
        let kept = without_spec(rest, excluded);
        lemma_without_members(rest, excluded, token);
        if list.contains(token) {
            let i = choose|i: int| 0 <= i < list.len() && list[i] == token;
            if i < list.len() - 1 {
                assert(rest[i] == token);
            }
        }
        if kept.contains(token) {
            let j = choose|j: int| 0 <= j < kept.len() && kept[j] == token;
            assert(kept.push(list.last())[j] == token);
        }
    }
}

/// A token is in two lists put in a row exactly when it is in one of them.
pub proof fn lemma_concat_members(first: Tokens, second: Tokens, token: Seq<char>)
    ensures
        (first + second).contains(token) <==> first.contains(token) || second.contains(token),
{
    let both = first + second;
    if both.contains(token) {
        let i = choose|i: int| 0 <= i < both.len() && both[i] == token;
        if i < first.len() {
            assert(first[i] == token);
        } else {
            assert(second[i - first.len()] == token);
        }
    }
    if first.contains(token) {
        let i = choose|i: int| 0 <= i < first.len() && first[i] == token;
        assert(both[i] == token);
    }
    if second.contains(token) {
        let i = choose|i: int| 0 <= i < second.len() && second[i] == token;
        assert(both[first.len() + i] == token);
    }
}

/// Excluding from two lists in a row is excluding from each.
pub proof fn lemma_without_concat(first: Tokens, second: Tokens, excluded: Tokens)
    ensures
        without_spec(first + second, excluded) == without_spec(first, excluded) + without_spec(
            second,
            excluded,
        ),
    decreases second.len(),
{
    if second.len() == 0 {
        reveal(Seq::filter);
    } else {
        let rest = second.drop_last();
        let token = second.last();
        lemma_without_concat(first, rest, excluded);
        lemma_without_push(first + rest, token, excluded);
        lemma_without_push(rest, token, excluded);
    }
}

/// Whether `item` occurs in `list`.
pub fn contains(list: &Vec<String>, item: &String) -> (found: bool)
    ensures
        found == list.deep_view().contains(item@),
{
    let mut i: usize = 0;
    while i < list.len()
        invariant
            i <= list.len(),
            forall|j: int| 0 <= j < i ==> list.deep_view()[j] != item@,
        decreases list.len() - i,
    {
        if list[i] == *item {
            assert(list.deep_view()[i as int] == item@);
            return true;
        }
        i += 1;
    }
    false
}

/// Copies of the tokens of `list` that do not occur in `excluded`, in the
/// order in which `list` holds them. Repeated tokens are kept as they are.
pub fn without(list: &Vec<String>, excluded: &Vec<String>) -> (kept: Vec<String>)
    ensures
        kept.deep_view() == without_spec(list.deep_view(), excluded.deep_view()),
{
    let mut kept: Vec<String> = Vec::new();
    let mut i: usize = 0;
    proof {
        reveal(Seq::filter);
    }
    while i < list.len()
        invariant
            i <= list.len(),
            kept.deep_view() == without_spec(list.deep_view().take(i as int), excluded.deep_view()),
        decreases list.len() - i,
    {
        let token = &list[i];
        proof {
            let prefix = list.deep_view().take(i as int);
            lemma_without_push(prefix, token@, excluded.deep_view());
            assert(list.deep_view().take(i + 1) =~= prefix.push(token@));
        }
        if !contains(excluded, token) {
            kept.push(token.clone());
        }
        i += 1;
    }
    assert(list.deep_view().take(list.len() as int) =~= list.deep_view());
    kept
}

/// Appends copies of the tokens of `more` to `list`.
pub fn extend(list: &mut Vec<String>, more: &Vec<String>)
    ensures
        final(list).deep_view() == old(list).deep_view() + more.deep_view(),
{
    let mut i: usize = 0;
    while i < more.len()
        invariant
            i <= more.len(),
            list.deep_view() == old(list).deep_view() + more.deep_view().take(i as int),
        decreases more.len() - i,
    {
        let ghost before = list.deep_view();
        list.push(more[i].clone());
        assert(list.deep_view() =~= before.push(more[i as int]@));
        i += 1;
    }
}

} // verus!
