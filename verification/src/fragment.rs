//! Fragments: one file's worth of kernel arguments, with an optional
//! restriction to some architectures.

use vstd::prelude::*;
use crate::args::{extend, Tokens};
use crate::document::{
    document_of, parse_document, table_entries, table_get, value_as_array, value_as_str,
    value_item, value_items, Entries, Item,
};
use crate::error::KargsError;

verus! {

/// A parsed fragment.
#[derive(Clone, Debug)]
pub struct Fragment {
    /// The arguments that the fragment asks for, in its order.
    pub kargs: Vec<String>,
    /// The architectures that the fragment applies to; `None` where it applies
    /// to all.
    pub arch: Option<Vec<String>>,
}

/// The model of a fragment.
pub struct FragmentView {
    pub kargs: Tokens,
    pub arch: Option<Tokens>,
}

impl View for Fragment {
    type V = FragmentView;

    open spec fn view(&self) -> FragmentView {
        FragmentView {
            kargs: self.kargs.deep_view(),
            arch: match self.arch {
                Some(list) => Some(list.deep_view()),
                None => None,
            },
        }
    }
}

/// The strings of `item`, where it is a list that holds nothing but strings.
pub open spec fn string_list_of(item: Item) -> Option<Tokens> {
    match item {
        Item::List(items) => if forall|i: int| 0 <= i < items.len() ==> items[i] is Text {
            Some(Seq::new(items.len(), |i: int| items[i]->Text_0))
        } else {
            None
        },
        _ => None,
    }
}

/// The fragment that a table stands for: `kargs` is required and is a list of
/// strings, `arch` is optional and, where present, a list of strings. Other
/// keys are not looked at.
pub open spec fn fragment_of(entries: Entries) -> Option<FragmentView> {
    if !entries.contains_key("kargs"@) {
        None
    } else {
        match string_list_of(entries["kargs"@]) {
            None => None,
            Some(kargs) => if !entries.contains_key("arch"@) {
                Some(FragmentView { kargs, arch: None })
            } else {
                match string_list_of(entries["arch"@]) {
                    None => None,
                    Some(arch) => Some(FragmentView { kargs, arch: Some(arch) }),
                }
            },
        }
    }
}

/// The fragment that a text stands for, if it is a document of that shape.
pub open spec fn fragment_in(text: Seq<char>) -> Option<FragmentView> {
    match document_of(text) {
        None => None,
        Some(entries) => fragment_of(entries),
    }
}

/// `tokens`, `times` times over.
pub open spec fn repeated(tokens: Tokens, times: nat) -> Tokens
    decreases times,
{
    if times == 0 {
        Seq::empty()
    } else {
        repeated(tokens, (times - 1) as nat) + tokens
    }
}

/// How many entries of `arch` equal `target`.
pub open spec fn match_count(arch: Tokens, target: Seq<char>) -> nat {
    arch.filter(|entry: Seq<char>| entry == target).len()
}

/// What a fragment contributes on the architecture `target`: all its
/// arguments where it names no architecture; otherwise its arguments once for
/// each listed architecture that equals `target`, so nothing where none does.
pub open spec fn gated_args(fragment: FragmentView, target: Seq<char>) -> Tokens {
    match fragment.arch {
        None => fragment.kargs,
        Some(arch) => repeated(fragment.kargs, match_count(arch, target)),
    }
}

/// What the text of a fragment contributes on the architecture `target`.
pub open spec fn parse_file_spec(text: Seq<char>, target: Seq<char>) -> Result<
    Tokens,
    KargsError,
> {
    match fragment_in(text) {
        Some(fragment) => Ok(gated_args(fragment, target)),
        None => Err(KargsError::FragmentParse),
    }
}

/// The strings of `value`, where it is an array that holds nothing but
/// strings.
fn string_list(value: &toml::Value) -> (list: Option<Vec<String>>)
    ensures
        match list {
            Some(strings) => string_list_of(value_item(*value)) == Some(strings.deep_view()),
            None => string_list_of(value_item(*value)) is None,
        },
{
    match value_as_array(value) {
        None => None,
        Some(elements) => {
            let ghost items = value_items(elements@);
            let mut strings: Vec<String> = Vec::new();
            let mut i: usize = 0;
            while i < elements.len()
                invariant
                    i <= elements.len(),
                    strings.len() == i,
                    items == value_items(elements@),
                    items.len() == elements.len(),
                    value_item(*value) == Item::List(items),
                    forall|j: int| 0 <= j < i ==> items[j] == Item::Text(#[trigger] strings[j]@),
                decreases elements.len() - i,
            {
                assert(items[i as int] == value_item(elements[i as int]));
                match value_as_str(&elements[i]) {
                    None => {
                        return None;
                    },
                    Some(text) => {
                        strings.push(text.to_owned());
                    },
                }
                i += 1;
            }
            assert forall|j: int| 0 <= j < items.len() implies items[j] is Text by {
                assert(items[j] == Item::Text(strings[j]@));
            }
            Some(strings)
        },
    }
}

impl Fragment {
    /// Reads a fragment from the top-level table of a document.
    ///
    /// Fails with `FragmentParse` exactly where the table does not have the
    /// shape of a fragment.
    pub fn from_table(table: &toml::map::Map<String, toml::Value>) -> (read: Result<
        Fragment,
        KargsError,
    >)
        ensures
            match read {
                Ok(fragment) => fragment_of(table_entries(*table)) == Some(fragment@),
                Err(e) => e == KargsError::FragmentParse && fragment_of(table_entries(*table))
                    is None,
            },
    {
        let kargs = match table_get(table, "kargs") {
            None => {
                return Err(KargsError::FragmentParse);
            },
            Some(value) => match string_list(value) {
                None => {
                    return Err(KargsError::FragmentParse);
                },
                Some(kargs) => kargs,
            },
        };
        match table_get(table, "arch") {
            None => Ok(Fragment { kargs, arch: None }),
            Some(value) => match string_list(value) {
                None => Err(KargsError::FragmentParse),
                Some(arch) => Ok(Fragment { kargs, arch: Some(arch) }),
            },
        }
    }

    /// Reads a fragment from its text.
    ///
    /// Fails with `FragmentParse` exactly where the text is not a TOML
    /// document or the document does not have the shape of a fragment.
    pub fn parse(text: &str) -> (read: Result<Fragment, KargsError>)
        ensures
            match read {
                Ok(fragment) => fragment_in(text@) == Some(fragment@),
                Err(e) => e == KargsError::FragmentParse && fragment_in(text@) is None,
            },
    {
        match parse_document(text) {
            Err(_) => Err(KargsError::FragmentParse),
            Ok(table) => Fragment::from_table(&table),
        }
    }

    /// The arguments that this fragment contributes on the architecture
    /// `target`. Architectures are compared by exact equality.
    pub fn args_for(&self, target: &str) -> (args: Vec<String>)
        ensures
            args.deep_view() == gated_args(self@, target@),
    {
        let mut args: Vec<String> = Vec::new();
        match &self.arch {
            None => {
                extend(&mut args, &self.kargs);
            },
            Some(arch) => {
                let wanted: String = target.to_owned();
                let mut i: usize = 0;
                proof {
                    reveal(Seq::filter);
                }
                while i < arch.len()
                    invariant
                        i <= arch.len(),
                        wanted@ == target@,
                        args.deep_view() == repeated(
                            self.kargs.deep_view(),
                            match_count(arch.deep_view().take(i as int), target@),
                        ),
                    decreases arch.len() - i,
                {
                    proof {
                        reveal(Seq::filter);
                        let next = arch.deep_view().take(i + 1);
                        assert(next.drop_last() =~= arch.deep_view().take(i as int));
                    }
                    if arch[i] == wanted {
                        extend(&mut args, &self.kargs);
                    }
                    i += 1;
                }
                assert(arch.deep_view().take(arch.len() as int) =~= arch.deep_view());
            },
        }
        args
    }
}

/// Reads the text of one fragment and gives the arguments that it
/// contributes on the architecture `arch`.
///
/// Fails with `FragmentParse` exactly where the text is not a fragment.
pub fn parse_file(file_content: String, arch: &str) -> (parsed: Result<Vec<String>, KargsError>)
    ensures
        match parsed {
            Ok(args) => parse_file_spec(file_content@, arch@) == Ok::<Tokens, KargsError>(
                args.deep_view(),
            ),
            Err(e) => parse_file_spec(file_content@, arch@) == Err::<Tokens, KargsError>(e),
        },
{
    match Fragment::parse(file_content.as_str()) {
        Err(e) => Err(e),
        Ok(fragment) => Ok(fragment.args_for(arch)),
    }
}

/// A fragment without an architecture list contributes its arguments on every
/// architecture.
pub proof fn lemma_unrestricted_fragment_applies(fragment: FragmentView, target: Seq<char>)
    requires
        fragment.arch is None,
    ensures
        gated_args(fragment, target) == fragment.kargs,
{
}

/// A fragment that lists one architecture contributes its arguments where
/// that architecture is the target, and nothing elsewhere.
pub proof fn lemma_single_arch_fragment(fragment: FragmentView, target: Seq<char>)
    requires
        fragment.arch matches Some(arch) && arch.len() == 1,
    ensures
        fragment.arch->0[0] == target ==> gated_args(fragment, target) == fragment.kargs,
        fragment.arch->0[0] != target ==> gated_args(fragment, target) == Seq::<
            Seq<char>,
        >::empty(),
{
    reveal_with_fuel(Seq::filter, 2);
    reveal_with_fuel(repeated, 2);
}

/// The number of matching entries is positive exactly where some entry
/// matches.
pub proof fn lemma_match_count_positive(arch: Tokens, target: Seq<char>)
    ensures
        match_count(arch, target) > 0 <==> arch.contains(target),
    decreases arch.len(),
{
    reveal(Seq::filter);
    if arch.len() > 0 {
        let rest = arch.drop_last();
        lemma_match_count_positive(rest, target);
        if arch.contains(target) && arch.last() != target {
            let i = choose|i: int| 0 <= i < arch.len() && arch[i] == target;
            assert(rest[i] == target);
        }
        if rest.contains(target) {
            let i = choose|i: int| 0 <= i < rest.len() && rest[i] == target;
            assert(arch[i] == target);
        }
        if arch.last() == target {
            assert(arch[arch.len() - 1] == target);
        }
    }
}

/// A fragment whose architecture list holds the target, beside whatever
/// else, contributes its arguments at least once: what it contributes ends
/// with them. One whose list does not hold the target contributes nothing.
pub proof fn lemma_listed_arch_decides(fragment: FragmentView, target: Seq<char>)
    requires
        fragment.arch is Some,
    ensures
        fragment.arch->0.contains(target) ==> match_count(fragment.arch->0, target) >= 1
            && gated_args(fragment, target) == repeated(
            fragment.kargs,
            (match_count(fragment.arch->0, target) - 1) as nat,
        ) + fragment.kargs,
        !fragment.arch->0.contains(target) ==> gated_args(fragment, target) == Seq::<
            Seq<char>,
        >::empty(),
{
    lemma_match_count_positive(fragment.arch->0, target);
}

} // verus!
