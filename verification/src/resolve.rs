//! Resolution of a sequence of name tokens to one leaf command of the tree.

use crate::tree::{views_of, Config, Entry, EntryView};
use vstd::prelude::*;

verus! {

/// What a resolution ends in, as a mathematical value.
pub enum Resolution {
    /// A leaf was reached; `leftover` tokens behind the one that named it
    /// were not looked at.
    Leaf { command: Seq<char>, leftover: nat },
    /// The level that was searched has no entry of that name; `available`
    /// are the names it has.
    NameNotFound { name: Seq<char>, available: Set<Seq<char>> },
    /// The last name selected a branch, and no token is left to select one
    /// of the branch's entries, which are `available`.
    MissingSelector { branch: Seq<char>, available: Set<Seq<char>> },
}

/// The descent: `name` is looked up in `tree`; a leaf ends the descent, a
/// branch is entered with the first of the tokens in `rest`.
pub open spec fn descend(
    tree: Map<Seq<char>, EntryView>,
    name: Seq<char>,
    rest: Seq<Seq<char>>,
) -> Resolution
    decreases rest.len(),
{
    if !tree.contains_key(name) {
        Resolution::NameNotFound { name, available: tree.dom() }
    } else {
        match tree[name] {
            EntryView::Command(command) => Resolution::Leaf { command, leftover: rest.len() },
            EntryView::SubTree(branch) => if rest.len() == 0 {
                Resolution::MissingSelector { branch: name, available: branch.dom() }
            } else {
                descend(branch, rest.first(), rest.drop_first())
            },
        }
    }
}

/// The resolution of `tokens` against `tree`. Without any token the name
/// `sentinel` is looked up at the top level, and only there.
pub open spec fn resolution(
    tree: Map<Seq<char>, EntryView>,
    tokens: Seq<Seq<char>>,
    sentinel: Seq<char>,
) -> Resolution {
    if tokens.len() == 0 {
        descend(tree, sentinel, Seq::empty())
    } else {
        descend(tree, tokens.first(), tokens.drop_first())
    }
}

/// A leaf command that a resolution reached.
#[derive(Debug)]
pub struct Resolved<'a> {
    /// The command of the leaf.
    pub command: &'a str,
    /// How many tokens stand behind the one that named the leaf. They took
    /// no part in the resolution.
    pub leftover: usize,
}

/// Why a resolution reached no leaf.
#[derive(Debug)]
pub enum ResolveError {
    /// A level has no entry called `name`. `available` holds the names of
    /// that level, each once.
    NameNotFound { name: String, available: Vec<String> },
    /// The entry called `branch` is a branch and no token is left to select
    /// among its entries, whose names are `available`, each once.
    MissingSelector { branch: String, available: Vec<String> },
}

impl ResolveError {
    /// The names that the error lists, as mathematical values.
    pub open spec fn available(self) -> Seq<Seq<char>> {
        match self {
            ResolveError::NameNotFound { name, available } => views_of(available@),
            ResolveError::MissingSelector { branch, available } => views_of(available@),
        }
    }
}

/// The mathematical value of what `resolve` returns.
pub open spec fn outcome(result: Result<Resolved<'_>, ResolveError>) -> Resolution {
    match result {
        Ok(resolved) => Resolution::Leaf {
            command: resolved.command@,
            leftover: resolved.leftover as nat,
        },
        Err(ResolveError::NameNotFound { name, available }) => Resolution::NameNotFound {
            name: name@,
            available: views_of(available@).to_set(),
        },
        Err(ResolveError::MissingSelector { branch, available }) => Resolution::MissingSelector {
            branch: branch@,
            available: views_of(available@).to_set(),
        },
    }
}

/// Looks `name` up in `level` and goes on with the tokens from `next` on.
fn descend_from<'a>(level: &'a Config, name: &str, tokens: &Vec<String>, next: usize) -> (result:
    Result<Resolved<'a>, ResolveError>)
    requires
        next <= tokens@.len(),
    ensures
        outcome(result) == descend(level@, name@, views_of(tokens@).skip(next as int)),
        result matches Err(error) ==> error.available().no_duplicates(),
    decreases tokens@.len() - next,
{
    let ghost rest = views_of(tokens@).skip(next as int);
    match level.get(name) {
        None => Err(ResolveError::NameNotFound { name: name.to_owned(), available: level.names() }),
        Some(Entry::Command(command)) => Ok(
            Resolved { command: command.as_str(), leftover: tokens.len() - next },
        ),
        Some(Entry::Config(branch)) => {
            if next == tokens.len() {
                Err(
                    ResolveError::MissingSelector {
                        branch: name.to_owned(),
                        available: branch.names(),
                    },
                )
            } else {
                proof {
                    assert(rest.first() == tokens@[next as int]@);
                    assert(rest.drop_first() =~= views_of(tokens@).skip(next + 1));
                }
                descend_from(branch, tokens[next].as_str(), tokens, next + 1)
            }
        },
    }
}

/// Resolves `tokens` against `tree`: one token per level, until a leaf is
/// reached. Without any token, `sentinel` is the name looked up at the top
/// level. Tokens behind the one that names the leaf are left alone.
pub fn resolve<'a>(tree: &'a Config, tokens: &Vec<String>, sentinel: &str) -> (result: Result<
    Resolved<'a>,
    ResolveError,
>)
    ensures
        outcome(result) == resolution(tree@, views_of(tokens@), sentinel@),
        result matches Err(error) ==> error.available().no_duplicates(),
{
    if tokens.len() == 0 {
        assert(views_of(tokens@).skip(0) =~= Seq::<Seq<char>>::empty());
        descend_from(tree, sentinel, tokens, 0)
    } else {
        assert(views_of(tokens@).skip(1) =~= views_of(tokens@).drop_first());
        descend_from(tree, tokens[0].as_str(), tokens, 1)
    }
}

/// The name that is looked up where no token is given.
pub const DEFAULT_ENTRY: &'static str = "index";

/// Resolves `args` against `cfg` with `DEFAULT_ENTRY` as the name for no
/// token, and gives the command of the leaf.
pub fn cfg_search<'a>(cfg: &'a Config, args: &Vec<String>) -> (result: Result<
    &'a str,
    ResolveError,
>)
    ensures
        match result {
            Ok(command) => resolution(cfg@, views_of(args@), DEFAULT_ENTRY@) matches Resolution::Leaf {
                command: leaf,
                leftover,
            } && leaf == command@,
            Err(error) => outcome(Err(error)) == resolution(cfg@, views_of(args@), DEFAULT_ENTRY@)
                && error.available().no_duplicates(),
        },
{
    match resolve(cfg, args, DEFAULT_ENTRY) {
        Ok(resolved) => Ok(resolved.command),
        Err(error) => Err(error),
    }
}

/// Resolving the same tokens against the same tree twice ends the same
/// way: in the same leaf command, with as many tokens left over, or in the
/// same failure, with the same names listed.
pub proof fn lemma_resolution_repeats(
    tree: Config,
    tokens: Seq<String>,
    sentinel: Seq<char>,
    first: Result<Resolved<'_>, ResolveError>,
    second: Result<Resolved<'_>, ResolveError>,
)
    requires
        outcome(first) == resolution(tree@, views_of(tokens), sentinel),
        outcome(second) == resolution(tree@, views_of(tokens), sentinel),
    ensures
        outcome(first) == outcome(second),
        first matches Ok(one) ==> second matches Ok(other) && one.command@ == other.command@,
{
}

/// Tokens behind the one that names a leaf take no part: with more tokens
/// put behind a sequence that resolves to a leaf, the resolution reaches
/// the same leaf, and those tokens are left over too.
pub proof fn lemma_leftover_tokens_ignored(
    tree: Map<Seq<char>, EntryView>,
    tokens: Seq<Seq<char>>,
    more: Seq<Seq<char>>,
    sentinel: Seq<char>,
)
    requires
        tokens.len() > 0,
        resolution(tree, tokens, sentinel) is Leaf,
    ensures
        resolution(tree, tokens + more, sentinel) == (Resolution::Leaf {
            command: resolution(tree, tokens, sentinel)->command,
            leftover: resolution(tree, tokens, sentinel)->leftover + more.len(),
        }),
{
    assert((tokens + more).first() == tokens.first());
    assert((tokens + more).drop_first() =~= tokens.drop_first() + more);
    lemma_descend_ignores_leftover(tree, tokens.first(), tokens.drop_first(), more);
}

/// The same of a descent: tokens put behind those of a descent that ends
/// in a leaf are left over.
proof fn lemma_descend_ignores_leftover(
    tree: Map<Seq<char>, EntryView>,
    name: Seq<char>,
    rest: Seq<Seq<char>>,
    more: Seq<Seq<char>>,
)
    requires
        descend(tree, name, rest) is Leaf,
    ensures
        descend(tree, name, rest + more) == (Resolution::Leaf {
            command: descend(tree, name, rest)->command,
            leftover: descend(tree, name, rest)->leftover + more.len(),
        }),
    decreases rest.len(),
{
    match tree[name] {
        EntryView::Command(command) => {},
        EntryView::SubTree(branch) => {
            assert((rest + more).first() == rest.first());
            assert((rest + more).drop_first() =~= rest.drop_first() + more);
            lemma_descend_ignores_leftover(branch, rest.first(), rest.drop_first(), more);
        },
    }
}

} // verus!
