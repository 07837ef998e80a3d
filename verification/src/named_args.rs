//! The named arguments of a call: an insertion-ordered map from argument
//! names to expressions, kept in an `indexmap::IndexMap`.
//!
//! The map itself is not verified here. The functions `index_map_*` call it,
//! one function of the map each, and their contracts say what the map's
//! documentation says of that function; everything else in this crate is
//! proved from those contracts.

use vstd::prelude::*;
use indexmap::IndexMap;
use crate::ast::{entries_view, Expr};
use crate::view::ExprView;

verus! {

/// Named arguments, in the order in which they were written. No name occurs
/// twice. The verifier does not look inside: what such a value holds is
/// `named_args_entries` of it.
#[verifier::external_body]
#[derive(Debug, PartialEq)]
pub struct NamedArgs {
    entries: IndexMap<String, Expr>,
}

/// The entries that a map of named arguments holds, in its order: each name
/// with the model of its expression.
pub uninterp spec fn named_args_entries(args: NamedArgs) -> Seq<(Seq<char>, ExprView)>;

/// Whether no two entries carry the same name.
pub open spec fn distinct_names(entries: Seq<(Seq<char>, ExprView)>) -> bool {
    forall|i: int, j: int| 0 <= i < j < entries.len() ==> (#[trigger] entries[i]).0 != (#[trigger] entries[j]).0
}

/// Whether some entry carries `name`.
pub open spec fn has_name(entries: Seq<(Seq<char>, ExprView)>, name: Seq<char>) -> bool {
    exists|i: int| 0 <= i < entries.len() && (#[trigger] entries[i]).0 == name
}

/// The model of an entry that was looked up: its name and the model of its
/// expression, or nothing.
pub open spec fn entry_view(entry: Option<(&String, &Expr)>) -> Option<(Seq<char>, ExprView)> {
    match entry {
        Some(pair) => Some((pair.0@, pair.1@)),
        None => None,
    }
}

/// The entry at a position, or nothing where there is none.
pub open spec fn entry_at(
    entries: Seq<(Seq<char>, ExprView)>,
    index: int,
) -> Option<(Seq<char>, ExprView)> {
    if 0 <= index < entries.len() {
        Some(entries[index])
    } else {
        None
    }
}

/// Calls `IndexMap::new`. Taken on trust: the new map holds no entry.
#[verifier::external_body]
fn index_map_new() -> (args: NamedArgs)
    ensures
        named_args_entries(args) == Seq::<(Seq<char>, ExprView)>::empty(),
{
    NamedArgs { entries: IndexMap::new() }
}

/// Calls `IndexMap::insert`. Taken on trust: where the name is new, the
/// entry goes to the end and nothing is returned; where an entry has the
/// name, it keeps its place, takes the new expression, and the old expression
/// is returned.
#[verifier::external_body]
fn index_map_insert(args: &mut NamedArgs, name: String, value: Expr) -> (previous: Option<Expr>)
    ensures
        !has_name(named_args_entries(*old(args)), name@) ==> previous is None && named_args_entries(
            *final(args),
        ) == named_args_entries(*old(args)).push((name@, value@)),
        forall|i: int|
            0 <= i < named_args_entries(*old(args)).len() && (#[trigger] named_args_entries(
                *old(args),
            )[i]).0 == name@ ==> previous is Some && previous->0@ == named_args_entries(
                *old(args),
            )[i].1 && named_args_entries(*final(args)) == named_args_entries(*old(args)).update(
                i,
                (name@, value@),
            ),
{
    args.entries.insert(name, value)
}

/// Calls `IndexMap::into_iter` and gathers what it yields. Taken on trust:
/// the entries come out in the map's order, and no two of them carry the same
/// name.
#[verifier::external_body]
fn index_map_into_entries(args: NamedArgs) -> (entries: Vec<(String, Expr)>)
    ensures
        entries_view(entries@) == named_args_entries(args),
        distinct_names(entries_view(entries@)),
{
    args.entries.into_iter().collect()
}

/// Calls `IndexMap::len`. Taken on trust: it is the number of entries.
#[verifier::external_body]
fn index_map_len(args: &NamedArgs) -> (len: usize)
    ensures
        len == named_args_entries(*args).len(),
{
    args.entries.len()
}

/// Calls `IndexMap::get_index`. Taken on trust: it is the entry at that
/// position of the map's order, or nothing where the position is not below
/// the number of entries.
#[verifier::external_body]
fn index_map_get_index(args: &NamedArgs, index: usize) -> (entry: Option<(&String, &Expr)>)
    ensures
        entry_view(entry) == entry_at(named_args_entries(*args), index as int),
{
    args.entries.get_index(index)
}

impl NamedArgs {
    /// No named arguments.
    pub fn new() -> (args: NamedArgs)
        ensures
            named_args_entries(args) == Seq::<(Seq<char>, ExprView)>::empty(),
    {
        index_map_new()
    }

    /// Sets the argument `name` to `value`. A new name goes to the end; a name
    /// that is already there keeps its place, and its former expression is
    /// returned.
    pub fn insert(&mut self, name: String, value: Expr) -> (previous: Option<Expr>)
        ensures
            !has_name(named_args_entries(*old(self)), name@) ==> previous is None
                && named_args_entries(*final(self)) == named_args_entries(*old(self)).push(
                (name@, value@),
            ),
            forall|i: int|
                0 <= i < named_args_entries(*old(self)).len() && (#[trigger] named_args_entries(
                    *old(self),
                )[i]).0 == name@ ==> previous is Some && previous->0@ == named_args_entries(
                    *old(self),
                )[i].1 && named_args_entries(*final(self)) == named_args_entries(
                    *old(self),
                ).update(i, (name@, value@)),
    {
        index_map_insert(self, name, value)
    }

    /// The number of arguments.
    pub fn len(&self) -> (len: usize)
        ensures
            len == named_args_entries(*self).len(),
    {
        index_map_len(self)
    }

    /// The argument at a position, with its name, or nothing where the
    /// position is not below the number of arguments.
    pub fn get_index(&self, index: usize) -> (entry: Option<(&String, &Expr)>)
        ensures
            entry_view(entry) == entry_at(named_args_entries(*self), index as int),
    {
        index_map_get_index(self, index)
    }

    /// Takes the arguments apart, in their order.
    pub fn into_entries(self) -> (entries: Vec<(String, Expr)>)
        ensures
            entries_view(entries@) == named_args_entries(self),
            distinct_names(named_args_entries(self)),
    {
        index_map_into_entries(self)
    }
}

} // verus!
