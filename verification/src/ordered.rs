//! Sets of names that remember the order in which the names came, kept in
//! `indexmap::IndexSet`.

use vstd::prelude::*;

verus! {

/// `indexmap::IndexSet`, opaque to the proofs: what it holds is named by
/// [`set_items`].
#[verifier::external_type_specification]
#[verifier::external_body]
#[verifier::reject_recursive_types(T)]
#[verifier::reject_recursive_types(S)]
pub struct ExIndexSet<T, S>(indexmap::IndexSet<T, S>);

/// The names that a set holds, in the order of their indices.
pub uninterp spec fn set_items(set: indexmap::IndexSet<String>) -> Seq<Seq<char>>;

/// `IndexSet::new`: a set that holds nothing.
#[verifier::external_body]
pub(crate) fn set_new() -> (set: indexmap::IndexSet<String>)
    ensures
        set_items(set) == Seq::<Seq<char>>::empty(),
{
    indexmap::IndexSet::new()
}

/// `IndexSet::insert_full`: where the set holds the name already, nothing
/// changes and the result is the name's index and `false`; otherwise the
/// name is put at the end and the result is its index there and `true`.
#[verifier::external_body]
pub(crate) fn set_insert_full(set: &mut indexmap::IndexSet<String>, name: String) -> (r: (
    usize,
    bool,
))
    ensures
        r.1 == !set_items(*old(set)).contains(name@),
        r.1 ==> set_items(*final(set)) == set_items(*old(set)).push(name@) && r.0 == set_items(
            *old(set),
        ).len(),
        !r.1 ==> set_items(*final(set)) == set_items(*old(set)) && r.0 < set_items(*old(set)).len()
            && set_items(*old(set))[r.0 as int] == name@,
{
    set.insert_full(name)
}

/// `IndexSet::contains`: whether the set holds the name.
#[verifier::external_body]
pub(crate) fn set_contains(set: &indexmap::IndexSet<String>, name: &str) -> (r: bool)
    ensures
        r == set_items(*set).contains(name@),
{
    set.contains(name)
}

/// `IndexSet::get_index_of`: the index at which the set holds the name.
#[verifier::external_body]
pub(crate) fn set_index_of(set: &indexmap::IndexSet<String>, name: &str) -> (r: Option<usize>)
    ensures
        match r {
            Some(i) => i < set_items(*set).len() && set_items(*set)[i as int] == name@,
            None => !set_items(*set).contains(name@),
        },
{
    set.get_index_of(name)
}

/// `IndexSet::swap_remove`: where the set holds the name, the last name
/// takes its place and the set is one shorter; the result says whether the
/// set held the name.
#[verifier::external_body]
pub(crate) fn set_swap_remove(set: &mut indexmap::IndexSet<String>, name: &str) -> (r: bool)
    ensures
        r == set_items(*old(set)).contains(name@),
        !r ==> set_items(*final(set)) == set_items(*old(set)),
        r ==> exists|i: int|
            0 <= i < set_items(*old(set)).len() && #[trigger] set_items(*old(set))[i] == name@
                && set_items(*final(set)) == set_items(*old(set)).update(
                i,
                set_items(*old(set)).last(),
            ).drop_last(),
{
    set.swap_remove(name)
}

/// `IndexSet::get_index`: the name that the set holds at `index`, copied;
/// nothing where the index is beyond the set.
#[verifier::external_body]
pub(crate) fn set_get(set: &indexmap::IndexSet<String>, index: usize) -> (r: Option<String>)
    ensures
        match r {
            Some(name) => index < set_items(*set).len() && set_items(*set)[index as int] == name@,
            None => index >= set_items(*set).len(),
        },
{
    set.get_index(index).cloned()
}

} // verus!
