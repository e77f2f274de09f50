//! Node names, interned through the `string-interner` crate.
use vstd::prelude::*;

use string_interner::StringInterner;

verus! {

/// The interner of node names. Verus does not take the interner's own type
/// in a signature, so it is held here.
#[verifier::external_body]
pub struct NameInterner {
    inner: StringInterner<usize>,
}

/// The names an interner holds, in the order they were first interned; the
/// symbol of a name is its position.
pub uninterp spec fn interned_names(i: NameInterner) -> Seq<Seq<char>>;

/// Relies on `StringInterner::new`: a new interner holds no name.
#[verifier::external_body]
pub(crate) fn interner_new() -> (r: NameInterner)
    ensures
        interned_names(r) == Seq::<Seq<char>>::empty(),
{
    NameInterner { inner: StringInterner::new() }
}

/// Relies on `StringInterner::get_or_intern`: a name already held keeps its
/// symbol; a new name is appended and its symbol is the number of names held
/// before (the bucket backend pushes it, and a `usize` symbol is the index).
#[verifier::external_body]
pub(crate) fn interner_get_or_intern(i: &mut NameInterner, s: &str) -> (r: usize)
    ensures
        (exists|j: int| 0 <= j < interned_names(*old(i)).len() && interned_names(*old(i))[j] == s@)
            ==> interned_names(*final(i)) == interned_names(*old(i)) && r < interned_names(
            *old(i),
        ).len() && interned_names(*old(i))[r as int] == s@,
        !(exists|j: int| 0 <= j < interned_names(*old(i)).len() && interned_names(*old(i))[j] == s@)
            ==> interned_names(*final(i)) == interned_names(*old(i)).push(s@) && r == interned_names(
            *old(i),
        ).len(),
{
    i.inner.get_or_intern(s)
}

/// Relies on `StringInterner::get`: the symbol of a name held, or `None`.
#[verifier::external_body]
pub(crate) fn interner_get(i: &NameInterner, s: &str) -> (r: Option<usize>)
    ensures
        r matches Some(j) ==> j < interned_names(*i).len() && interned_names(*i)[j as int] == s@,
        r is None ==> forall|j: int|
            0 <= j < interned_names(*i).len() ==> interned_names(*i)[j] != s@,
{
    i.inner.get(s)
}

/// Relies on `StringInterner::resolve`: the name at a symbol's position.
#[verifier::external_body]
pub(crate) fn interner_resolve(i: &NameInterner, sym: usize) -> (r: Option<&str>)
    ensures
        r matches Some(t) ==> sym < interned_names(*i).len() && t@ == interned_names(*i)[sym as int],
        r is None ==> sym >= interned_names(*i).len(),
{
    i.inner.resolve(sym)
}

} // verus!
