//! The side arena of a chunk: heap blocks in a `slab::Slab`, keyed by slot
//! indices that are reused once freed.
use vstd::prelude::*;
use slab::Slab;
use crate::vanilla::HeapBlock;

verus! {

/// Declares `slab::Slab` to the verifier as an opaque type; what a slab
/// holds is seen only through `arena_entries` and `arena_span`.
#[verifier::external_type_specification]
#[verifier::external_body]
#[verifier::reject_recursive_types(T)]
pub struct ExSlab<T>(Slab<T>);

/// The values an arena holds, by key.
pub uninterp spec fn arena_entries(s: Slab<HeapBlock>) -> Map<usize, HeapBlock>;

/// The number of entries, occupied or vacant, that a slab has laid out:
/// the length of its entry vector. Every key it hands out lies below it.
pub uninterp spec fn arena_span(s: Slab<HeapBlock>) -> nat;

/// Relies on `Slab::new`: a new slab holds no value and has laid out no
/// entry.
#[verifier::external_body]
pub(crate) fn arena_new() -> (r: Slab<HeapBlock>)
    ensures
        arena_entries(r).dom() == Set::<usize>::empty(),
        arena_span(r) == 0,
{
    Slab::new()
}

/// Relies on `Slab::insert`: the value is stored under a key that was
/// vacant. The key is the head of the slab's list of vacant entries, which
/// ends at the length of the entry vector; the vector grows by one entry,
/// the new key, only when that list is empty, that is when every entry laid
/// out is occupied.
#[verifier::external_body]
pub(crate) fn arena_insert(s: &mut Slab<HeapBlock>, v: HeapBlock) -> (k: usize)
    ensures
        !arena_entries(*old(s)).contains_key(k),
        arena_entries(*final(s)) == arena_entries(*old(s)).insert(k, v),
        (k as nat) < arena_span(*final(s)),
        arena_span(*final(s)) <= arena_span(*old(s)) + 1,
        arena_span(*final(s)) == arena_span(*old(s)) + 1 ==> arena_entries(*old(s)).len()
            == arena_span(*old(s)),
{
    s.insert(v)
}

/// Relies on `Slab::remove`: the value under `k` is taken out and its key
/// freed; the entry vector keeps its length. It panics on a vacant key,
/// which `requires` rules out.
#[verifier::external_body]
pub(crate) fn arena_remove(s: &mut Slab<HeapBlock>, k: usize) -> (v: HeapBlock)
    requires
        arena_entries(*old(s)).contains_key(k),
    ensures
        v == arena_entries(*old(s))[k],
        arena_entries(*final(s)) == arena_entries(*old(s)).remove(k),
        arena_span(*final(s)) == arena_span(*old(s)),
{
    s.remove(k)
}

/// Relies on `Slab::get`: the value under `k`, if `k` is occupied.
#[verifier::external_body]
pub(crate) fn arena_get(s: &Slab<HeapBlock>, k: usize) -> (r: Option<&HeapBlock>)
    ensures
        match r {
            Some(v) => arena_entries(*s).contains_key(k) && *v == arena_entries(*s)[k],
            None => !arena_entries(*s).contains_key(k),
        },
{
    s.get(k)
}

/// Relies on `Slab::len`: the number of values held.
#[verifier::external_body]
pub(crate) fn arena_len(s: &Slab<HeapBlock>) -> (r: usize)
    requires
        arena_entries(*s).dom().finite(),
    ensures
        r as nat == arena_entries(*s).len(),
{
    s.len()
}

} // verus!
