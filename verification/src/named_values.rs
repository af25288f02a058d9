//! Trusted view of the bidirectional named-value mapping.
//!
//! Each instruction record stores its `(slot, raw value) <-> (slot, name)`
//! bindings in a `bimap::BiHashMap`. The map is opaque to the verifier, so its
//! contents are given a name, `nv_map`: the finite map from each left key
//! `(slot, raw value)` to the right value `(slot, name)` it is paired with.
//! The bimap keeps a bijection — no two pairs share a left value and no two
//! pairs share a right value — and the two lookup wrappers state their results
//! over `nv_map`, uniqueness included.

use vstd::prelude::*;

verus! {

#[verifier::external_type_specification]
#[verifier::external_body]
#[verifier::reject_recursive_types(L)]
#[verifier::reject_recursive_types(R)]
#[verifier::reject_recursive_types(LS)]
#[verifier::reject_recursive_types(RS)]
pub struct ExBiHashMap<L, R, LS, RS>(bimap::BiHashMap<L, R, LS, RS>);

/// The contents of a named-value bimap: the left key `(slot, raw value)` of
/// each pair, mapped to the pair's right value `(slot, name)`.
pub uninterp spec fn nv_map(m: bimap::BiHashMap<(u32, i32), (u32, String)>) -> Map<
    (u32, i32),
    (u32, Seq<char>),
>;

/// Relies on `BiHashMap::get_by_right`: returns the left value of the pair
/// whose right value equals the given key, or `None` when no pair has it.
/// The bimap holds a bijection, so at most one pair has that right value.
#[verifier::external_body]
pub(crate) fn nv_get_by_right(
    m: &bimap::BiHashMap<(u32, i32), (u32, String)>,
    key: &(u32, String),
) -> (r: Option<(u32, i32)>)
    ensures
        match r {
            Some(l) => nv_map(*m).dom().contains(l) && nv_map(*m)[l] == (key.0, key.1@)
                && (forall|l2: (u32, i32)|
                    nv_map(*m).dom().contains(l2) && #[trigger] nv_map(*m)[l2] == (key.0, key.1@)
                        ==> l2 == l),
            None => forall|l: (u32, i32)|
                nv_map(*m).dom().contains(l) ==> #[trigger] nv_map(*m)[l] != (key.0, key.1@),
        },
{
    m.get_by_right(key).copied()
}

/// Relies on `BiHashMap::get_by_left`: returns the name from the pair whose
/// left value equals the given key, or `None` when no pair has it.
#[verifier::external_body]
pub(crate) fn nv_get_by_left(
    m: &bimap::BiHashMap<(u32, i32), (u32, String)>,
    key: &(u32, i32),
) -> (r: Option<String>)
    ensures
        match r {
            Some(s) => nv_map(*m).dom().contains(*key) && s@ == nv_map(*m)[*key].1,
            None => !nv_map(*m).dom().contains(*key),
        },
{
    m.get_by_left(key).map(|p| p.1.clone())
}

} // verus!
