//! Well-formed schemas: everything is readable, every identifier names a
//! declaration, and no declaration contains itself.

use vstd::prelude::*;
use vstd::set_lib::lemma_len_subset;
use crate::schema::{FieldKindView, FieldView, NodeKindView, NodeView};

verus! {

/// Tells whether `field` of the declaration `owner` can be compared: it is of
/// a known kind, and a group names a declaration of lower rank.
pub open spec fn field_sound(
    snapshot: Map<u64, NodeView>,
    rank: spec_fn(u64) -> nat,
    owner: u64,
    field: FieldView,
) -> bool {
    match field.kind {
        FieldKindView::Unknown(_) => false,
        FieldKindView::Slot(slot) => slot.is_known(),
        FieldKindView::Group(group) => snapshot.contains_key(group.type_id) && rank(group.type_id)
            < rank(owner),
    }
}

/// Tells whether the declaration filed under `id` can be compared: it is of
/// a known kind, so are its fields, and every declaration that it names is
/// there and of lower rank.
pub open spec fn node_sound(snapshot: Map<u64, NodeView>, rank: spec_fn(u64) -> nat, id: u64) -> bool {
    let node = snapshot[id];
    &&& !(node.kind is Unknown)
    &&& forall|i: int|
        0 <= i < node.nested.len() ==> snapshot.contains_key(#[trigger] node.nested[i]) && rank(
            node.nested[i],
        ) < rank(id)
    &&& node.kind matches NodeKindView::Struct(body) ==> forall|i: int|
        0 <= i < body.fields.len() ==> field_sound(snapshot, rank, id, #[trigger] body.fields[i])
}

/// Tells whether the snapshot is well formed, with `rank` as the witness:
/// everything in it is of a known kind, every identifier in it names a
/// declaration in it, and no declaration contains itself, since the rank
/// falls from a declaration to each one that it names.
pub open spec fn well_formed(snapshot: Map<u64, NodeView>, rank: spec_fn(u64) -> nat) -> bool {
    forall|id: u64| snapshot.contains_key(id) ==> node_sound(snapshot, rank, id)
}

/// The number of declarations whose rank is below that of `id`.
pub open spec fn level(snapshot: Map<u64, NodeView>, rank: spec_fn(u64) -> nat, id: u64) -> nat {
    snapshot.dom().filter(|other: u64| rank(other) < rank(id)).len()
}

/// The level falls wherever the rank does, and stays below the number of
/// declarations.
pub proof fn lemma_level(
    snapshot: Map<u64, NodeView>,
    rank: spec_fn(u64) -> nat,
    upper: u64,
    lower: u64,
)
    requires
        snapshot.dom().finite(),
        snapshot.contains_key(lower),
        rank(lower) < rank(upper),
    ensures
        level(snapshot, rank, lower) < level(snapshot, rank, upper),
        level(snapshot, rank, lower) < snapshot.len(),
{
    let below_lower = snapshot.dom().filter(|other: u64| rank(other) < rank(lower));
    let below_upper = snapshot.dom().filter(|other: u64| rank(other) < rank(upper));
    snapshot.dom().lemma_len_filter(|other: u64| rank(other) < rank(upper));
    assert(below_upper.contains(lower));
    assert(below_lower.subset_of(below_upper.remove(lower)));
    lemma_len_subset(below_lower, below_upper.remove(lower));
}

/// A well-formed schema is well formed by level too: the rank can always be
/// taken below the number of declarations.
pub proof fn lemma_well_formed_by_level(snapshot: Map<u64, NodeView>, rank: spec_fn(u64) -> nat)
    requires
        snapshot.dom().finite(),
        well_formed(snapshot, rank),
    ensures
        well_formed(snapshot, |id: u64| level(snapshot, rank, id)),
        forall|id: u64| snapshot.contains_key(id) ==> level(snapshot, rank, id) < snapshot.len(),
{
    let by_level = |id: u64| level(snapshot, rank, id);
    assert forall|id: u64| snapshot.contains_key(id) implies node_sound(snapshot, by_level, id)
        && level(snapshot, rank, id) < snapshot.len() by {
        assert(node_sound(snapshot, rank, id));
        let node = snapshot[id];
        let below = snapshot.dom().filter(|other: u64| rank(other) < rank(id));
        snapshot.dom().lemma_len_filter(|other: u64| rank(other) < rank(id));
        assert(below.subset_of(snapshot.dom().remove(id)));
        lemma_len_subset(below, snapshot.dom().remove(id));
        assert forall|i: int| 0 <= i < node.nested.len() implies snapshot.contains_key(
            #[trigger] node.nested[i],
        ) && by_level(node.nested[i]) < by_level(id) by {
            lemma_level(snapshot, rank, id, node.nested[i]);
        }
        if let NodeKindView::Struct(body) = node.kind {
            assert forall|i: int| 0 <= i < body.fields.len() implies field_sound(
                snapshot,
                by_level,
                id,
                #[trigger] body.fields[i],
            ) by {
                assert(field_sound(snapshot, rank, id, body.fields[i]));
                if let FieldKindView::Group(group) = body.fields[i].kind {
                    lemma_level(snapshot, rank, id, group.type_id);
                }
            }
        }
    }
}

} // verus!
