//! What holds of the comparison whatever the schema: a schema is compatible
//! with itself, a declaration that is gone is broken, what is only added
//! breaks nothing, and a well-formed schema is compared to the end within a
//! depth of as many declarations as it has. The facts about types and
//! defaults that the comparison rests on are stated here too.

use vstd::prelude::*;
use crate::code_order::{by_code_order, lemma_by_code_order, lemma_member};
use crate::is_broken::{
    body_outcome, field_outcome, fields_outcome, kind_verdict, nested_outcome, node_outcome,
    slot_outcome, struct_outcome, Outcome,
};
use crate::schema::{
    AnyPointerKind, FieldKindView, FieldView, NodeKindView, NodeView, SchemaError, SlotView,
    StructView, Type,
};
use crate::type_matrix::type_verdict;
use crate::well_formed::{field_sound, level, lemma_well_formed_by_level, node_sound, well_formed};

verus! {

/// A type compared with itself is not broken.
pub proof fn lemma_type_identity(ty: Type)
    ensures
        type_verdict(ty, ty) != Ok::<bool, SchemaError>(true),
        ty.is_known() ==> type_verdict(ty, ty) == Ok::<bool, SchemaError>(false),
    decreases ty,
{
    if let Type::List(element) = ty {
        lemma_type_identity(*element);
    }
}

/// A slot compared with itself is not broken: the same type and the same
/// default on both sides are compatible.
pub proof fn lemma_slot_identity(name: Seq<char>, slot: SlotView)
    ensures
        !(slot_outcome(name, slot, slot) is Broken),
        slot.is_known() ==> slot_outcome(name, slot, slot) == Outcome::Compatible,
{
    lemma_type_identity(slot.ty);
}

proof fn lemma_node_identity(
    snapshot: Map<u64, NodeView>,
    rank: spec_fn(u64) -> nat,
    id: u64,
    depth: nat,
)
    ensures
        !(node_outcome(snapshot, snapshot, id, depth) is Broken),
        well_formed(snapshot, rank) && snapshot.contains_key(id) && rank(id) < depth
            ==> node_outcome(snapshot, snapshot, id, depth) == Outcome::Compatible,
    decreases depth, 0nat, 0nat,
{
    if snapshot.contains_key(id) && depth > 0 {
        let node = snapshot[id];
        let below = (depth - 1) as nat;
        if let NodeKindView::Struct(body) = node.kind {
            let fields = by_code_order(body.fields);
            lemma_by_code_order(body.fields);
            lemma_fields_identity(snapshot, rank, id, fields, 0, below);
            assert(body_outcome(snapshot, node.kind, snapshot, node.kind, below) == struct_outcome(
                snapshot,
                body,
                snapshot,
                body,
                below,
            ));
            assert(struct_outcome(snapshot, body, snapshot, body, below) == fields_outcome(
                snapshot,
                fields,
                snapshot,
                fields,
                0,
                below,
            ));
            if well_formed(snapshot, rank) && rank(id) < depth {
                assert(node_sound(snapshot, rank, id));
                assert forall|i: int| 0 <= i < fields.len() implies field_sound(
                    snapshot,
                    rank,
                    id,
                    #[trigger] fields[i],
                ) by {
                    lemma_member(body.fields, fields, i);
                }
            }
        }
        lemma_nested_identity(snapshot, rank, id, node.nested, 0, below);
        if well_formed(snapshot, rank) && rank(id) < depth {
            assert(node_sound(snapshot, rank, id));
        }
    }
}

proof fn lemma_nested_identity(
    snapshot: Map<u64, NodeView>,
    rank: spec_fn(u64) -> nat,
    owner: u64,
    ids: Seq<u64>,
    from: nat,
    depth: nat,
)
    ensures
        !(nested_outcome(snapshot, snapshot, ids, from, depth) is Broken),
        well_formed(snapshot, rank) && rank(owner) <= depth && (forall|i: int|
            from <= i < ids.len() ==> snapshot.contains_key(#[trigger] ids[i]) && rank(ids[i])
                < rank(owner)) ==> nested_outcome(snapshot, snapshot, ids, from, depth)
            == Outcome::Compatible,
    decreases depth, 1nat, ids.len() - from,
{
    if from < ids.len() {
        lemma_node_identity(snapshot, rank, ids[from as int], depth);
        lemma_nested_identity(snapshot, rank, owner, ids, from + 1, depth);
    }
}

proof fn lemma_fields_identity(
    snapshot: Map<u64, NodeView>,
    rank: spec_fn(u64) -> nat,
    owner: u64,
    fields: Seq<FieldView>,
    from: nat,
    depth: nat,
)
    ensures
        !(fields_outcome(snapshot, fields, snapshot, fields, from, depth) is Broken),
        well_formed(snapshot, rank) && rank(owner) <= depth && (forall|i: int|
            from <= i < fields.len() ==> field_sound(snapshot, rank, owner, #[trigger] fields[i]))
            ==> fields_outcome(snapshot, fields, snapshot, fields, from, depth)
            == Outcome::Compatible,
    decreases depth, 2nat, fields.len() - from,
{
    if from < fields.len() {
        lemma_field_identity(snapshot, rank, owner, fields[from as int], depth);
        lemma_fields_identity(snapshot, rank, owner, fields, from + 1, depth);
    }
}

proof fn lemma_field_identity(
    snapshot: Map<u64, NodeView>,
    rank: spec_fn(u64) -> nat,
    owner: u64,
    field: FieldView,
    depth: nat,
)
    ensures
        !(field_outcome(snapshot, field, snapshot, field, depth) is Broken),
        well_formed(snapshot, rank) && rank(owner) <= depth && field_sound(
            snapshot,
            rank,
            owner,
            field,
        ) ==> field_outcome(snapshot, field, snapshot, field, depth) == Outcome::Compatible,
    decreases depth, 1nat, 0nat,
{
    match field.kind {
        FieldKindView::Group(group) => {
            lemma_node_identity(snapshot, rank, group.type_id, depth);
        },
        FieldKindView::Slot(slot) => {
            lemma_slot_identity(field.name, slot);
        },
        FieldKindView::Unknown(_) => {},
    }
}

/// Comparing a schema with itself finds nothing broken, whatever the schema
/// holds and however deep the comparison may go.
pub proof fn lemma_identity_never_broken(snapshot: Map<u64, NodeView>, id: u64, depth: nat)
    ensures
        node_outcome(snapshot, snapshot, id, depth).verdict() != Ok::<
            bool,
            SchemaError,
        >(true),
{
    lemma_node_identity(snapshot, |id: u64| 0nat, id, depth);
}

/// A declaration of a well-formed schema is compatible with itself, where the
/// comparison may go as deep as the declaration's rank asks.
pub proof fn lemma_identity(
    snapshot: Map<u64, NodeView>,
    rank: spec_fn(u64) -> nat,
    id: u64,
    depth: nat,
)
    requires
        well_formed(snapshot, rank),
        snapshot.contains_key(id),
        rank(id) < depth,
    ensures
        node_outcome(snapshot, snapshot, id, depth) == Outcome::Compatible,
{
    lemma_node_identity(snapshot, rank, id, depth);
}

/// A declaration that the changed schema no longer holds is broken, whatever
/// else differs, and is reported under its own name.
pub proof fn lemma_removal(
    base: Map<u64, NodeView>,
    changed: Map<u64, NodeView>,
    id: u64,
    depth: nat,
)
    requires
        base.contains_key(id),
        !changed.contains_key(id),
    ensures
        node_outcome(base, changed, id, depth) == Outcome::Broken(seq![base[id].display_name]),
{
}

/// Tells whether the changed declaration only adds to the base declaration:
/// it is of the same kind, and where both are structs, the fields of the
/// changed one, in code order, start with those of the base one. Of a base
/// declaration of unknown kind nothing is asked.
pub open spec fn only_adds_to(base: NodeKindView, changed: NodeKindView) -> bool {
    ||| base is Unknown
    ||| {
        &&& kind_verdict(base, changed) == Ok::<bool, SchemaError>(false)
        &&& base matches NodeKindView::Struct(b) ==> changed matches NodeKindView::Struct(c)
            ==> by_code_order(b.fields).is_prefix_of(by_code_order(c.fields))
    }
}

/// Tells whether the changed schema only adds to the base schema: it holds
/// every declaration of the base schema, and each of them only adds to its
/// base version. What the changed schema nests in a declaration, how it
/// names it, and what else it declares is free.
pub open spec fn extends(base: Map<u64, NodeView>, changed: Map<u64, NodeView>) -> bool {
    forall|id: u64| #[trigger]
        base.contains_key(id) ==> changed.contains_key(id) && only_adds_to(
            base[id].kind,
            changed[id].kind,
        )
}

proof fn lemma_node_extension(
    base: Map<u64, NodeView>,
    changed: Map<u64, NodeView>,
    id: u64,
    depth: nat,
)
    requires
        extends(base, changed),
    ensures
        node_outcome(base, changed, id, depth) == node_outcome(base, base, id, depth),
    decreases depth, 0nat, 0nat,
{
    if base.contains_key(id) && depth > 0 {
        let below = (depth - 1) as nat;
        let b = base[id].kind;
        let c = changed[id].kind;
        assert(only_adds_to(b, c));
        lemma_nested_extension(base, changed, base[id].nested, 0, below);
        if let NodeKindView::Struct(base_body) = b {
            if let NodeKindView::Struct(changed_body) = c {
                let base_fields = by_code_order(base_body.fields);
                let changed_fields = by_code_order(changed_body.fields);
                lemma_fields_extension(base, changed, base_fields, changed_fields, 0, below);
                assert(body_outcome(base, b, changed, c, below) == fields_outcome(
                    base,
                    base_fields,
                    changed,
                    changed_fields,
                    0,
                    below,
                )) by {
                    assert(body_outcome(base, b, changed, c, below) == struct_outcome(
                        base,
                        base_body,
                        changed,
                        changed_body,
                        below,
                    ));
                }
                assert(body_outcome(base, b, base, b, below) == fields_outcome(
                    base,
                    base_fields,
                    base,
                    base_fields,
                    0,
                    below,
                )) by {
                    assert(body_outcome(base, b, base, b, below) == struct_outcome(
                        base,
                        base_body,
                        base,
                        base_body,
                        below,
                    ));
                }
            }
        }
    }
}

proof fn lemma_nested_extension(
    base: Map<u64, NodeView>,
    changed: Map<u64, NodeView>,
    ids: Seq<u64>,
    from: nat,
    depth: nat,
)
    requires
        extends(base, changed),
    ensures
        nested_outcome(base, changed, ids, from, depth) == nested_outcome(
            base,
            base,
            ids,
            from,
            depth,
        ),
    decreases depth, 1nat, ids.len() - from,
{
    if from < ids.len() {
        lemma_node_extension(base, changed, ids[from as int], depth);
        lemma_nested_extension(base, changed, ids, from + 1, depth);
    }
}

proof fn lemma_fields_extension(
    base: Map<u64, NodeView>,
    changed: Map<u64, NodeView>,
    base_fields: Seq<FieldView>,
    changed_fields: Seq<FieldView>,
    from: nat,
    depth: nat,
)
    requires
        extends(base, changed),
        base_fields.is_prefix_of(changed_fields),
    ensures
        fields_outcome(base, base_fields, changed, changed_fields, from, depth) == fields_outcome(
            base,
            base_fields,
            base,
            base_fields,
            from,
            depth,
        ),
    decreases depth, 2nat, base_fields.len() - from,
{
    if from < base_fields.len() {
        let field = base_fields[from as int];
        assert(changed_fields[from as int] == field);
        if let FieldKindView::Group(group) = field.kind {
            lemma_node_extension(base, changed, group.type_id, depth);
        }
        assert(field_outcome(base, field, changed, field, depth) == field_outcome(
            base,
            field,
            base,
            field,
            depth,
        ));
        lemma_fields_extension(base, changed, base_fields, changed_fields, from + 1, depth);
    }
}

/// What is only added breaks nothing: where the changed schema only adds to
/// the base schema, every declaration compares as it does with itself, and
/// so is never found broken.
pub proof fn lemma_additions_never_break(
    base: Map<u64, NodeView>,
    changed: Map<u64, NodeView>,
    id: u64,
    depth: nat,
)
    requires
        extends(base, changed),
    ensures
        node_outcome(base, changed, id, depth) == node_outcome(base, base, id, depth),
        node_outcome(base, changed, id, depth).verdict() != Ok::<bool, SchemaError>(true),
{
    lemma_node_extension(base, changed, id, depth);
    lemma_identity_never_broken(base, id, depth);
}

/// A field whose code order is not below that of any other comes last in
/// code order.
pub proof fn lemma_trailing_field(fields: Seq<FieldView>, extra: FieldView)
    requires
        forall|i: int| 0 <= i < fields.len() ==> fields[i].code_order <= extra.code_order,
    ensures
        by_code_order(fields.push(extra)) == by_code_order(fields).push(extra),
{
    let sorted = by_code_order(fields);
    lemma_by_code_order(fields);
    assert(fields.push(extra).drop_last() =~= fields);
    if sorted.len() > 0 {
        lemma_member(fields, sorted, sorted.len() - 1);
    }
}

/// Adding a trailing field to a struct breaks nothing: where the changed
/// schema differs from the base schema only in that the struct filed under
/// `at` has one more field, whose code order is not below that of any other,
/// no declaration is found broken.
pub proof fn lemma_trailing_field_never_breaks(
    base: Map<u64, NodeView>,
    at: u64,
    extra: FieldView,
    id: u64,
    depth: nat,
)
    requires
        base.contains_key(at),
        base[at].kind is Struct,
        forall|i: int|
            0 <= i < base[at].kind->Struct_0.fields.len()
                ==> base[at].kind->Struct_0.fields[i].code_order <= extra.code_order,
    ensures
        ({
            let fields = base[at].kind->Struct_0.fields.push(extra);
            let grown = NodeView {
                id: base[at].id,
                display_name: base[at].display_name,
                nested: base[at].nested,
                kind: NodeKindView::Struct(StructView { fields }),
            };
            let changed = base.insert(at, grown);
            &&& node_outcome(base, changed, id, depth) == node_outcome(base, base, id, depth)
            &&& node_outcome(base, changed, id, depth).verdict() != Ok::<bool, SchemaError>(true)
        }),
{
    let body = base[at].kind->Struct_0;
    let fields = body.fields.push(extra);
    let grown = NodeView {
        id: base[at].id,
        display_name: base[at].display_name,
        nested: base[at].nested,
        kind: NodeKindView::Struct(StructView { fields }),
    };
    let changed = base.insert(at, grown);
    lemma_trailing_field(body.fields, extra);
    assert forall|other: u64| #[trigger] base.contains_key(other) implies changed.contains_key(
        other,
    ) && only_adds_to(base[other].kind, changed[other].kind) by {
        if other != at {
            assert(changed[other] == base[other]);
            lemma_only_adds_to_itself(base[other].kind);
        }
    }
    lemma_additions_never_break(base, changed, id, depth);
}

/// A declaration only adds to itself.
proof fn lemma_only_adds_to_itself(kind: NodeKindView)
    ensures
        only_adds_to(kind, kind),
{
}

/// Changing one scalar, text or byte-string type into another is broken:
/// neither width nor signedness may change.
pub proof fn lemma_primitive_change(base: Type, changed: Type)
    requires
        base.is_primitive(),
        changed.is_primitive(),
        base != changed,
    ensures
        type_verdict(base, changed) == Ok::<bool, SchemaError>(true),
{
}

/// Two list types compare as their element types do.
pub proof fn lemma_list_elements(base: Type, changed: Type)
    ensures
        type_verdict(Type::List(Box::new(base)), Type::List(Box::new(changed))) == type_verdict(
            base,
            changed,
        ),
{
}

/// A slot of a struct type may become a generic parameter, and no other
/// opaque pointer.
pub proof fn lemma_struct_made_generic(id: u64)
    ensures
        type_verdict(Type::Struct(id), Type::AnyPointer(AnyPointerKind::Parameter)) == Ok::<
            bool,
            SchemaError,
        >(false),
        type_verdict(Type::Struct(id), Type::AnyPointer(AnyPointerKind::Unconstrained)) == Ok::<
            bool,
            SchemaError,
        >(true),
        type_verdict(Type::Struct(id), Type::AnyPointer(AnyPointerKind::ImplicitMethodParameter))
            == Ok::<bool, SchemaError>(true),
{
}

/// Setting or unsetting the default of a slot is broken, also where the type
/// of the slot stays compatible.
pub proof fn lemma_default_toggled(name: Seq<char>, base: SlotView, changed: SlotView)
    requires
        type_verdict(base.ty, changed.ty) == Ok::<bool, SchemaError>(false),
        (base.default_value is Some) != (changed.default_value is Some),
    ensures
        slot_outcome(name, base, changed) == Outcome::Broken(seq![name]),
{
}

/// Comparing two types fails on an unknown kind alone.
pub proof fn lemma_type_failure(base: Type, changed: Type)
    ensures
        type_verdict(base, changed) matches Err(error) ==> error is UnknownKind,
    decreases base,
{
    if let Type::List(b) = base {
        if let Type::List(c) = changed {
            lemma_type_failure(*b, *c);
        }
    }
}

/// Tells whether the comparison lost its way: it met an identifier that
/// names no declaration of the base schema, or used up its depth.
pub open spec fn lost(outcome: Outcome) -> bool {
    outcome matches Outcome::Failed(error) && (error is MissingNode || error is TooDeep)
}

proof fn lemma_node_guard(
    base: Map<u64, NodeView>,
    changed: Map<u64, NodeView>,
    rank: spec_fn(u64) -> nat,
    id: u64,
    depth: nat,
)
    requires
        well_formed(base, rank),
        base.contains_key(id),
        rank(id) < depth,
    ensures
        !lost(node_outcome(base, changed, id, depth)),
    decreases depth, 0nat, 0nat,
{
    if changed.contains_key(id) {
        let below = (depth - 1) as nat;
        let node = base[id];
        assert(node_sound(base, rank, id));
        lemma_nested_guard(base, changed, rank, id, node.nested, 0, below);
        if let NodeKindView::Struct(base_body) = node.kind {
            if let NodeKindView::Struct(changed_body) = changed[id].kind {
                let base_fields = by_code_order(base_body.fields);
                let changed_fields = by_code_order(changed_body.fields);
                lemma_by_code_order(base_body.fields);
                assert forall|i: int| 0 <= i < base_fields.len() implies field_sound(
                    base,
                    rank,
                    id,
                    #[trigger] base_fields[i],
                ) by {
                    lemma_member(base_body.fields, base_fields, i);
                }
                lemma_fields_guard(base, changed, rank, id, base_fields, changed_fields, 0, below);
                assert(body_outcome(base, node.kind, changed, changed[id].kind, below)
                    == fields_outcome(base, base_fields, changed, changed_fields, 0, below)) by {
                    assert(body_outcome(base, node.kind, changed, changed[id].kind, below)
                        == struct_outcome(base, base_body, changed, changed_body, below));
                }
            }
        }
    }
}

proof fn lemma_nested_guard(
    base: Map<u64, NodeView>,
    changed: Map<u64, NodeView>,
    rank: spec_fn(u64) -> nat,
    owner: u64,
    ids: Seq<u64>,
    from: nat,
    depth: nat,
)
    requires
        well_formed(base, rank),
        rank(owner) <= depth,
        forall|i: int|
            from <= i < ids.len() ==> base.contains_key(#[trigger] ids[i]) && rank(ids[i]) < rank(
                owner,
            ),
    ensures
        !lost(nested_outcome(base, changed, ids, from, depth)),
    decreases depth, 1nat, ids.len() - from,
{
    if from < ids.len() {
        lemma_node_guard(base, changed, rank, ids[from as int], depth);
        lemma_nested_guard(base, changed, rank, owner, ids, from + 1, depth);
    }
}

proof fn lemma_fields_guard(
    base: Map<u64, NodeView>,
    changed: Map<u64, NodeView>,
    rank: spec_fn(u64) -> nat,
    owner: u64,
    base_fields: Seq<FieldView>,
    changed_fields: Seq<FieldView>,
    from: nat,
    depth: nat,
)
    requires
        well_formed(base, rank),
        rank(owner) <= depth,
        forall|i: int|
            from <= i < base_fields.len() ==> field_sound(
                base,
                rank,
                owner,
                #[trigger] base_fields[i],
            ),
    ensures
        !lost(fields_outcome(base, base_fields, changed, changed_fields, from, depth)),
    decreases depth, 2nat, base_fields.len() - from,
{
    if from < base_fields.len() && from < changed_fields.len() {
        let field = base_fields[from as int];
        assert(field_sound(base, rank, owner, field));
        match (field.kind, changed_fields[from as int].kind) {
            (FieldKindView::Group(group), _) => {
                lemma_node_guard(base, changed, rank, group.type_id, depth);
            },
            (FieldKindView::Slot(b), FieldKindView::Slot(c)) => {
                lemma_type_failure(b.ty, c.ty);
            },
            _ => {},
        }
        assert(!lost(field_outcome(base, field, changed, changed_fields[from as int], depth)));
        lemma_fields_guard(base, changed, rank, owner, base_fields, changed_fields, from + 1, depth);
    }
}

/// The comparison of a declaration of a well-formed base schema does not lose
/// its way, whatever the changed schema holds, where it may go as deep as the
/// declaration's rank asks.
pub proof fn lemma_well_formed_is_traversed(
    base: Map<u64, NodeView>,
    changed: Map<u64, NodeView>,
    rank: spec_fn(u64) -> nat,
    id: u64,
    depth: nat,
)
    requires
        well_formed(base, rank),
        base.contains_key(id),
        rank(id) < depth,
    ensures
        !lost(node_outcome(base, changed, id, depth)),
{
    lemma_node_guard(base, changed, rank, id, depth);
}

/// The number of its declarations is deep enough for a well-formed base
/// schema: with that depth the comparison does not lose its way, and finds
/// every declaration compatible with itself.
pub proof fn lemma_len_is_deep_enough(
    base: Map<u64, NodeView>,
    changed: Map<u64, NodeView>,
    rank: spec_fn(u64) -> nat,
    id: u64,
)
    requires
        base.dom().finite(),
        well_formed(base, rank),
        base.contains_key(id),
    ensures
        !lost(node_outcome(base, changed, id, base.len())),
        node_outcome(base, base, id, base.len()) == Outcome::Compatible,
{
    let by_level = |id: u64| level(base, rank, id);
    lemma_well_formed_by_level(base, rank);
    lemma_node_guard(base, changed, by_level, id, base.len());
    lemma_node_identity(base, by_level, id, base.len());
}

/// Position, not name, decides: where two fields with different names swap
/// their code orders, the struct is broken, and the field that came first is
/// the one reported.
pub proof fn lemma_swapped_code_orders(
    base: Map<u64, NodeView>,
    changed: Map<u64, NodeView>,
    first: FieldView,
    second: FieldView,
    depth: nat,
)
    requires
        first.name != second.name,
        first.code_order < second.code_order,
    ensures
        ({
            let moved_up = FieldView { code_order: first.code_order, ..second };
            let moved_down = FieldView { code_order: second.code_order, ..first };
            struct_outcome(
                base,
                StructView { fields: seq![first, second] },
                changed,
                StructView { fields: seq![moved_up, moved_down] },
                depth,
            ) == Outcome::Broken(seq![first.name])
        }),
{
    let moved_up = FieldView { code_order: first.code_order, ..second };
    let moved_down = FieldView { code_order: second.code_order, ..first };
    lemma_two_in_code_order(first, second);
    lemma_two_in_code_order(moved_up, moved_down);
}

/// Two fields given in code order stay as they are.
proof fn lemma_two_in_code_order(first: FieldView, second: FieldView)
    requires
        first.code_order <= second.code_order,
    ensures
        by_code_order(seq![first, second]) == seq![first, second],
{
    let both = seq![first, second];
    let one = seq![first];
    assert(both.drop_last() =~= one);
    assert(one.drop_last() =~= Seq::<FieldView>::empty());
    assert(by_code_order(one.drop_last()) =~= Seq::<FieldView>::empty());
    assert(by_code_order(one) =~= one);
    assert(by_code_order(both) =~= both);
}

} // verus!
