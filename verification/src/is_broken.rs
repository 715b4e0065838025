//! The comparators: for a declaration, a struct, a field, a group and a slot,
//! whether the changed version breaks compatibility with the base version.
//!
//! Each comparator returns its verdict and appends to a report the names of
//! what it found broken, innermost first: the field, then the declaration
//! that holds it, then the declaration that holds that one as a group.

use vstd::prelude::*;
use crate::code_order::{borrowed_views, by_code_order, fields_by_code_order};
use crate::schema::{
    AnnotationNode, ConstNode, EnumNode, Field, FieldKind, FieldKindView, FieldView, Group,
    InterfaceNode, NodeKind, NodeKindView, NodeView, SchemaError, Slot, SlotView, StructNode,
    StructView,
};
use crate::snapshot::Snapshot;
pub use crate::type_matrix::is_broken_type;
use crate::type_matrix::type_verdict;
pub use crate::value::is_broken_value;
use crate::value::value_verdict;

verus! {

/// What a comparison comes to.
pub enum Outcome {
    /// Nothing that was compared breaks compatibility.
    Compatible,
    /// Something does; the names of what is broken, innermost first.
    Broken(Seq<Seq<char>>),
    /// The comparison met something that it could not read.
    Failed(SchemaError),
}

impl Outcome {
    /// The outcome as a comparator returns it.
    pub open spec fn verdict(self) -> Result<bool, SchemaError> {
        match self {
            Outcome::Compatible => Ok(false),
            Outcome::Broken(_) => Ok(true),
            Outcome::Failed(error) => Err(error),
        }
    }

    /// The names that a comparator reports.
    pub open spec fn offenders(self) -> Seq<Seq<char>> {
        match self {
            Outcome::Broken(names) => names,
            _ => Seq::empty(),
        }
    }

    /// This outcome where it decides, and `rest` where it found nothing.
    pub open spec fn or_else(self, rest: Outcome) -> Outcome {
        match self {
            Outcome::Compatible => rest,
            _ => self,
        }
    }

    /// This outcome, with `name` added to the names where it is broken.
    pub open spec fn blaming(self, name: Seq<char>) -> Outcome {
        match self {
            Outcome::Broken(names) => Outcome::Broken(names.push(name)),
            _ => self,
        }
    }

    /// The outcome of one check on the thing called `name`.
    pub open spec fn of(verdict: Result<bool, SchemaError>, name: Seq<char>) -> Outcome {
        match verdict {
            Ok(false) => Outcome::Compatible,
            Ok(true) => Outcome::Broken(seq![name]),
            Err(error) => Outcome::Failed(error),
        }
    }
}

/// The names held in a report.
pub open spec fn names(report: Seq<String>) -> Seq<Seq<char>> {
    report.map_values(|name: String| name@)
}

/// Whether two declarations are of different kinds; an error where the kind
/// of one is unknown.
pub open spec fn kind_verdict(base: NodeKindView, changed: NodeKindView) -> Result<
    bool,
    SchemaError,
> {
    match (base, changed) {
        (NodeKindView::Unknown(tag), _) => Err(SchemaError::UnknownKind(tag)),
        (_, NodeKindView::Unknown(tag)) => Err(SchemaError::UnknownKind(tag)),
        (NodeKindView::File, NodeKindView::File) => Ok(false),
        (NodeKindView::Struct(_), NodeKindView::Struct(_)) => Ok(false),
        (NodeKindView::Enum, NodeKindView::Enum) => Ok(false),
        (NodeKindView::Interface, NodeKindView::Interface) => Ok(false),
        (NodeKindView::Const, NodeKindView::Const) => Ok(false),
        (NodeKindView::Annotation, NodeKindView::Annotation) => Ok(false),
        _ => Ok(true),
    }
}

/// The outcome for a slot of the field called `name`: broken where the type
/// is, where only one side declares a default, or where both do and the
/// defaults differ.
pub open spec fn slot_outcome(name: Seq<char>, base: SlotView, changed: SlotView) -> Outcome {
    Outcome::of(type_verdict(base.ty, changed.ty), name).or_else(
        match (base.default_value, changed.default_value) {
            (None, None) => Outcome::Compatible,
            (Some(b), Some(c)) => Outcome::of(value_verdict(b, c), name),
            _ => Outcome::Broken(seq![name]),
        },
    )
}

/// The outcome for the declaration filed under `id`, entering at most `depth`
/// declarations on any path.
///
/// A declaration that the changed snapshot lacks is broken. One that is there
/// is broken where its kind changed, where its own body is broken, or where
/// one of the declarations nested in the base declaration is; the first of
/// these that decides is the outcome. Entering the declaration, to look at
/// its body and at what is nested in it, takes one of the `depth`.
pub open spec fn node_outcome(
    base: Map<u64, NodeView>,
    changed: Map<u64, NodeView>,
    id: u64,
    depth: nat,
) -> Outcome
    decreases depth, 0nat, 0nat,
{
    if !base.contains_key(id) {
        Outcome::Failed(SchemaError::MissingNode(id))
    } else if !changed.contains_key(id) {
        Outcome::Broken(seq![base[id].display_name])
    } else {
        let name = base[id].display_name;
        Outcome::of(kind_verdict(base[id].kind, changed[id].kind), name).or_else(
            if depth == 0 {
                Outcome::Failed(SchemaError::TooDeep(id))
            } else {
                body_outcome(
                    base,
                    base[id].kind,
                    changed,
                    changed[id].kind,
                    (depth - 1) as nat,
                ).blaming(name).or_else(
                    nested_outcome(base, changed, base[id].nested, 0, (depth - 1) as nat),
                )
            },
        )
    }
}

/// The outcome for the bodies of two declarations of one kind. Only the body
/// of a struct is looked into.
pub open spec fn body_outcome(
    base: Map<u64, NodeView>,
    base_kind: NodeKindView,
    changed: Map<u64, NodeView>,
    changed_kind: NodeKindView,
    depth: nat,
) -> Outcome
    decreases depth, 4nat, 0nat,
{
    match (base_kind, changed_kind) {
        (NodeKindView::Struct(b), NodeKindView::Struct(c)) => struct_outcome(
            base,
            b,
            changed,
            c,
            depth,
        ),
        _ => Outcome::Compatible,
    }
}

/// The outcome for the declarations `ids[from..]`: that of the first one that
/// decides.
pub open spec fn nested_outcome(
    base: Map<u64, NodeView>,
    changed: Map<u64, NodeView>,
    ids: Seq<u64>,
    from: nat,
    depth: nat,
) -> Outcome
    decreases depth, 1nat, ids.len() - from,
{
    if from >= ids.len() {
        Outcome::Compatible
    } else {
        node_outcome(base, changed, ids[from as int], depth).or_else(
            nested_outcome(base, changed, ids, from + 1, depth),
        )
    }
}

/// The outcome for two structs: their fields are put in code order and
/// compared position by position, as far as both have one.
pub open spec fn struct_outcome(
    base: Map<u64, NodeView>,
    base_struct: StructView,
    changed: Map<u64, NodeView>,
    changed_struct: StructView,
    depth: nat,
) -> Outcome
    decreases depth, 3nat, 0nat,
{
    fields_outcome(
        base,
        by_code_order(base_struct.fields),
        changed,
        by_code_order(changed_struct.fields),
        0,
        depth,
    )
}

/// The outcome for the positions from `from` on of two field sequences: that
/// of the first position that decides.
pub open spec fn fields_outcome(
    base: Map<u64, NodeView>,
    base_fields: Seq<FieldView>,
    changed: Map<u64, NodeView>,
    changed_fields: Seq<FieldView>,
    from: nat,
    depth: nat,
) -> Outcome
    decreases depth, 2nat, base_fields.len() - from,
{
    if from >= base_fields.len() || from >= changed_fields.len() {
        Outcome::Compatible
    } else {
        field_outcome(
            base,
            base_fields[from as int],
            changed,
            changed_fields[from as int],
            depth,
        ).or_else(fields_outcome(base, base_fields, changed, changed_fields, from + 1, depth))
    }
}

/// The outcome for two fields at one position: broken where name or
/// discriminant differ or where one is a slot and the other a group;
/// otherwise that of the two slots, or of the struct that the base group
/// names.
pub open spec fn field_outcome(
    base: Map<u64, NodeView>,
    base_field: FieldView,
    changed: Map<u64, NodeView>,
    changed_field: FieldView,
    depth: nat,
) -> Outcome
    decreases depth, 1nat, 0nat,
{
    if base_field.name != changed_field.name || base_field.discriminant_value
        != changed_field.discriminant_value {
        Outcome::Broken(seq![base_field.name])
    } else {
        match (base_field.kind, changed_field.kind) {
            (FieldKindView::Unknown(tag), _) => Outcome::Failed(SchemaError::UnknownKind(tag)),
            (_, FieldKindView::Unknown(tag)) => Outcome::Failed(SchemaError::UnknownKind(tag)),
            (FieldKindView::Group(b), FieldKindView::Group(_)) => node_outcome(
                base,
                changed,
                b.type_id,
                depth,
            ),
            (FieldKindView::Slot(b), FieldKindView::Slot(c)) => slot_outcome(
                base_field.name,
                b,
                c,
            ),
            _ => Outcome::Broken(seq![base_field.name]),
        }
    }
}

/// Tells whether two declarations are of different kinds.
fn kinds_differ(base: &NodeKind, changed: &NodeKind) -> (r: Result<bool, SchemaError>)
    ensures
        r == kind_verdict(base@, changed@),
{
    match base {
        NodeKind::Unknown(tag) => Err(SchemaError::UnknownKind(*tag)),
        NodeKind::File => match changed {
            NodeKind::Unknown(tag) => Err(SchemaError::UnknownKind(*tag)),
            NodeKind::File => Ok(false),
            _ => Ok(true),
        },
        NodeKind::Struct(_) => match changed {
            NodeKind::Unknown(tag) => Err(SchemaError::UnknownKind(*tag)),
            NodeKind::Struct(_) => Ok(false),
            _ => Ok(true),
        },
        NodeKind::Enum(_) => match changed {
            NodeKind::Unknown(tag) => Err(SchemaError::UnknownKind(*tag)),
            NodeKind::Enum(_) => Ok(false),
            _ => Ok(true),
        },
        NodeKind::Interface(_) => match changed {
            NodeKind::Unknown(tag) => Err(SchemaError::UnknownKind(*tag)),
            NodeKind::Interface(_) => Ok(false),
            _ => Ok(true),
        },
        NodeKind::Const(_) => match changed {
            NodeKind::Unknown(tag) => Err(SchemaError::UnknownKind(*tag)),
            NodeKind::Const(_) => Ok(false),
            _ => Ok(true),
        },
        NodeKind::Annotation(_) => match changed {
            NodeKind::Unknown(tag) => Err(SchemaError::UnknownKind(*tag)),
            NodeKind::Annotation(_) => Ok(false),
            _ => Ok(true),
        },
    }
}

/// Appends `name` to the report.
fn blame(report: &mut Vec<String>, name: &String)
    ensures
        names(final(report)@) == names(old(report)@).push(name@),
{
    report.push(name.clone());
    assert(names(report@) =~= names(old(report)@).push(name@));
}

/// Decides whether the declaration filed under `node_id` in `base` is broken
/// in `changed`, and appends the names of what is broken to `report`.
///
/// `depth` bounds how many declarations the traversal enters on one path, so
/// that it ends on a schema whose declarations contain themselves too. The
/// number of declarations in `base` is enough for every well-formed schema:
/// see [`lemma_len_is_deep_enough`](crate::laws::lemma_len_is_deep_enough).
pub fn is_broken(
    base: &Snapshot,
    changed: &Snapshot,
    node_id: u64,
    depth: usize,
    report: &mut Vec<String>,
) -> (r: Result<bool, SchemaError>)
    ensures
        r == node_outcome(base@, changed@, node_id, depth as nat).verdict(),
        names(final(report)@) == names(old(report)@) + node_outcome(
            base@,
            changed@,
            node_id,
            depth as nat,
        ).offenders(),
        base@.contains_key(node_id) && !changed@.contains_key(node_id) ==> r == Ok::<
            bool,
            SchemaError,
        >(true),
    decreases depth, 0nat, 0nat,
{
    let ghost before = names(report@);
    assert(before + Seq::<Seq<char>>::empty() =~= before);
    let base_node = match base.get(node_id) {
        Some(node) => node,
        None => {
            return Err(SchemaError::MissingNode(node_id));
        },
    };
    let changed_node = match changed.get(node_id) {
        Some(node) => node,
        None => {
            blame(report, &base_node.display_name);
            assert(before.push(base_node.display_name@) =~= before + seq![
                base_node.display_name@,
            ]);
            return Ok(true);
        },
    };
    let ghost name = base_node.display_name@;
    assert(before.push(name) =~= before + seq![name]);
    match kinds_differ(&base_node.kind, &changed_node.kind) {
        Ok(false) => {},
        Ok(true) => {
            blame(report, &base_node.display_name);
            return Ok(true);
        },
        Err(error) => {
            return Err(error);
        },
    }
    if depth == 0 {
        return Err(SchemaError::TooDeep(node_id));
    }
    let body = match (&base_node.kind, &changed_node.kind) {
        (NodeKind::Struct(base_struct), NodeKind::Struct(changed_struct)) => is_broken_struct(
            base,
            base_struct,
            changed,
            changed_struct,
            depth - 1,
            report,
        ),
        (
            NodeKind::Interface(base_interface),
            NodeKind::Interface(changed_interface),
        ) => is_broken_interface(base, base_interface, changed, changed_interface),
        (NodeKind::Const(base_const), NodeKind::Const(changed_const)) => is_broken_const(
            base,
            base_const,
            changed,
            changed_const,
        ),
        (NodeKind::Enum(base_enum), NodeKind::Enum(changed_enum)) => is_broken_enum(
            base,
            base_enum,
            changed,
            changed_enum,
        ),
        // A file only holds other declarations, and an annotation is not part
        // of what goes over the wire.
        _ => Ok(false),
    };
    let own = match body {
        Ok(found) => found,
        Err(error) => {
            return Err(error);
        },
    };
    if own {
        let ghost inner = body_outcome(
            base@,
            base_node@.kind,
            changed@,
            changed_node@.kind,
            (depth - 1) as nat,
        ).offenders();
        blame(report, &base_node.display_name);
        assert((before + inner).push(name) =~= before + inner.push(name));
        return Ok(true);
    }
    let ghost ids = base_node@.nested;
    let mut at: usize = 0;
    while at < base_node.nested.len()
        invariant
            depth > 0,
            ids == base_node.nested@,
            before == names(old(report)@),
            names(report@) == before,
            node_outcome(base@, changed@, node_id, depth as nat) == nested_outcome(
                base@,
                changed@,
                ids,
                0,
                (depth - 1) as nat,
            ),
            nested_outcome(base@, changed@, ids, at as nat, (depth - 1) as nat) == nested_outcome(
                base@,
                changed@,
                ids,
                0,
                (depth - 1) as nat,
            ),
        decreases base_node.nested@.len() - at,
    {
        // One broken declaration settles it: a later one cannot take that back.
        match is_broken(base, changed, base_node.nested[at], depth - 1, report) {
            Ok(false) => {},
            Ok(true) => {
                return Ok(true);
            },
            Err(error) => {
                return Err(error);
            },
        }
        assert(names(report@) =~= before);
        at += 1;
    }
    Ok(false)
}

/// Decides whether the struct `changed_struct` breaks compatibility with
/// `base_struct`: whether, with the fields of each in code order, the fields
/// at some position that both have are broken.
pub fn is_broken_struct(
    base: &Snapshot,
    base_struct: &StructNode,
    changed: &Snapshot,
    changed_struct: &StructNode,
    depth: usize,
    report: &mut Vec<String>,
) -> (r: Result<bool, SchemaError>)
    ensures
        r == struct_outcome(
            base@,
            base_struct@,
            changed@,
            changed_struct@,
            depth as nat,
        ).verdict(),
        names(final(report)@) == names(old(report)@) + struct_outcome(
            base@,
            base_struct@,
            changed@,
            changed_struct@,
            depth as nat,
        ).offenders(),
    decreases depth, 3nat, 0nat,
{
    let ghost before = names(report@);
    assert(before + Seq::<Seq<char>>::empty() =~= before);
    let base_fields = fields_by_code_order(&base_struct.fields);
    let changed_fields = fields_by_code_order(&changed_struct.fields);
    let ghost b = by_code_order(base_struct@.fields);
    let ghost c = by_code_order(changed_struct@.fields);
    let mut at: usize = 0;
    while at < base_fields.len() && at < changed_fields.len()
        invariant
            borrowed_views(base_fields@) == b,
            borrowed_views(changed_fields@) == c,
            before == names(old(report)@),
            names(report@) == before,
            struct_outcome(base@, base_struct@, changed@, changed_struct@, depth as nat)
                == fields_outcome(base@, b, changed@, c, 0, depth as nat),
            fields_outcome(base@, b, changed@, c, at as nat, depth as nat) == fields_outcome(
                base@,
                b,
                changed@,
                c,
                0,
                depth as nat,
            ),
        decreases base_fields@.len() - at,
    {
        match is_broken_field(base, base_fields[at], changed, changed_fields[at], depth, report) {
            Ok(false) => {},
            Ok(true) => {
                return Ok(true);
            },
            Err(error) => {
                return Err(error);
            },
        }
        assert(names(report@) =~= before);
        at += 1;
    }
    Ok(false)
}

/// Decides whether an interface is broken. What an interface declares is not
/// compared, so it never is.
pub fn is_broken_interface(
    _base: &Snapshot,
    _base_interface: &InterfaceNode,
    _changed: &Snapshot,
    _changed_interface: &InterfaceNode,
) -> (r: Result<bool, SchemaError>)
    ensures
        r == Ok::<bool, SchemaError>(false),
{
    Ok(false)
}

/// Decides whether a constant is broken. What a constant declares is not
/// compared, so it never is.
pub fn is_broken_const(
    _base: &Snapshot,
    _base_const: &ConstNode,
    _changed: &Snapshot,
    _changed_const: &ConstNode,
) -> (r: Result<bool, SchemaError>)
    ensures
        r == Ok::<bool, SchemaError>(false),
{
    Ok(false)
}

/// Decides whether an enum is broken. What an enum declares is not compared,
/// so it never is.
pub fn is_broken_enum(
    _base: &Snapshot,
    _base_enum: &EnumNode,
    _changed: &Snapshot,
    _changed_enum: &EnumNode,
) -> (r: Result<bool, SchemaError>)
    ensures
        r == Ok::<bool, SchemaError>(false),
{
    Ok(false)
}

/// Decides whether an annotation is broken. An annotation is not part of
/// what goes over the wire, so it never is.
pub fn is_broken_annotation(_snapshot: &Snapshot, _annotation: &AnnotationNode) -> (r: Result<
    bool,
    SchemaError,
>)
    ensures
        r == Ok::<bool, SchemaError>(false),
{
    Ok(false)
}

/// Decides whether the field `changed_field` breaks compatibility with
/// `base_field`, which has the same position in code order.
pub fn is_broken_field(
    base: &Snapshot,
    base_field: &Field,
    changed: &Snapshot,
    changed_field: &Field,
    depth: usize,
    report: &mut Vec<String>,
) -> (r: Result<bool, SchemaError>)
    ensures
        r == field_outcome(base@, base_field@, changed@, changed_field@, depth as nat).verdict(),
        names(final(report)@) == names(old(report)@) + field_outcome(
            base@,
            base_field@,
            changed@,
            changed_field@,
            depth as nat,
        ).offenders(),
    decreases depth, 1nat, 0nat,
{
    let ghost before = names(report@);
    assert(before + Seq::<Seq<char>>::empty() =~= before);
    assert(before.push(base_field.name@) =~= before + seq![base_field.name@]);
    let same_name = base_field.name == changed_field.name;
    if !same_name || base_field.discriminant_value != changed_field.discriminant_value {
        // Another field has taken this position on the wire.
        blame(report, &base_field.name);
        return Ok(true);
    }
    match &base_field.kind {
        FieldKind::Unknown(tag) => Err(SchemaError::UnknownKind(*tag)),
        FieldKind::Group(base_group) => match &changed_field.kind {
            FieldKind::Unknown(tag) => Err(SchemaError::UnknownKind(*tag)),
            FieldKind::Group(changed_group) => is_broken_group(
                base,
                base_group,
                changed,
                changed_group,
                depth,
                report,
            ),
            FieldKind::Slot(_) => {
                blame(report, &base_field.name);
                Ok(true)
            },
        },
        FieldKind::Slot(base_slot) => match &changed_field.kind {
            FieldKind::Unknown(tag) => Err(SchemaError::UnknownKind(*tag)),
            FieldKind::Slot(changed_slot) => is_broken_slot(
                base_field,
                base_slot,
                changed_field,
                changed_slot,
                report,
            ),
            FieldKind::Group(_) => {
                blame(report, &base_field.name);
                Ok(true)
            },
        },
    }
}

/// Decides whether a group is broken: whether the struct that the base group
/// names is.
pub fn is_broken_group(
    base: &Snapshot,
    base_group: &Group,
    changed: &Snapshot,
    _changed_group: &Group,
    depth: usize,
    report: &mut Vec<String>,
) -> (r: Result<bool, SchemaError>)
    ensures
        r == node_outcome(base@, changed@, base_group.type_id, depth as nat).verdict(),
        names(final(report)@) == names(old(report)@) + node_outcome(
            base@,
            changed@,
            base_group.type_id,
            depth as nat,
        ).offenders(),
    decreases depth, 0nat, 1nat,
{
    is_broken(base, changed, base_group.type_id, depth, report)
}

/// Decides whether the slot `changed_slot` breaks compatibility with
/// `base_slot`, the slot of `base_field`; the position of the two fields is
/// not looked at.
pub fn is_broken_slot(
    base_field: &Field,
    base_slot: &Slot,
    _changed_field: &Field,
    changed_slot: &Slot,
    report: &mut Vec<String>,
) -> (r: Result<bool, SchemaError>)
    ensures
        r == slot_outcome(base_field.name@, base_slot@, changed_slot@).verdict(),
        names(final(report)@) == names(old(report)@) + slot_outcome(
            base_field.name@,
            base_slot@,
            changed_slot@,
        ).offenders(),
{
    let ghost before = names(report@);
    assert(before + Seq::<Seq<char>>::empty() =~= before);
    assert(before.push(base_field.name@) =~= before + seq![base_field.name@]);
    match is_broken_type(&base_slot.ty, &changed_slot.ty) {
        Ok(false) => {},
        Ok(true) => {
            // The type of the slot changed.
            blame(report, &base_field.name);
            return Ok(true);
        },
        Err(error) => {
            return Err(error);
        },
    }
    match &base_slot.default_value {
        None => match &changed_slot.default_value {
            None => Ok(false),
            Some(_) => {
                // A default was set where there was none.
                blame(report, &base_field.name);
                Ok(true)
            },
        },
        Some(base_value) => match &changed_slot.default_value {
            None => {
                blame(report, &base_field.name);
                Ok(true)
            },
            Some(changed_value) => match is_broken_value(base_value, changed_value) {
                Ok(false) => Ok(false),
                Ok(true) => {
                    blame(report, &base_field.name);
                    Ok(true)
                },
                Err(error) => Err(error),
            },
        },
    }
}

} // verus!
