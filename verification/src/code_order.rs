//! Fields in the order of their positions on the wire.

use vstd::prelude::*;
use crate::schema::{field_views, Field, FieldView};

verus! {

/// `sorted` with `field` put behind the last field whose code order is not
/// greater than its own.
pub open spec fn insert_by_code_order(sorted: Seq<FieldView>, field: FieldView) -> Seq<FieldView>
    decreases sorted.len(),
{
    if sorted.len() == 0 || sorted.last().code_order <= field.code_order {
        sorted.push(field)
    } else {
        insert_by_code_order(sorted.drop_last(), field).push(sorted.last())
    }
}

/// The fields by ascending code order. Fields of equal code order keep the
/// order in which they were given.
pub open spec fn by_code_order(fields: Seq<FieldView>) -> Seq<FieldView>
    decreases fields.len(),
{
    if fields.len() == 0 {
        Seq::empty()
    } else {
        insert_by_code_order(by_code_order(fields.drop_last()), fields.last())
    }
}

/// Tells whether the code orders in `fields` never descend.
pub open spec fn ascending(fields: Seq<FieldView>) -> bool {
    forall|i: int, j: int|
        0 <= i <= j < fields.len() ==> fields[i].code_order <= fields[j].code_order
}

/// The models of borrowed fields, in the same order.
pub open spec fn borrowed_views(fields: Seq<&Field>) -> Seq<FieldView> {
    fields.map_values(|field: &Field| field@)
}

/// Inserting by code order puts the field at index `at` where every field
/// from `at` on has a greater code order and the field before `at` has not.
proof fn lemma_insert_at(sorted: Seq<FieldView>, field: FieldView, at: int)
    requires
        0 <= at <= sorted.len(),
        forall|j: int| at <= j < sorted.len() ==> sorted[j].code_order > field.code_order,
        at > 0 ==> sorted[at - 1].code_order <= field.code_order,
    ensures
        insert_by_code_order(sorted, field) == sorted.insert(at, field),
    decreases sorted.len() - at,
{
    if at == sorted.len() {
        assert(sorted.push(field) =~= sorted.insert(at, field));
    } else {
        let front = sorted.drop_last();
        lemma_insert_at(front, field, at);
        assert(front.insert(at, field).push(sorted.last()) =~= sorted.insert(at, field));
    }
}

/// Inserting by code order adds the field and keeps all others, and keeps an
/// ascending sequence ascending.
pub proof fn lemma_insert_by_code_order(sorted: Seq<FieldView>, field: FieldView)
    ensures
        insert_by_code_order(sorted, field).len() == sorted.len() + 1,
        insert_by_code_order(sorted, field).to_multiset() == sorted.to_multiset().insert(field),
        ascending(sorted) ==> ascending(insert_by_code_order(sorted, field)),
    decreases sorted.len(),
{
    broadcast use vstd::seq_lib::group_to_multiset_ensures;

    let result = insert_by_code_order(sorted, field);
    if sorted.len() == 0 || sorted.last().code_order <= field.code_order {
    } else {
        let front = sorted.drop_last();
        let last = sorted.last();
        lemma_insert_by_code_order(front, field);
        let inner = insert_by_code_order(front, field);
        assert(sorted == front.push(last));
        assert(sorted.to_multiset() == front.to_multiset().insert(last));
        assert(result.to_multiset() =~= sorted.to_multiset().insert(field));
        if ascending(sorted) {
            assert(ascending(front));
            assert forall|i: int| 0 <= i < inner.len() implies inner[i].code_order
                <= last.code_order by {
                assert(inner.to_multiset().count(inner[i]) > 0);
                if inner[i] != field {
                    assert(front.to_multiset().count(inner[i]) > 0);
                    let k = choose|k: int| 0 <= k < front.len() && front[k] == inner[i];
                    assert(sorted[k] == front[k]);
                }
            }
        }
    }
}

/// Ordering by code order permutes the fields, and the result ascends.
pub proof fn lemma_by_code_order(fields: Seq<FieldView>)
    ensures
        by_code_order(fields).len() == fields.len(),
        by_code_order(fields).to_multiset() == fields.to_multiset(),
        ascending(by_code_order(fields)),
    decreases fields.len(),
{
    broadcast use vstd::seq_lib::group_to_multiset_ensures;

    if fields.len() == 0 {
        assert(fields =~= Seq::empty());
    } else {
        let front = fields.drop_last();
        lemma_by_code_order(front);
        lemma_insert_by_code_order(by_code_order(front), fields.last());
        assert(fields == front.push(fields.last()));
    }
}

/// Tells whether no two of `fields` have the same code order, as it is in
/// every struct whose positions were given out one by one.
pub open spec fn distinct_code_orders(fields: Seq<FieldView>) -> bool {
    forall|i: int, j: int|
        0 <= i < j < fields.len() ==> fields[i].code_order != fields[j].code_order
}

/// Tells whether the code orders in `fields` rise from each field to the
/// next.
pub open spec fn strictly_ascending(fields: Seq<FieldView>) -> bool {
    forall|i: int, j: int|
        0 <= i < j < fields.len() ==> fields[i].code_order < fields[j].code_order
}

/// Inserting a field whose code order is new keeps a strictly ascending
/// sequence strictly ascending.
proof fn lemma_insert_strictly(sorted: Seq<FieldView>, field: FieldView)
    requires
        strictly_ascending(sorted),
        forall|i: int| 0 <= i < sorted.len() ==> sorted[i].code_order != field.code_order,
    ensures
        strictly_ascending(insert_by_code_order(sorted, field)),
    decreases sorted.len(),
{
    broadcast use vstd::seq_lib::group_to_multiset_ensures;

    if sorted.len() == 0 || sorted.last().code_order <= field.code_order {
    } else {
        let front = sorted.drop_last();
        let last = sorted.last();
        lemma_insert_strictly(front, field);
        lemma_insert_by_code_order(front, field);
        let inner = insert_by_code_order(front, field);
        assert forall|i: int| 0 <= i < inner.len() implies inner[i].code_order
            < last.code_order by {
            assert(inner.to_multiset().count(inner[i]) > 0);
            if inner[i] != field {
                assert(front.to_multiset().count(inner[i]) > 0);
                let k = choose|k: int| 0 <= k < front.len() && front[k] == inner[i];
                assert(sorted[k] == front[k]);
            }
        }
    }
}

/// Where no two fields have the same code order, the code orders of the
/// fields in code order rise from each to the next.
pub proof fn lemma_distinct_code_orders(fields: Seq<FieldView>)
    requires
        distinct_code_orders(fields),
    ensures
        strictly_ascending(by_code_order(fields)),
    decreases fields.len(),
{
    if fields.len() > 0 {
        let front = fields.drop_last();
        let sorted = by_code_order(front);
        lemma_distinct_code_orders(front);
        lemma_by_code_order(front);
        assert forall|i: int| 0 <= i < sorted.len() implies sorted[i].code_order
            != fields.last().code_order by {
            lemma_member(front, sorted, i);
            let j = choose|j: int| 0 <= j < front.len() && front[j] == sorted[i];
            assert(fields[j] == front[j]);
        }
        lemma_insert_strictly(sorted, fields.last());
    }
}

/// Two strictly ascending arrangements of the same fields are the same.
pub proof fn lemma_one_ascending_arrangement(a: Seq<FieldView>, b: Seq<FieldView>)
    requires
        a.to_multiset() == b.to_multiset(),
        strictly_ascending(a),
        strictly_ascending(b),
    ensures
        a == b,
    decreases a.len(),
{
    broadcast use vstd::seq_lib::group_to_multiset_ensures;

    assert(a.len() == a.to_multiset().len());
    assert(b.len() == b.to_multiset().len());
    if a.len() == 0 {
        assert(a =~= b);
    } else {
        let last = a.len() - 1;
        assert(a.contains(a[last]));
        assert(b.to_multiset().count(a[last]) > 0);
        assert(b.contains(a[last]));
        let in_b = choose|k: int| 0 <= k < b.len() && b[k] == a[last];
        assert(b.contains(b[last]));
        assert(a.to_multiset().count(b[last]) > 0);
        assert(a.contains(b[last]));
        let in_a = choose|k: int| 0 <= k < a.len() && a[k] == b[last];
        assert(in_a == last && in_b == last);
        assert(a.drop_last() =~= a.remove(last));
        assert(b.drop_last() =~= b.remove(last));
        lemma_one_ascending_arrangement(a.drop_last(), b.drop_last());
        assert(a =~= a.drop_last().push(a[last]));
        assert(b =~= b.drop_last().push(b[last]));
    }
}

/// Where no two fields have the same code order, the fields in code order
/// are the one arrangement of the fields in which the code orders rise.
pub proof fn lemma_by_code_order_is_unique(fields: Seq<FieldView>, arranged: Seq<FieldView>)
    requires
        distinct_code_orders(fields),
        arranged.to_multiset() == fields.to_multiset(),
        strictly_ascending(arranged),
    ensures
        arranged == by_code_order(fields),
{
    lemma_by_code_order(fields);
    lemma_distinct_code_orders(fields);
    lemma_one_ascending_arrangement(arranged, by_code_order(fields));
}

/// A member of a permutation of `fields` is a member of `fields`.
pub proof fn lemma_member(fields: Seq<FieldView>, permuted: Seq<FieldView>, i: int)
    requires
        permuted.to_multiset() == fields.to_multiset(),
        0 <= i < permuted.len(),
    ensures
        exists|j: int| 0 <= j < fields.len() && fields[j] == permuted[i],
{
    broadcast use vstd::seq_lib::group_to_multiset_ensures;

    assert(permuted.contains(permuted[i]));
    assert(permuted.to_multiset().count(permuted[i]) > 0);
    assert(fields.contains(permuted[i]));
}

/// The fields by ascending code order; see [`by_code_order`].
pub fn fields_by_code_order<'a>(fields: &'a Vec<Field>) -> (sorted: Vec<&'a Field>)
    ensures
        borrowed_views(sorted@) == by_code_order(field_views(fields@)),
{
    let mut sorted: Vec<&'a Field> = Vec::new();
    let mut taken: usize = 0;
    assert(field_views(fields@).take(0) =~= Seq::empty());
    assert(borrowed_views(sorted@) =~= Seq::empty());
    while taken < fields.len()
        invariant
            taken <= fields@.len(),
            borrowed_views(sorted@) == by_code_order(field_views(fields@).take(taken as int)),
        decreases fields@.len() - taken,
    {
        let field = &fields[taken];
        let mut at: usize = sorted.len();
        while at > 0 && sorted[at - 1].code_order > field.code_order
            invariant
                at <= sorted@.len(),
                forall|j: int| at <= j < sorted@.len() ==> sorted@[j].code_order > field.code_order,
            decreases at,
        {
            at -= 1;
        }
        let ghost before = borrowed_views(sorted@);
        proof {
            lemma_insert_at(before, field@, at as int);
            assert(field_views(fields@).take(taken + 1) =~= field_views(fields@).take(
                taken as int,
            ).push(field@));
            assert(field_views(fields@).take(taken + 1).drop_last() =~= field_views(fields@).take(
                taken as int,
            ));
        }
        sorted.insert(at, field);
        assert(borrowed_views(sorted@) =~= before.insert(at as int, field@));
        taken += 1;
    }
    assert(field_views(fields@).take(taken as int) =~= field_views(fields@));
    sorted
}

} // verus!
