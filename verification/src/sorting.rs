//! Ordering the result list by license plate.
//!
//! The sort is stable: records with the same plate keep the order in which
//! they came. `is_stable_sort_of` says what that means, `sort_by_plate` is
//! the list that meets it, and `stable_sort_unique` shows that no other
//! list does.

use crate::order::lex_le;
use crate::order::lex_le_antisymmetric;
use crate::order::lex_le_reflexive;
use crate::order::lex_le_total;
use crate::order::lex_le_transitive;
use crate::order::text_le;
use crate::vehicle::HashedVehicleModel;
use crate::vehicle::VehicleWithHash;
use vstd::prelude::*;

verus! {

/// Plates ascend along `s`: no record stands before one with a smaller
/// plate.
pub open spec fn sorted_by_plate(s: Seq<HashedVehicleModel>) -> bool {
    forall|i: int, j: int|
        0 <= i <= j < s.len() ==> lex_le(#[trigger] s[i].license_plate, #[trigger] s[j].license_plate)
}

/// The test "this record has the plate `plate`".
pub open spec fn has_plate(plate: Seq<char>) -> spec_fn(HashedVehicleModel) -> bool {
    |v: HashedVehicleModel| v.license_plate == plate
}

/// For each plate, `out` holds the records with that plate that `input`
/// holds, as often and in the same order.
pub open spec fn keeps_plate_groups(
    out: Seq<HashedVehicleModel>,
    input: Seq<HashedVehicleModel>,
) -> bool {
    forall|plate: Seq<char>| #[trigger]
        out.filter(has_plate(plate)) == input.filter(has_plate(plate))
}

/// `out` is `input` sorted by plate, stably: plates ascend, nothing is
/// lost, added or repeated, and records with equal plates stand in the
/// order they had in `input`.
pub open spec fn is_stable_sort_of(
    out: Seq<HashedVehicleModel>,
    input: Seq<HashedVehicleModel>,
) -> bool {
    sorted_by_plate(out) && keeps_plate_groups(out, input)
}

/// `t` with `x` put behind the last record whose plate is at or before the
/// plate of `x`.
pub open spec fn insert_by_plate(
    t: Seq<HashedVehicleModel>,
    x: HashedVehicleModel,
) -> Seq<HashedVehicleModel>
    decreases t.len(),
{
    if t.len() == 0 || lex_le(t.last().license_plate, x.license_plate) {
        t.push(x)
    } else {
        insert_by_plate(t.drop_last(), x).push(t.last())
    }
}

/// The stable sort of `s` by plate.
pub open spec fn sort_by_plate(s: Seq<HashedVehicleModel>) -> Seq<HashedVehicleModel>
    decreases s.len(),
{
    if s.len() == 0 {
        s
    } else {
        insert_by_plate(sort_by_plate(s.drop_last()), s.last())
    }
}

/// Whether `pos` is where `x` belongs in `t`: behind a record at or before
/// it, and before records that are all strictly behind it.
pub open spec fn is_insertion_point(
    t: Seq<HashedVehicleModel>,
    x: HashedVehicleModel,
    pos: int,
) -> bool {
    &&& 0 <= pos <= t.len()
    &&& pos > 0 ==> lex_le(t[pos - 1].license_plate, x.license_plate)
    &&& forall|j: int| pos <= j < t.len() ==> !lex_le(#[trigger] t[j].license_plate, x.license_plate)
}

proof fn lemma_insert_at(t: Seq<HashedVehicleModel>, x: HashedVehicleModel, pos: int)
    requires
        is_insertion_point(t, x, pos),
    ensures
        insert_by_plate(t, x) == t.insert(pos, x),
    decreases t.len(),
{
    if pos == t.len() {
        assert(t.insert(pos, x) =~= t.push(x));
    } else {
        assert(!lex_le(t[t.len() - 1].license_plate, x.license_plate));
        lemma_insert_at(t.drop_last(), x, pos);
        assert(t.insert(pos, x) =~= t.drop_last().insert(pos, x).push(t.last()));
    }
}

proof fn lemma_insertion_point_exists(t: Seq<HashedVehicleModel>, x: HashedVehicleModel) -> (pos:
    int)
    ensures
        is_insertion_point(t, x, pos),
    decreases t.len(),
{
    if t.len() == 0 || lex_le(t.last().license_plate, x.license_plate) {
        t.len() as int
    } else {
        let pos = lemma_insertion_point_exists(t.drop_last(), x);
        assert forall|j: int| pos <= j < t.len() implies !lex_le(
            #[trigger] t[j].license_plate,
            x.license_plate,
        ) by {
            if j < t.len() - 1 {
                assert(t.drop_last()[j] == t[j]);
            }
        }
        pos
    }
}

proof fn lemma_no_plate_no_group(t: Seq<HashedVehicleModel>, plate: Seq<char>)
    requires
        forall|j: int| 0 <= j < t.len() ==> (#[trigger] t[j]).license_plate != plate,
    ensures
        t.filter(has_plate(plate)) == Seq::<HashedVehicleModel>::empty(),
    decreases t.len(),
{
    reveal(Seq::filter);
    if t.len() > 0 {
        lemma_no_plate_no_group(t.drop_last(), plate);
    }
}

proof fn lemma_insert_keeps_stable_sort(
    t: Seq<HashedVehicleModel>,
    s: Seq<HashedVehicleModel>,
    x: HashedVehicleModel,
    pos: int,
)
    requires
        is_stable_sort_of(t, s),
        is_insertion_point(t, x, pos),
    ensures
        is_stable_sort_of(t.insert(pos, x), s.push(x)),
{
    let r = t.insert(pos, x);
    let head = t.take(pos);
    let tail = t.skip(pos);
    assert(t =~= head + tail);
    assert(r =~= head.push(x) + tail);
    assert forall|i: int, j: int| 0 <= i <= j < r.len() implies lex_le(
        #[trigger] r[i].license_plate,
        #[trigger] r[j].license_plate,
    ) by {
        if i == pos && j == pos {
            lex_le_reflexive(x.license_plate);
        } else if j == pos {
            lex_le_transitive(t[i].license_plate, t[pos - 1].license_plate, x.license_plate);
        } else if i == pos {
            lex_le_total(t[j - 1].license_plate, x.license_plate);
        } else if i < pos && pos < j {
            assert(lex_le(t[i].license_plate, t[j - 1].license_plate));
        } else if j < pos {
            assert(lex_le(t[i].license_plate, t[j].license_plate));
        } else {
            assert(lex_le(t[i - 1].license_plate, t[j - 1].license_plate));
        }
    }
    assert forall|plate: Seq<char>| #[trigger]
        r.filter(has_plate(plate)) == s.push(x).filter(has_plate(plate)) by {
        let p = has_plate(plate);
        Seq::filter_distributes_over_add(head, tail, p);
        Seq::filter_distributes_over_add(head.push(x), tail, p);
        head.lemma_filter_push(x, p);
        s.lemma_filter_push(x, p);
        assert(t.filter(p) == s.filter(p));
        if x.license_plate == plate {
            assert forall|j: int| 0 <= j < tail.len() implies (#[trigger] tail[j]).license_plate
                != plate by {
                if tail[j].license_plate == plate {
                    lex_le_reflexive(plate);
                    assert(lex_le(t[pos + j].license_plate, x.license_plate));
                }
            }
            lemma_no_plate_no_group(tail, plate);
            assert(r.filter(p) =~= s.push(x).filter(p));
        }
    }
}

/// `sort_by_plate` gives the stable sort: plates ascend, and for each
/// plate the records with it are those of the input, in the input's order.
pub proof fn sort_by_plate_is_stable_sort(s: Seq<HashedVehicleModel>)
    ensures
        is_stable_sort_of(sort_by_plate(s), s),
    decreases s.len(),
{
    if s.len() == 0 {
    } else {
        let rest = sort_by_plate(s.drop_last());
        sort_by_plate_is_stable_sort(s.drop_last());
        let pos = lemma_insertion_point_exists(rest, s.last());
        lemma_insert_at(rest, s.last(), pos);
        lemma_insert_keeps_stable_sort(rest, s.drop_last(), s.last(), pos);
        assert(s.drop_last().push(s.last()) =~= s);
    }
}

proof fn lemma_sorted_drop_last(x: Seq<HashedVehicleModel>)
    requires
        sorted_by_plate(x),
        x.len() > 0,
    ensures
        sorted_by_plate(x.drop_last()),
{
    let d = x.drop_last();
    assert forall|i: int, j: int| 0 <= i <= j < d.len() implies lex_le(
        #[trigger] d[i].license_plate,
        #[trigger] d[j].license_plate,
    ) by {
        assert(lex_le(x[i].license_plate, x[j].license_plate));
    }
}

proof fn lemma_last_plate_is_largest(x: Seq<HashedVehicleModel>, v: HashedVehicleModel)
    requires
        sorted_by_plate(x),
        x.contains(v),
    ensures
        lex_le(v.license_plate, x.last().license_plate),
{
    let i = choose|i: int| 0 <= i < x.len() && x[i] == v;
    assert(lex_le(x[i].license_plate, x[x.len() - 1].license_plate));
}

/// Only one list is the stable sort of a given list: two lists with
/// ascending plates that hold, for each plate, the same records in the same
/// order are the same list.
pub proof fn stable_sort_unique(x: Seq<HashedVehicleModel>, y: Seq<HashedVehicleModel>)
    requires
        sorted_by_plate(x),
        sorted_by_plate(y),
        keeps_plate_groups(x, y),
    ensures
        x == y,
    decreases x.len(),
{
    if x.len() == 0 {
        if y.len() > 0 {
            let p = has_plate(y[0].license_plate);
            y.lemma_filter_contains(p, 0);
            assert(x.filter(p) == y.filter(p));
            assert(x.filter(p).len() == 0) by {
                reveal(Seq::filter);
            }
        }
        assert(x =~= y);
    } else {
        let e = x.last();
        let p = has_plate(e.license_plate);
        let xd = x.drop_last();
        assert(x =~= xd.push(e));
        xd.lemma_filter_push(e, p);
        assert(x.filter(p) == y.filter(p));
        assert(x.filter(p).last() == e);
        if y.len() == 0 {
            assert(y.filter(p).len() == 0) by {
                reveal(Seq::filter);
            }
        }
        let f = y.last();
        let q = has_plate(f.license_plate);
        let yd = y.drop_last();
        assert(y =~= yd.push(f));
        yd.lemma_filter_push(f, q);
        assert(x.filter(q) == y.filter(q));
        assert(y.filter(q).last() == f);
        assert(x.filter(q).contains(f));
        x.lemma_filter_contains_rev(q, f);
        lemma_last_plate_is_largest(x, f);
        assert(y.filter(p).contains(e));
        y.lemma_filter_contains_rev(p, e);
        lemma_last_plate_is_largest(y, e);
        lex_le_antisymmetric(e.license_plate, f.license_plate);
        assert(e == f);
        lemma_sorted_drop_last(x);
        lemma_sorted_drop_last(y);
        assert forall|plate: Seq<char>| #[trigger]
            xd.filter(has_plate(plate)) == yd.filter(has_plate(plate)) by {
            let r = has_plate(plate);
            xd.lemma_filter_push(e, r);
            yd.lemma_filter_push(e, r);
            assert(x.filter(r) == y.filter(r));
            if r(e) {
                assert(xd.filter(r) =~= xd.filter(r).push(e).drop_last());
                assert(yd.filter(r) =~= yd.filter(r).push(e).drop_last());
            }
        }
        stable_sort_unique(xd, yd);
    }
}

/// A list that is a stable sort of `input` is `sort_by_plate(input)`.
pub proof fn stable_sort_is_sort_by_plate(
    out: Seq<HashedVehicleModel>,
    input: Seq<HashedVehicleModel>,
)
    requires
        is_stable_sort_of(out, input),
    ensures
        out == sort_by_plate(input),
{
    sort_by_plate_is_stable_sort(input);
    let expected = sort_by_plate(input);
    assert forall|plate: Seq<char>| #[trigger]
        out.filter(has_plate(plate)) == expected.filter(has_plate(plate)) by {
        assert(expected.filter(has_plate(plate)) == input.filter(has_plate(plate)));
    }
    stable_sort_unique(out, expected);
}

proof fn lemma_group_keeps_count(s: Seq<HashedVehicleModel>, v: HashedVehicleModel)
    ensures
        s.filter(has_plate(v.license_plate)).to_multiset().count(v) == s.to_multiset().count(v),
    decreases s.len(),
{
    broadcast use vstd::multiset::group_multiset_axioms;

    let p = has_plate(v.license_plate);
    if s.len() == 0 {
        assert(s.filter(p) =~= s) by {
            reveal(Seq::filter);
        }
    } else {
        let d = s.drop_last();
        let e = s.last();
        assert(s =~= d.push(e));
        lemma_group_keeps_count(d, v);
        d.lemma_filter_push(e, p);
        vstd::seq_lib::to_multiset_build(d, e);
        vstd::seq_lib::to_multiset_build(d.filter(p), e);
    }
}

/// Sorting neither loses, adds nor repeats a record: a list that keeps the
/// records of each plate holds every record as often as the input does.
pub proof fn plate_groups_keep_every_record(
    out: Seq<HashedVehicleModel>,
    input: Seq<HashedVehicleModel>,
)
    requires
        keeps_plate_groups(out, input),
    ensures
        out.to_multiset() == input.to_multiset(),
{
    assert forall|v: HashedVehicleModel| out.to_multiset().count(v) == input.to_multiset().count(
        v,
    ) by {
        lemma_group_keeps_count(out, v);
        lemma_group_keeps_count(input, v);
        assert(out.filter(has_plate(v.license_plate)) == input.filter(has_plate(v.license_plate)));
    }
    assert(out.to_multiset() =~= input.to_multiset());
}

/// No two records of `s` share a plate unless they are the same record.
pub open spec fn plates_identify(s: Seq<HashedVehicleModel>) -> bool {
    forall|i: int, j: int|
        0 <= i < s.len() && 0 <= j < s.len() && (#[trigger] s[i]).license_plate == (
        #[trigger] s[j]).license_plate ==> s[i] == s[j]
}

/// Where plates identify records, the order of the input does not show in
/// the sorted list: two lists with ascending plates that hold the same
/// records equally often are the same list.
pub proof fn sorted_arrangement_unique(x: Seq<HashedVehicleModel>, y: Seq<HashedVehicleModel>)
    requires
        sorted_by_plate(x),
        sorted_by_plate(y),
        x.to_multiset() == y.to_multiset(),
        plates_identify(x),
    ensures
        x == y,
    decreases x.len(),
{
    broadcast use vstd::multiset::group_multiset_axioms;

    vstd::seq_lib::to_multiset_len(x);
    vstd::seq_lib::to_multiset_len(y);
    if x.len() == 0 {
        assert(x =~= y);
    } else {
        let e = x.last();
        let f = y.last();
        let xd = x.drop_last();
        let yd = y.drop_last();
        assert(x =~= xd.push(e));
        assert(y =~= yd.push(f));
        assert(x.contains(e)) by {
            assert(x[x.len() - 1] == e);
        }
        assert(y.contains(f)) by {
            assert(y[y.len() - 1] == f);
        }
        vstd::seq_lib::to_multiset_contains(x, e);
        vstd::seq_lib::to_multiset_contains(y, e);
        vstd::seq_lib::to_multiset_contains(x, f);
        vstd::seq_lib::to_multiset_contains(y, f);
        lemma_last_plate_is_largest(x, f);
        lemma_last_plate_is_largest(y, e);
        lex_le_antisymmetric(e.license_plate, f.license_plate);
        let i = choose|i: int| 0 <= i < x.len() && x[i] == f;
        assert(x[i] == x[x.len() - 1]);
        assert(e == f);
        vstd::seq_lib::to_multiset_build(xd, e);
        vstd::seq_lib::to_multiset_build(yd, e);
        assert forall|v: HashedVehicleModel| xd.to_multiset().count(v) == yd.to_multiset().count(
            v,
        ) by {
            assert(xd.to_multiset().insert(e).count(v) == yd.to_multiset().insert(e).count(v));
        }
        assert(xd.to_multiset() =~= yd.to_multiset());
        lemma_sorted_drop_last(x);
        lemma_sorted_drop_last(y);
        assert forall|i: int, j: int|
            0 <= i < xd.len() && 0 <= j < xd.len() && (#[trigger] xd[i]).license_plate == (
            #[trigger] xd[j]).license_plate implies xd[i] == xd[j] by {
            assert(x[i].license_plate == x[j].license_plate);
        }
        sorted_arrangement_unique(xd, yd);
    }
}

/// Sorts the list by license plate, ascending in lexicographic order.
/// Records with the same plate keep their order.
pub fn sort_by_license_plate(vehicles: &mut Vec<VehicleWithHash>)
    ensures
        final(vehicles).deep_view() == sort_by_plate(old(vehicles).deep_view()),
        is_stable_sort_of(final(vehicles).deep_view(), old(vehicles).deep_view()),
{
    let ghost input = vehicles.deep_view();
    let mut i: usize = 0;
    assert(input.take(0) =~= Seq::<HashedVehicleModel>::empty());
    assert(input.skip(0) =~= input);
    while i < vehicles.len()
        invariant
            i <= vehicles.len(),
            vehicles.len() == input.len(),
            vehicles.deep_view().take(i as int) == sort_by_plate(input.take(i as int)),
            vehicles.deep_view().skip(i as int) == input.skip(i as int),
        decreases vehicles.len() - i,
    {
        let ghost before = vehicles.deep_view();
        let moved = vehicles.remove(i);
        let ghost rest = vehicles.deep_view();
        assert(rest =~= before.remove(i as int));
        assert(moved@ == input.skip(i as int)[0]);
        let mut pos: usize = i;
        while pos > 0 && !text_le(
            vehicles[pos - 1].license_plate.as_str(),
            moved.license_plate.as_str(),
        )
            invariant
                pos <= i < vehicles.len() + 1,
                vehicles.deep_view() == rest,
                forall|j: int|
                    pos <= j < i ==> !lex_le(#[trigger] rest[j].license_plate, moved@.license_plate),
            decreases pos,
        {
            pos = pos - 1;
        }
        vehicles.insert(pos, moved);
        proof {
            let sorted_part = before.take(i as int);
            assert(sorted_part =~= rest.take(i as int));
            assert(is_insertion_point(sorted_part, moved@, pos as int));
            lemma_insert_at(sorted_part, moved@, pos as int);
            assert(input.take(i + 1).drop_last() =~= input.take(i as int));
            assert(input.take(i + 1).last() == moved@);
            assert(vehicles.deep_view() =~= rest.insert(pos as int, moved@));
            assert(vehicles.deep_view().take(i + 1) =~= sorted_part.insert(pos as int, moved@));
            assert forall|k: int| i < k < input.len() implies #[trigger] vehicles.deep_view()[k]
                == input[k] by {
                assert(before.skip(i as int)[k - i] == input.skip(i as int)[k - i]);
            }
            assert(vehicles.deep_view().skip(i + 1) =~= input.skip(i + 1));
        }
        i = i + 1;
    }
    proof {
        assert(input.take(i as int) =~= input);
        assert(vehicles.deep_view().take(i as int) =~= vehicles.deep_view());
        sort_by_plate_is_stable_sort(input);
    }
}

} // verus!
