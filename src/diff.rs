use vstd::prelude::*;
use crate::tree::{
    entries_view, equal, find_key, first_key, has_key, lemma_entries_view, lemma_first_key,
    lemma_tree_eq_refl, tree_eq, value_of, wf, Json, JsonV,
};

verus! {

/// `i` is the first entry of `x` whose key `y` lacks.
pub open spec fn missing_at(x: Seq<(Seq<char>, JsonV)>, y: Seq<(Seq<char>, JsonV)>, i: int) -> bool {
    &&& 0 <= i < x.len()
    &&& !has_key(y, x[i].0)
    &&& forall|m: int| 0 <= m < i ==> has_key(y, #[trigger] x[m].0)
}

/// `i` is the first entry of `x` whose value differs from the one `y` holds for that key.
pub open spec fn unequal_at(x: Seq<(Seq<char>, JsonV)>, y: Seq<(Seq<char>, JsonV)>, i: int) -> bool {
    &&& 0 <= i < x.len()
    &&& !tree_eq(x[i].1, value_of(y, x[i].0))
    &&& forall|m: int| #![trigger x[m]] 0 <= m < i ==> tree_eq(x[m].1, value_of(y, x[m].0))
}

/// The fragment that explains why `a` and `b` differ.
///
/// Between two objects: the first entry of `a` whose key `b` lacks; else the first entry
/// of `b` whose key `a` lacks; else the fragment of the first shared key whose values
/// differ. In every other case: `a` itself.
pub open spec fn fragment(a: JsonV, b: JsonV) -> JsonV
    decreases a,
{
    match a {
        JsonV::Object(x) => match b {
            JsonV::Object(y) => if exists|i: int| missing_at(x, y, i) {
                JsonV::Object(seq![x[choose|i: int| missing_at(x, y, i)]])
            } else if exists|j: int| missing_at(y, x, j) {
                JsonV::Object(seq![y[choose|j: int| missing_at(y, x, j)]])
            } else if exists|i: int| unequal_at(x, y, i) {
                let i = choose|i: int| unequal_at(x, y, i);
                fragment(x[i].1, value_of(y, x[i].0))
            } else {
                a
            },
            _ => a,
        },
        _ => a,
    }
}

proof fn lemma_missing_unique(x: Seq<(Seq<char>, JsonV)>, y: Seq<(Seq<char>, JsonV)>, i: int)
    requires
        missing_at(x, y, i),
    ensures
        (choose|k: int| missing_at(x, y, k)) == i,
{
    let k = choose|k: int| missing_at(x, y, k);
    assert(missing_at(x, y, k));
    if k < i {
        assert(has_key(y, x[k].0));
    } else if i < k {
        assert(has_key(y, x[i].0));
    }
}

proof fn lemma_unequal_unique(x: Seq<(Seq<char>, JsonV)>, y: Seq<(Seq<char>, JsonV)>, i: int)
    requires
        unequal_at(x, y, i),
    ensures
        (choose|k: int| unequal_at(x, y, k)) == i,
{
    let k = choose|k: int| unequal_at(x, y, k);
    assert(unequal_at(x, y, k));
    if k < i {
        assert(x[k] == x[k]);
    } else if i < k {
        assert(x[i] == x[i]);
    }
}

/// A one-entry object holding a copy of the entry `e`.
fn single_entry(e: &(String, Json)) -> (r: Json)
    ensures
        r@ == JsonV::Object(seq![(e.0@, e.1@)]),
{
    let k = e.0.clone();
    let v = e.1.deep_copy();
    let entries = vec![(k, v)];
    proof {
        lemma_entries_view(entries@);
        assert(entries_view(entries@) =~= seq![(e.0@, e.1@)]);
    }
    Json::Object(entries)
}

/// Compares two trees and, where they differ, returns the fragment that explains it.
pub fn diff(a: &Json, b: &Json) -> (r: Result<(), Json>)
    ensures
        r is Ok <==> tree_eq(a@, b@),
        r matches Err(f) ==> f@ == fragment(a@, b@),
    decreases a@,
{
    if equal(a, b) {
        return Ok(());
    }
    match (a, b) {
        (Json::Object(x), Json::Object(y)) => {
            proof {
                lemma_entries_view(x@);
                lemma_entries_view(y@);
            }
            let ghost xv = entries_view(x@);
            let ghost yv = entries_view(y@);
            let mut i: usize = 0;
            while i < x.len()
                invariant
                    i <= x.len(),
                    a@ == JsonV::Object(xv),
                    b@ == JsonV::Object(yv),
                    !tree_eq(a@, b@),
                    xv == entries_view(x@),
                    yv == entries_view(y@),
                    xv.len() == x.len(),
                    forall|m: int| 0 <= m < x.len() ==> #[trigger] xv[m] == (x@[m].0@, x@[m].1@),
                    forall|m: int| 0 <= m < i ==> has_key(yv, #[trigger] xv[m].0),
                decreases x.len() - i,
            {
                if find_key(y, &x[i].0).is_none() {
                    proof {
                        assert(missing_at(xv, yv, i as int));
                        lemma_missing_unique(xv, yv, i as int);
                        assert(xv[i as int] == (x@[i as int].0@, x@[i as int].1@));
                    }
                    return Err(single_entry(&x[i]));
                }
                i = i + 1;
            }
            let mut j: usize = 0;
            while j < y.len()
                invariant
                    j <= y.len(),
                    a@ == JsonV::Object(xv),
                    b@ == JsonV::Object(yv),
                    !tree_eq(a@, b@),
                    xv == entries_view(x@),
                    yv == entries_view(y@),
                    yv.len() == y.len(),
                    forall|m: int| 0 <= m < y.len() ==> #[trigger] yv[m] == (y@[m].0@, y@[m].1@),
                    forall|m: int| 0 <= m < xv.len() ==> has_key(yv, #[trigger] xv[m].0),
                    forall|m: int| 0 <= m < j ==> has_key(xv, #[trigger] yv[m].0),
                decreases y.len() - j,
            {
                if find_key(x, &y[j].0).is_none() {
                    proof {
                        assert(missing_at(yv, xv, j as int));
                        lemma_missing_unique(yv, xv, j as int);
                        assert(!exists|k: int| missing_at(xv, yv, k));
                        assert(yv[j as int] == (y@[j as int].0@, y@[j as int].1@));
                    }
                    return Err(single_entry(&y[j]));
                }
                j = j + 1;
            }
            let mut i: usize = 0;
            while i < x.len()
                invariant
                    i <= x.len(),
                    a@ == JsonV::Object(xv),
                    b@ == JsonV::Object(yv),
                    xv == entries_view(x@),
                    yv == entries_view(y@),
                    xv.len() == x.len(),
                    yv.len() == y.len(),
                    forall|m: int| 0 <= m < x.len() ==> #[trigger] xv[m] == (x@[m].0@, x@[m].1@),
                    forall|m: int| 0 <= m < y.len() ==> #[trigger] yv[m] == (y@[m].0@, y@[m].1@),
                    forall|m: int| 0 <= m < xv.len() ==> has_key(yv, #[trigger] xv[m].0),
                    forall|m: int| 0 <= m < yv.len() ==> has_key(xv, #[trigger] yv[m].0),
                    forall|m: int|
                        #![trigger xv[m]]
                        0 <= m < i ==> tree_eq(xv[m].1, value_of(yv, xv[m].0)),
                decreases x.len() - i,
            {
                if let Some(j) = find_key(y, &x[i].0) {
                    proof {
                        lemma_first_key(yv, xv[i as int].0, j as int);
                        assert(a@->Object_0 == xv);
                        assert(decreases_to!(a@ => a@->Object_0));
                        assert(decreases_to!(xv => xv[i as int]));
                        assert(decreases_to!(xv[i as int] => xv[i as int].1));
                        assert(xv[i as int].1 == x@[i as int].1@);
                    }
                    match diff(&x[i].1, &y[j].1) {
                        Err(f) => {
                            proof {
                                assert(unequal_at(xv, yv, i as int));
                                lemma_unequal_unique(xv, yv, i as int);
                                assert(!exists|k: int| missing_at(xv, yv, k));
                                assert(!exists|k: int| missing_at(yv, xv, k));
                                assert(!tree_eq(a@, b@));
                            }
                            return Err(f);
                        },
                        Ok(()) => {},
                    }
                }
                i = i + 1;
            }
            assert(tree_eq(a@, b@));
            Ok(())
        },
        _ => Err(a.deep_copy()),
    }
}

/// An object with one extra entry differs from the object without it, and the
/// difference is reported as that entry alone.
pub proof fn lemma_extra_key(y: Seq<(Seq<char>, JsonV)>, k: Seq<char>, v: JsonV, p: int)
    requires
        0 <= p <= y.len(),
        !has_key(y, k),
    ensures
        !tree_eq(JsonV::Object(y.insert(p, (k, v))), JsonV::Object(y)),
        fragment(JsonV::Object(y.insert(p, (k, v))), JsonV::Object(y)) == JsonV::Object(
            seq![(k, v)],
        ),
{
    let x = y.insert(p, (k, v));
    assert(x[p] == (k, v));
    assert forall|m: int| 0 <= m < p implies has_key(y, #[trigger] x[m].0) by {
        assert(x[m] == y[m]);
        assert(y[m].0 == x[m].0);
    }
    assert(missing_at(x, y, p));
    lemma_missing_unique(x, y, p);
}

/// Two objects with the same keys in the same order, whose values agree under every
/// key but one, differ exactly where the values under that key differ.
pub proof fn lemma_descend(x: Seq<(Seq<char>, JsonV)>, y: Seq<(Seq<char>, JsonV)>, p: int)
    requires
        x.len() == y.len(),
        forall|m: int| 0 <= m < x.len() ==> #[trigger] x[m].0 == y[m].0,
        forall|i: int, j: int| 0 <= i < j < y.len() ==> #[trigger] y[i].0 != #[trigger] y[j].0,
        0 <= p < x.len(),
        !tree_eq(x[p].1, y[p].1),
        forall|m: int| #![trigger x[m]] 0 <= m < x.len() && m != p ==> tree_eq(x[m].1, y[m].1),
    ensures
        !tree_eq(JsonV::Object(x), JsonV::Object(y)),
        fragment(JsonV::Object(x), JsonV::Object(y)) == fragment(x[p].1, y[p].1),
{
    assert forall|m: int| 0 <= m < x.len() implies value_of(y, #[trigger] x[m].0) == y[m].1 by {
        assert(first_key(y, x[m].0, m));
        lemma_first_key(y, x[m].0, m);
    }
    assert forall|m: int| 0 <= m < x.len() implies has_key(y, #[trigger] x[m].0) by {
        assert(y[m].0 == x[m].0);
    }
    assert forall|m: int| 0 <= m < y.len() implies has_key(x, #[trigger] y[m].0) by {
        assert(x[m].0 == y[m].0);
    }
    assert(!exists|k: int| missing_at(x, y, k));
    assert(!exists|k: int| missing_at(y, x, k));
    assert(value_of(y, x[p].0) == y[p].1);
    assert forall|m: int| #![trigger x[m]] 0 <= m < p implies tree_eq(
        x[m].1,
        value_of(y, x[m].0),
    ) by {
        assert(value_of(y, x[m].0) == y[m].1);
    }
    assert(unequal_at(x, y, p));
    lemma_unequal_unique(x, y, p);
}

} // verus!
