use vstd::prelude::*;

verus! {

broadcast use vstd::std_specs::vec::group_vec_axioms, vstd::seq::group_seq_axioms;

/// A dynamically shaped structured value.
///
/// Numbers keep the three forms a parser hands out: a non-negative integer, a
/// negative integer, or a non-integral number held as its canonical text.
#[derive(Debug)]
pub enum Json {
    Null,
    Bool(bool),
    UInt(u64),
    Int(i64),
    Float(String),
    Str(String),
    Array(Vec<Json>),
    Object(Vec<(String, Json)>),
}

/// The mathematical model of a `Json` value.
pub enum JsonV {
    Null,
    Bool(bool),
    UInt(u64),
    Int(i64),
    Float(Seq<char>),
    Str(Seq<char>),
    Array(Seq<JsonV>),
    Object(Seq<(Seq<char>, JsonV)>),
}

pub open spec fn items_view(s: Seq<Json>) -> Seq<JsonV>
    decreases s,
{
    if s.len() == 0 {
        Seq::empty()
    } else {
        items_view(s.drop_last()).push(s.last().view())
    }
}

pub open spec fn entries_view(s: Seq<(String, Json)>) -> Seq<(Seq<char>, JsonV)>
    decreases s,
{
    if s.len() == 0 {
        Seq::empty()
    } else {
        entries_view(s.drop_last()).push((s.last().0@, s.last().1.view()))
    }
}

impl View for Json {
    type V = JsonV;

    open spec fn view(&self) -> JsonV
        decreases self,
    {
        match self {
            Json::Null => JsonV::Null,
            Json::Bool(b) => JsonV::Bool(*b),
            Json::UInt(n) => JsonV::UInt(*n),
            Json::Int(n) => JsonV::Int(*n),
            Json::Float(t) => JsonV::Float(t@),
            Json::Str(s) => JsonV::Str(s@),
            Json::Array(v) => JsonV::Array(items_view(v@)),
            Json::Object(v) => JsonV::Object(entries_view(v@)),
        }
    }
}

pub proof fn lemma_items_view(s: Seq<Json>)
    ensures
        items_view(s).len() == s.len(),
        forall|i: int| 0 <= i < s.len() ==> #[trigger] items_view(s)[i] == s[i]@,
    decreases s.len(),
{
    if s.len() > 0 {
        lemma_items_view(s.drop_last());
        assert(items_view(s) == items_view(s.drop_last()).push(s.last()@));
        assert forall|i: int| 0 <= i < s.len() implies #[trigger] items_view(s)[i] == s[i]@ by {
            if i < s.len() - 1 {
                assert(s.drop_last()[i] == s[i]);
            }
        }
    }
}

pub proof fn lemma_entries_view(s: Seq<(String, Json)>)
    ensures
        entries_view(s).len() == s.len(),
        forall|i: int|
            0 <= i < s.len() ==> #[trigger] entries_view(s)[i] == (s[i].0@, s[i].1@),
    decreases s.len(),
{
    if s.len() > 0 {
        lemma_entries_view(s.drop_last());
        assert(entries_view(s) == entries_view(s.drop_last()).push((s.last().0@, s.last().1@)));
        assert forall|i: int| 0 <= i < s.len() implies #[trigger] entries_view(s)[i] == (
        s[i].0@,
        s[i].1@,
        ) by {
            if i < s.len() - 1 {
                assert(s.drop_last()[i] == s[i]);
            }
        }
    }
}


/// Some entry of `es` has key `k`.
pub open spec fn has_key(es: Seq<(Seq<char>, JsonV)>, k: Seq<char>) -> bool {
    exists|j: int| 0 <= j < es.len() && #[trigger] es[j].0 == k
}

/// `j` is the first entry of `es` with key `k`.
pub open spec fn first_key(es: Seq<(Seq<char>, JsonV)>, k: Seq<char>, j: int) -> bool {
    &&& 0 <= j < es.len()
    &&& es[j].0 == k
    &&& forall|m: int| 0 <= m < j ==> #[trigger] es[m].0 != k
}

/// The value that a lookup of `k` in `es` finds.
pub open spec fn value_of(es: Seq<(Seq<char>, JsonV)>, k: Seq<char>) -> JsonV {
    es[choose|j: int| first_key(es, k, j)].1
}

/// A key that occurs has a first occurrence, and the lookup finds it.
pub proof fn lemma_first_key(es: Seq<(Seq<char>, JsonV)>, k: Seq<char>, j: int)
    requires
        0 <= j < es.len(),
        es[j].0 == k,
    ensures
        exists|f: int| first_key(es, k, f),
        forall|f: int| #[trigger] first_key(es, k, f) ==> value_of(es, k) == es[f].1,
    decreases j,
{
    if forall|m: int| 0 <= m < j ==> #[trigger] es[m].0 != k {
        assert(first_key(es, k, j));
    } else {
        let m = choose|m: int| 0 <= m < j && #[trigger] es[m].0 == k;
        lemma_first_key(es, k, m);
    }
    assert forall|f: int| #[trigger] first_key(es, k, f) implies value_of(es, k) == es[f].1 by {
        let c = choose|c: int| first_key(es, k, c);
        assert(first_key(es, k, c));
        if c < f {
            assert(es[c].0 == k);
        } else if f < c {
            assert(es[f].0 == k);
        }
    }
}

/// Structural equality: arrays compare in order, objects as maps from key to value,
/// scalars by variant and value.
pub open spec fn tree_eq(a: JsonV, b: JsonV) -> bool
    decreases a,
{
    match a {
        JsonV::Array(x) => match b {
            JsonV::Array(y) => x.len() == y.len() && forall|i: int|
                #![trigger x[i]]
                0 <= i < x.len() ==> tree_eq(x[i], y[i]),
            _ => false,
        },
        JsonV::Object(x) => match b {
            JsonV::Object(y) => {
                &&& forall|j: int| 0 <= j < y.len() ==> has_key(x, #[trigger] y[j].0)
                &&& forall|i: int|
                    #![trigger x[i]]
                    0 <= i < x.len() ==> has_key(y, x[i].0) && tree_eq(x[i].1, value_of(y, x[i].0))
            },
            _ => false,
        },
        _ => a == b,
    }
}

/// Every object in the tree has pairwise distinct keys.
pub open spec fn wf(a: JsonV) -> bool
    decreases a,
{
    match a {
        JsonV::Array(x) => forall|i: int| #![trigger x[i]] 0 <= i < x.len() ==> wf(x[i]),
        JsonV::Object(x) => {
            &&& forall|i: int, j: int| 0 <= i < j < x.len() ==> #[trigger] x[i].0 != #[trigger] x[j].0
            &&& forall|i: int| #![trigger x[i]] 0 <= i < x.len() ==> wf(x[i].1)
        },
        _ => true,
    }
}

/// Every well-formed tree equals itself, so comparing a tree with itself finds no
/// difference.
pub proof fn lemma_tree_eq_refl(a: JsonV)
    requires
        wf(a),
    ensures
        tree_eq(a, a),
    decreases a,
{
    match a {
        JsonV::Array(x) => {
            assert forall|i: int| #![trigger x[i]] 0 <= i < x.len() implies tree_eq(x[i], x[i]) by {
                lemma_tree_eq_refl(x[i]);
            }
        },
        JsonV::Object(x) => {
            assert forall|j: int| 0 <= j < x.len() implies has_key(x, #[trigger] x[j].0) by {}
            assert forall|i: int| #![trigger x[i]] 0 <= i < x.len() implies has_key(x, x[i].0)
                && tree_eq(x[i].1, value_of(x, x[i].0)) by {
                lemma_tree_eq_refl(x[i].1);
                assert(first_key(x, x[i].0, i));
                lemma_first_key(x, x[i].0, i);
            }
            assert(tree_eq(a, a));
        },
        _ => {},
    }
}

/// Finds the first entry of `es` whose key is `k`.
pub fn find_key(es: &Vec<(String, Json)>, k: &String) -> (r: Option<usize>)
    ensures
        match r {
            Some(j) => first_key(entries_view(es@), k@, j as int),
            None => !has_key(entries_view(es@), k@),
        },
{
    proof {
        lemma_entries_view(es@);
    }
    let mut i: usize = 0;
    while i < es.len()
        invariant
            i <= es.len(),
            entries_view(es@).len() == es.len(),
            forall|m: int| 0 <= m < i ==> #[trigger] entries_view(es@)[m].0 != k@,
            forall|m: int|
                0 <= m < es.len() ==> #[trigger] entries_view(es@)[m] == (es@[m].0@, es@[m].1@),
        decreases es.len() - i,
    {
        if es[i].0 == *k {
            return Some(i);
        }
        i = i + 1;
    }
    None
}

impl Json {
    /// A copy of this value with the same model.
    pub fn deep_copy(&self) -> (r: Json)
        ensures
            r@ == self@,
        decreases self@,
    {
        match self {
            Json::Null => Json::Null,
            Json::Bool(b) => Json::Bool(*b),
            Json::UInt(n) => Json::UInt(*n),
            Json::Int(n) => Json::Int(*n),
            Json::Float(t) => Json::Float(t.clone()),
            Json::Str(s) => Json::Str(s.clone()),
            Json::Array(v) => {
                let mut out: Vec<Json> = Vec::new();
                let mut i: usize = 0;
                proof {
                    lemma_items_view(v@);
                }
                while i < v.len()
                    invariant
                        i <= v.len(),
                        self@ == JsonV::Array(items_view(v@)),
                        out@.len() == i,
                        forall|m: int| 0 <= m < i ==> #[trigger] out@[m]@ == v@[m]@,
                    decreases v.len() - i,
                {
                    proof {
                        lemma_items_view(v@);
                        let sv = items_view(v@);
                        assert(self@ == JsonV::Array(sv));
                        assert(self@->Array_0 == sv);
                        assert(decreases_to!(self@ => self@->Array_0));
                        assert(decreases_to!(sv => sv[i as int]));
                        assert(sv[i as int] == v@[i as int]@);
                    }
                    let c = v[i].deep_copy();
                    out.push(c);
                    i = i + 1;
                }
                proof {
                    lemma_items_view(out@);
                    assert(items_view(out@) =~= items_view(v@));
                }
                Json::Array(out)
            },
            Json::Object(v) => {
                let mut out: Vec<(String, Json)> = Vec::new();
                let mut i: usize = 0;
                proof {
                    lemma_entries_view(v@);
                }
                while i < v.len()
                    invariant
                        i <= v.len(),
                        self@ == JsonV::Object(entries_view(v@)),
                        out@.len() == i,
                        forall|m: int|
                            0 <= m < i ==> #[trigger] out@[m].0@ == v@[m].0@ && out@[m].1@
                                == v@[m].1@,
                    decreases v.len() - i,
                {
                    let k = v[i].0.clone();
                    proof {
                        lemma_entries_view(v@);
                        let sv = entries_view(v@);
                        assert(self@ == JsonV::Object(sv));
                        assert(self@->Object_0 == sv);
                        assert(decreases_to!(self@ => self@->Object_0));
                        assert(decreases_to!(sv => sv[i as int]));
                        assert(decreases_to!(sv[i as int] => sv[i as int].1));
                        assert(sv[i as int].1 == v@[i as int].1@);
                    }
                    let c = v[i].1.deep_copy();
                    out.push((k, c));
                    i = i + 1;
                }
                proof {
                    lemma_entries_view(out@);
                    assert(entries_view(out@) =~= entries_view(v@));
                }
                Json::Object(out)
            },
        }
    }
}

/// Structural equality of two trees.
pub fn equal(a: &Json, b: &Json) -> (r: bool)
    ensures
        r == tree_eq(a@, b@),
    decreases a@,
{
    match (a, b) {
        (Json::Null, Json::Null) => true,
        (Json::Bool(x), Json::Bool(y)) => *x == *y,
        (Json::UInt(x), Json::UInt(y)) => *x == *y,
        (Json::Int(x), Json::Int(y)) => *x == *y,
        (Json::Float(x), Json::Float(y)) => *x == *y,
        (Json::Str(x), Json::Str(y)) => *x == *y,
        (Json::Array(x), Json::Array(y)) => {
            proof {
                lemma_items_view(x@);
                lemma_items_view(y@);
            }
            if x.len() != y.len() {
                return false;
            }
            let mut i: usize = 0;
            while i < x.len()
                invariant
                    i <= x.len(),
                    a@ == JsonV::Array(items_view(x@)),
                    b@ == JsonV::Array(items_view(y@)),
                    x.len() == y.len(),
                    items_view(x@).len() == x.len(),
                    items_view(y@).len() == y.len(),
                    forall|m: int| 0 <= m < x.len() ==> #[trigger] items_view(x@)[m] == x@[m]@,
                    forall|m: int| 0 <= m < y.len() ==> #[trigger] items_view(y@)[m] == y@[m]@,
                    forall|m: int|
                        #![trigger items_view(x@)[m]]
                        0 <= m < i ==> tree_eq(items_view(x@)[m], items_view(y@)[m]),
                decreases x.len() - i,
            {
                proof {
                    let sv = items_view(x@);
                    assert(a@ == JsonV::Array(sv));
                    assert(a@->Array_0 == sv);
                    assert(decreases_to!(a@ => a@->Array_0));
                    assert(decreases_to!(sv => sv[i as int]));
                    assert(sv[i as int] == x@[i as int]@);
                }
                if !equal(&x[i], &y[i]) {
                    assert(!tree_eq(items_view(x@)[i as int], items_view(y@)[i as int]));
                    return false;
                }
                i = i + 1;
            }
            assert(tree_eq(a@, b@));
            true
        },
        (Json::Object(x), Json::Object(y)) => {
            proof {
                lemma_entries_view(x@);
                lemma_entries_view(y@);
            }
            let ghost xv = entries_view(x@);
            let ghost yv = entries_view(y@);
            let mut j: usize = 0;
            while j < y.len()
                invariant
                    j <= y.len(),
                    a@ == JsonV::Object(xv),
                    b@ == JsonV::Object(yv),
                    xv == entries_view(x@),
                    yv == entries_view(y@),
                    yv.len() == y.len(),
                    forall|m: int| 0 <= m < y.len() ==> #[trigger] yv[m] == (y@[m].0@, y@[m].1@),
                    forall|m: int| 0 <= m < j ==> has_key(xv, #[trigger] yv[m].0),
                decreases y.len() - j,
            {
                if find_key(x, &y[j].0).is_none() {
                    assert(yv[j as int].0 == y@[j as int].0@);
                    return false;
                }
                j = j + 1;
            }
            let mut i: usize = 0;
            while i < x.len()
                invariant
                    i <= x.len(),
                    a@ == JsonV::Object(xv),
                    b@ == JsonV::Object(yv),
                    xv == entries_view(x@),
                    yv == entries_view(y@),
                    xv.len() == x.len(),
                    yv.len() == y.len(),
                    forall|m: int| 0 <= m < x.len() ==> #[trigger] xv[m] == (x@[m].0@, x@[m].1@),
                    forall|m: int| 0 <= m < y.len() ==> #[trigger] yv[m] == (y@[m].0@, y@[m].1@),
                    forall|m: int| 0 <= m < y.len() ==> has_key(xv, #[trigger] yv[m].0),
                    forall|m: int|
                        #![trigger xv[m]]
                        0 <= m < i ==> has_key(yv, xv[m].0) && tree_eq(
                            xv[m].1,
                            value_of(yv, xv[m].0),
                        ),
                decreases x.len() - i,
            {
                match find_key(y, &x[i].0) {
                    None => {
                        return false;
                    },
                    Some(j) => {
                        proof {
                            assert(a@ == JsonV::Object(xv));
                            assert(a@->Object_0 == xv);
                            assert(decreases_to!(a@ => a@->Object_0));
                            assert(decreases_to!(xv => xv[i as int]));
                            assert(decreases_to!(xv[i as int] => xv[i as int].1));
                            assert(xv[i as int].1 == x@[i as int].1@);
                        }
                        proof {
                            lemma_first_key(yv, xv[i as int].0, j as int);
                        }
                        if !equal(&x[i].1, &y[j].1) {
                            assert(!tree_eq(xv[i as int].1, value_of(yv, xv[i as int].0)));
                            return false;
                        }
                    },
                }
                i = i + 1;
            }
            assert(tree_eq(a@, b@));
            true
        },
        _ => false,
    }
}

} // verus!
