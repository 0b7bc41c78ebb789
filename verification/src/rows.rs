//! Rows that belong to one school (classes, elections, candidates), the
//! scoping every administrative request goes through, and the facts about
//! sequences those requests rely on.
use vstd::prelude::*;

use crate::models::{Candidate, Election, SchoolClass};

verus! {

broadcast use vstd::seq_lib::group_seq_properties, vstd::seq_lib::group_filter_ensures;

/// A row with an id of its own and the id of the school that owns it.
pub trait OwnedRow: Sized {
    spec fn row_id(&self) -> int;

    spec fn owner_id(&self) -> int;

    fn id(&self) -> (r: i32)
        ensures
            r as int == self.row_id(),
    ;

    fn owner(&self) -> (r: i32)
        ensures
            r as int == self.owner_id(),
    ;

    fn duplicate(&self) -> (r: Self)
        ensures
            r == *self,
    ;
}

impl OwnedRow for SchoolClass {
    open spec fn row_id(&self) -> int {
        self.id as int
    }

    open spec fn owner_id(&self) -> int {
        self.school_id as int
    }

    fn id(&self) -> (r: i32) {
        self.id
    }

    fn owner(&self) -> (r: i32) {
        self.school_id
    }

    fn duplicate(&self) -> (r: Self) {
        self.clone()
    }
}

impl OwnedRow for Election {
    open spec fn row_id(&self) -> int {
        self.id as int
    }

    open spec fn owner_id(&self) -> int {
        self.school_id as int
    }

    fn id(&self) -> (r: i32) {
        self.id
    }

    fn owner(&self) -> (r: i32) {
        self.school_id
    }

    fn duplicate(&self) -> (r: Self) {
        self.clone()
    }
}

impl OwnedRow for Candidate {
    open spec fn row_id(&self) -> int {
        self.id as int
    }

    open spec fn owner_id(&self) -> int {
        self.school_id as int
    }

    fn id(&self) -> (r: i32) {
        self.id
    }

    fn owner(&self) -> (r: i32) {
        self.school_id
    }

    fn duplicate(&self) -> (r: Self) {
        self.clone()
    }
}

/// Whether a row belongs to the school.
pub open spec fn owned_pred<T: OwnedRow>(school_id: int) -> spec_fn(T) -> bool {
    |r: T| r.owner_id() == school_id
}

/// The rows of a table that belong to the school, in table order
/// (`WHERE school_id = ?`).
pub open spec fn owned_by<T: OwnedRow>(rows: Seq<T>, school_id: int) -> Seq<T> {
    rows.filter(owned_pred(school_id))
}

/// Whether a row is the one a request names: its id, owned by the asking school
/// (`WHERE id = ? AND school_id = ?`).
pub open spec fn target_pred<T: OwnedRow>(id: int, school_id: int) -> spec_fn(T) -> bool {
    |r: T| r.row_id() == id && r.owner_id() == school_id
}

/// The first row a request names, if any: what `DELETE`/`UPDATE ... RETURNING`
/// hands back through `get_result`.
pub open spec fn first_target<T: OwnedRow>(rows: Seq<T>, id: int, school_id: int) -> Option<T> {
    let found = rows.filter(target_pred(id, school_id));
    if found.len() > 0 {
        Some(found[0])
    } else {
        None
    }
}

/// Rows listed in strictly increasing id order (as `ORDER BY id` lists a table
/// whose ids are a primary key).
pub open spec fn ids_ascending<T: OwnedRow>(rows: Seq<T>) -> bool {
    forall|i: int, j: int| 0 <= i < j < rows.len() ==> rows[i].row_id() < rows[j].row_id()
}

/// No two rows share an id.
pub open spec fn ids_unique<T: OwnedRow>(rows: Seq<T>) -> bool {
    forall|i: int, j: int|
        0 <= i < rows.len() && 0 <= j < rows.len() && i != j ==> rows[i].row_id()
            != rows[j].row_id()
}

/// A request names a row exactly when the table holds a row with that id owned by
/// the school; the row it names has that id and owner, and no earlier row does.
pub proof fn lemma_first_target_facts<T: OwnedRow>(rows: Seq<T>, id: int, school_id: int)
    ensures
        (first_target(rows, id, school_id) is Some) <==> exists|i: int|
            #![trigger rows[i]]
            0 <= i < rows.len() && rows[i].row_id() == id && rows[i].owner_id() == school_id,
        first_target(rows, id, school_id) matches Some(t) ==> exists|i: int|
            #![trigger rows[i]]
            0 <= i < rows.len() && rows[i] == t && t.row_id() == id && t.owner_id() == school_id
                && (forall|j: int|
                #![trigger rows[j]]
                0 <= j < i ==> !(rows[j].row_id() == id && rows[j].owner_id() == school_id)),
{
    let p = target_pred::<T>(id, school_id);
    if exists|i: int| #![trigger rows[i]] 0 <= i < rows.len() && rows[i].row_id() == id && rows[i].owner_id()
        == school_id {
        let i = choose|i: int|
            #![trigger rows[i]]
            0 <= i < rows.len() && rows[i].row_id() == id && rows[i].owner_id() == school_id;
        rows.lemma_filter_contains(p, i);
    }
    if rows.filter(p).len() > 0 {
        let t = rows.filter(p)[0];
        assert(p(t));
        assert(rows.filter(p).contains(t));
        rows.lemma_filter_contains_rev(p, t);
        let k = choose|k: int| 0 <= k < rows.len() && rows[k] == t;
        lemma_first_index_passing(rows, p, k);
        let f = choose|f: int|
            0 <= f <= k && p(rows[f]) && (forall|j: int| 0 <= j < f ==> !p(#[trigger] rows[j]));
        assert(rows.take(f) .filter(p).len() == 0) by {
            if rows.take(f).filter(p).len() > 0 {
                let e = rows.take(f).filter(p)[0];
                assert(rows.take(f).filter(p).contains(e));
                rows.take(f).lemma_filter_contains_rev(p, e);
                let m = choose|m: int| 0 <= m < rows.take(f).len() && rows.take(f)[m] == e;
                assert(rows[m] == e);
            }
        }
        lemma_filter_first(rows, p, f);
        assert forall|j: int| #![trigger rows[j]] 0 <= j < f implies !(rows[j].row_id() == id
            && rows[j].owner_id() == school_id) by {
            assert(!p(rows[j]));
        }
    }
}

/// Among the elements up to `k` that pass, there is a first one.
proof fn lemma_first_index_passing<A>(s: Seq<A>, p: spec_fn(A) -> bool, k: int)
    requires
        0 <= k < s.len(),
        p(s[k]),
    ensures
        exists|f: int| 0 <= f <= k && p(s[f]) && (forall|j: int| 0 <= j < f ==> !p(#[trigger] s[j])),
    decreases k,
{
    if exists|j: int| 0 <= j < k && p(s[j]) {
        let j = choose|j: int| 0 <= j < k && p(s[j]);
        lemma_first_index_passing(s, p, j);
    } else {
        assert(forall|j: int| 0 <= j < k ==> !p(#[trigger] s[j]));
    }
}

/// The rows of a school are exactly the table's rows owned by the school.
pub proof fn lemma_owned_by_members<T: OwnedRow>(rows: Seq<T>, school_id: int)
    ensures
        forall|x: T|
            #[trigger] owned_by(rows, school_id).contains(x) <==> (rows.contains(x) && x.owner_id()
                == school_id),
{
    let p = owned_pred::<T>(school_id);
    assert forall|x: T|
        #[trigger] owned_by(rows, school_id).contains(x) <==> (rows.contains(x) && x.owner_id()
            == school_id) by {
        if owned_by(rows, school_id).contains(x) {
            let k = choose|k: int| 0 <= k < rows.filter(p).len() && rows.filter(p)[k] == x;
            rows.lemma_filter_pred(p, k);
            rows.lemma_filter_contains_rev(p, x);
        }
        if rows.contains(x) && x.owner_id() == school_id {
            let i = choose|i: int| 0 <= i < rows.len() && rows[i] == x;
            rows.lemma_filter_contains(p, i);
        }
    }
}

/// Rows listed with ids that never go down.
pub open spec fn ids_nondecreasing<T: OwnedRow>(rows: Seq<T>) -> bool {
    forall|i: int, j: int| 0 <= i < j < rows.len() ==> rows[i].row_id() <= rows[j].row_id()
}

/// Whether a row has another id than the given one.
pub open spec fn id_differs<T: OwnedRow>(id: int) -> spec_fn(T) -> bool {
    |r: T| r.row_id() != id
}

/// The table left once the rows with this id are deleted (`DELETE ... WHERE id = ?`).
pub open spec fn without_id<T: OwnedRow>(rows: Seq<T>, id: int) -> Seq<T> {
    rows.filter(id_differs(id))
}

/// Filtering by a predicate that every element passes changes nothing.
pub proof fn lemma_filter_all<A>(s: Seq<A>, p: spec_fn(A) -> bool)
    requires
        forall|i: int| 0 <= i < s.len() ==> #[trigger] p(s[i]),
    ensures
        s.filter(p) == s,
    decreases s.len(),
{
    reveal(Seq::filter);
    if s.len() > 0 {
        let rest = s.drop_last();
        assert forall|i: int| 0 <= i < rest.len() implies #[trigger] p(rest[i]) by {
            assert(rest[i] == s[i]);
        }
        lemma_filter_all(rest, p);
        assert(rest.push(s.last()) =~= s);
    }
}

/// Filtering by two predicates that agree on every element gives the same.
pub proof fn lemma_filter_congruent<A>(s: Seq<A>, p: spec_fn(A) -> bool, q: spec_fn(A) -> bool)
    requires
        forall|i: int| 0 <= i < s.len() ==> #[trigger] p(s[i]) == q(s[i]),
    ensures
        s.filter(p) == s.filter(q),
    decreases s.len(),
{
    reveal(Seq::filter);
    if s.len() > 0 {
        let rest = s.drop_last();
        assert forall|i: int| 0 <= i < rest.len() implies #[trigger] p(rest[i]) == q(rest[i]) by {
            assert(rest[i] == s[i]);
        }
        lemma_filter_congruent(rest, p, q);
        assert(p(s[s.len() - 1]) == q(s[s.len() - 1]));
    }
}

/// Filtering after a map that keeps the predicate is mapping after filtering.
pub proof fn lemma_filter_map_commute<A>(s: Seq<A>, f: spec_fn(A) -> A, p: spec_fn(A) -> bool)
    requires
        forall|x: A| #[trigger] p(f(x)) == p(x),
    ensures
        s.map_values(f).filter(p) == s.filter(p).map_values(f),
    decreases s.len(),
{
    reveal(Seq::filter);
    if s.len() > 0 {
        let rest = s.drop_last();
        lemma_filter_map_commute(rest, f, p);
        assert(s.map_values(f).drop_last() =~= rest.map_values(f));
        assert(s.map_values(f).last() == f(s.last()));
        assert(p(f(s.last())) == p(s.last()));
        if p(s.last()) {
            rest.filter(p).lemma_push_map_commute(f, s.last());
        }
    } else {
        assert(s.map_values(f) =~= s);
    }
}

/// Filtering keeps ids unique.
pub proof fn lemma_filter_unique<T: OwnedRow>(rows: Seq<T>, p: spec_fn(T) -> bool)
    requires
        ids_unique(rows),
    ensures
        ids_unique(rows.filter(p)),
    decreases rows.len(),
{
    reveal(Seq::filter);
    if rows.len() > 0 {
        let rest = rows.drop_last();
        assert(ids_unique(rest)) by {
            assert forall|i: int, j: int|
                0 <= i < rest.len() && 0 <= j < rest.len() && i != j implies rest[i].row_id()
                != rest[j].row_id() by {
                assert(rest[i] == rows[i] && rest[j] == rows[j]);
            }
        }
        lemma_filter_unique(rest, p);
        let sub = rest.filter(p);
        if p(rows.last()) {
            assert forall|k: int| 0 <= k < sub.len() implies sub[k].row_id()
                != rows.last().row_id() by {
                rest.lemma_filter_contains_rev(p, sub[k]);
                let m = choose|m: int| 0 <= m < rest.len() && rest[m] == sub[k];
                assert(rows[m] == rest[m]);
            }
            let out = sub.push(rows.last());
            assert(rows.filter(p) == out);
            assert forall|i: int, j: int|
                0 <= i < out.len() && 0 <= j < out.len() && i != j implies out[i].row_id()
                != out[j].row_id() by {
                if i < sub.len() && j < sub.len() {
                    assert(out[i] == sub[i] && out[j] == sub[j]);
                }
            }
        }
    }
}

/// A reordering of rows with unique ids has unique ids.
pub proof fn lemma_permutation_unique<T: OwnedRow>(a: Seq<T>, b: Seq<T>)
    requires
        ids_unique(a),
        a.to_multiset() == b.to_multiset(),
    ensures
        ids_unique(b),
{
    broadcast use vstd::seq_lib::group_to_multiset_ensures;

    assert(a.no_duplicates()) by {
        assert forall|i: int, j: int|
            0 <= i < a.len() && 0 <= j < a.len() && i != j implies a[i] != a[j] by {
            assert(a[i].row_id() != a[j].row_id());
        }
    }
    a.lemma_multiset_has_no_duplicates();
    b.lemma_multiset_has_no_duplicates_conv();
    assert forall|i: int, j: int|
        0 <= i < b.len() && 0 <= j < b.len() && i != j implies b[i].row_id() != b[j].row_id() by {
        assert(b.contains(b[i]) && b.contains(b[j]));
        assert(a.to_multiset().count(b[i]) > 0);
        assert(a.to_multiset().count(b[j]) > 0);
        assert(a.contains(b[i]) && a.contains(b[j]));
        let m = choose|m: int| 0 <= m < a.len() && a[m] == b[i];
        let n = choose|n: int| 0 <= n < a.len() && a[n] == b[j];
        assert(b[i] != b[j]);
    }
}

/// The first element of a filtered sequence is the first element that passes.
pub proof fn lemma_filter_first<A>(s: Seq<A>, p: spec_fn(A) -> bool, i: int)
    requires
        0 <= i < s.len(),
        s.take(i).filter(p).len() == 0,
        p(s[i]),
    ensures
        s.filter(p).len() > 0,
        s.filter(p)[0] == s[i],
{
    let a = s.take(i + 1);
    let b = s.skip(i + 1);
    assert(s =~= a + b);
    Seq::filter_distributes_over_add(a, b, p);
    s.lemma_take_succ_push(i);
    s.take(i).lemma_filter_push(s[i], p);
}

/// Filtering keeps the order of a sequence sorted by id.
pub proof fn lemma_filter_ascending<T: OwnedRow>(rows: Seq<T>, p: spec_fn(T) -> bool)
    requires
        ids_ascending(rows),
    ensures
        ids_ascending(rows.filter(p)),
    decreases rows.len(),
{
    reveal(Seq::filter);
    if rows.len() > 0 {
        let rest = rows.drop_last();
        assert(ids_ascending(rest));
        lemma_filter_ascending(rest, p);
        let sub = rest.filter(p);
        if p(rows.last()) {
            assert forall|k: int| 0 <= k < sub.len() implies sub[k].row_id()
                < rows.last().row_id() by {
                rest.lemma_filter_contains_rev(p, sub[k]);
                let m = choose|m: int| 0 <= m < rest.len() && rest[m] == sub[k];
                assert(rows[m] == rest[m]);
            }
            assert(rows.filter(p) == sub.push(rows.last()));
        }
    }
}

/// The rows of `rows` that belong to the school, in the same order.
pub fn rows_of_school<T: OwnedRow>(rows: &Vec<T>, school_id: i32) -> (r: Vec<T>)
    ensures
        r@ == owned_by(rows@, school_id as int),
        ids_ascending(rows@) ==> ids_ascending(r@),
{
    let ghost p = owned_pred::<T>(school_id as int);
    let mut out: Vec<T> = Vec::new();
    let mut i: usize = 0;
    while i < rows.len()
        invariant
            i <= rows.len(),
            p == owned_pred::<T>(school_id as int),
            out@ == rows@.take(i as int).filter(p),
        decreases rows.len() - i,
    {
        proof {
            rows@.lemma_take_succ_push(i as int);
            rows@.take(i as int).lemma_filter_push(rows@[i as int], p);
        }
        if rows[i].owner() == school_id {
            let row = rows[i].duplicate();
            out.push(row);
        }
        i += 1;
    }
    proof {
        rows@.lemma_take_len();
        if ids_ascending(rows@) {
            lemma_filter_ascending(rows@, p);
        }
    }
    out
}

/// The rows of `rows` that belong to the school, sorted by id (`ORDER BY id`);
/// rows with equal ids keep their table order.
pub fn sorted_rows_of_school<T: OwnedRow>(rows: &Vec<T>, school_id: i32) -> (r: Vec<T>)
    ensures
        r@.to_multiset() == owned_by(rows@, school_id as int).to_multiset(),
        ids_nondecreasing(r@),
        ids_unique(rows@) ==> ids_ascending(r@),
{
    broadcast use vstd::seq_lib::group_to_multiset_ensures;

    let ghost p = owned_pred::<T>(school_id as int);
    let mut out: Vec<T> = Vec::new();
    let mut i: usize = 0;
    while i < rows.len()
        invariant
            i <= rows.len(),
            p == owned_pred::<T>(school_id as int),
            out@.to_multiset() == rows@.take(i as int).filter(p).to_multiset(),
            ids_nondecreasing(out@),
        decreases rows.len() - i,
    {
        proof {
            rows@.lemma_take_succ_push(i as int);
            rows@.take(i as int).lemma_filter_push(rows@[i as int], p);
        }
        if rows[i].owner() == school_id {
            let key = rows[i].id();
            let mut pos: usize = 0;
            while pos < out.len() && out[pos].id() <= key
                invariant
                    pos <= out.len(),
                    forall|k: int| 0 <= k < pos ==> out@[k].row_id() <= key,
                decreases out.len() - pos,
            {
                pos += 1;
            }
            let row = rows[i].duplicate();
            let ghost before = out@;
            out.insert(pos, row);
            proof {
                before.insert_ensures(pos as int, row);
                assert forall|a: int, b: int| 0 <= a < b < out@.len() implies out@[a].row_id()
                    <= out@[b].row_id() by {
                    if b < pos {
                    } else if b == pos {
                    } else if a < pos {
                        assert(out@[b] == before[b - 1]);
                    } else if a == pos {
                        assert(out@[b] == before[b - 1]);
                        assert(before[pos as int].row_id() > key);
                        assert(before[pos as int].row_id() <= before[b - 1].row_id());
                    } else {
                        assert(out@[a] == before[a - 1]);
                        assert(out@[b] == before[b - 1]);
                    }
                }
            }
        }
        i += 1;
    }
    proof {
        rows@.lemma_take_len();
        if ids_unique(rows@) {
            lemma_filter_unique(rows@, p);
            lemma_permutation_unique(rows@.filter(p), out@);
        }
    }
    out
}

/// The first row with the given id that belongs to the school, if any.
pub fn find_target<T: OwnedRow>(rows: &Vec<T>, id: i32, school_id: i32) -> (r: Option<T>)
    ensures
        r == first_target(rows@, id as int, school_id as int),
{
    let ghost p = target_pred::<T>(id as int, school_id as int);
    let mut i: usize = 0;
    while i < rows.len()
        invariant
            i <= rows.len(),
            p == target_pred::<T>(id as int, school_id as int),
            rows@.take(i as int).filter(p).len() == 0,
        decreases rows.len() - i,
    {
        proof {
            rows@.lemma_take_succ_push(i as int);
            rows@.take(i as int).lemma_filter_push(rows@[i as int], p);
        }
        if rows[i].id() == id && rows[i].owner() == school_id {
            proof {
                lemma_filter_first(rows@, p, i as int);
            }
            return Some(rows[i].duplicate());
        }
        i += 1;
    }
    proof {
        rows@.lemma_take_len();
    }
    None
}

} // verus!
