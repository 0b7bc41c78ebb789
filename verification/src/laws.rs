//! What holds of the election rules across requests: a student votes once,
//! counts grow by the votes cast, clearing resets exactly one school, a school
//! reaches only its own rows, and a ballot is exactly what the voter may vote for.
use vstd::prelude::*;

use crate::admin::{
    after_update_class, after_update_election, class_with_input, class_written,
    election_with_input, election_written,
};
use crate::auth::{claims_for, school_by_email, second_field, space_free};
use crate::ballot::{votes_for, ballot_line, ballot_lines, has_voted, lines_of, may_vote_for, open_for, line_of};
use crate::models::{
    Candidate, CandidateInfo, Election, ElectionInput, School, SchoolClass, SchoolClassInput, Vote,
    Voted, VoterInfo,
};
use crate::results::{
    cleared_votes, cleared_voters, kept_voters, kept_votes, names_candidate, school_candidate,
    result_sheet, school_class, vote_count, vote_ids_unique, vote_of_school, voted_ids_unique, voted_without,
    voter_of_school, votes_without,
};
use crate::rows::{
    first_target, ids_unique, lemma_filter_all, lemma_filter_congruent, lemma_filter_map_commute,
    owned_by, target_pred,
    without_id, OwnedRow,
};

verus! {

broadcast use vstd::seq_lib::group_seq_properties, vstd::seq_lib::group_filter_ensures;

// ----- voting once -----
/// Once the `voted` row a vote writes is stored, whatever id it gets, the
/// student counts as having voted, so a second vote and a second ballot
/// request of the same student are refused.
pub proof fn law_student_votes_once(voted: Seq<Voted>, row_id: i32, voter_num: i32, class_id: i32)
    ensures
        has_voted(voted.push(Voted { id: row_id, voter_num, class_id }), voter_num as int, class_id as int),
{
    let after = voted.push(Voted { id: row_id, voter_num, class_id });
    assert(after[voted.len() as int].voter_num == voter_num);
}

/// Storing more `voted` rows never lets a student vote again.
pub proof fn law_voted_stays_voted(voted: Seq<Voted>, more: Seq<Voted>, voter_num: int, class_id: int)
    requires
        has_voted(voted, voter_num, class_id),
    ensures
        has_voted(voted + more, voter_num, class_id),
{
    let i = choose|i: int|
        0 <= i < voted.len() && voted[i].voter_num == voter_num && voted[i].class_id == class_id;
    assert((voted + more)[i] == voted[i]);
}

// ----- counting -----
/// Whether a chosen candidate id is the given one.
pub open spec fn chosen(candidate_id: int) -> spec_fn(i32) -> bool {
    |x: i32| x as int == candidate_id
}

proof fn lemma_count_added(added: Seq<Vote>, ids: Seq<i32>, candidate_id: int)
    requires
        added.len() == ids.len(),
        forall|k: int| 0 <= k < added.len() ==> added[k].candidate_id == ids[k],
    ensures
        added.filter(names_candidate(candidate_id)).len() == ids.filter(chosen(candidate_id)).len(),
    decreases added.len(),
{
    reveal(Seq::filter);
    if added.len() > 0 {
        lemma_count_added(added.drop_last(), ids.drop_last(), candidate_id);
    }
}

/// Storing the votes of a ballot (one row per chosen candidate id, whatever
/// ids the rows get) raises each candidate's count by the number of times the
/// ballot chose it, and leaves the other counts as they were.
pub proof fn law_votes_add_up(votes: Seq<Vote>, added: Seq<Vote>, ids: Seq<i32>, candidate_id: int)
    requires
        added.len() == ids.len(),
        forall|k: int| 0 <= k < added.len() ==> added[k].candidate_id == ids[k],
    ensures
        vote_count(votes + added, candidate_id) == vote_count(votes, candidate_id) + ids.filter(
            chosen(candidate_id),
        ).len(),
{
    Seq::filter_distributes_over_add(votes, added, names_candidate(candidate_id));
    lemma_count_added(added, ids, candidate_id);
}

// ----- clearing votes -----
proof fn lemma_filter_implied<A>(s: Seq<A>, keep: spec_fn(A) -> bool, q: spec_fn(A) -> bool)
    requires
        forall|x: A| #[trigger] q(x) ==> keep(x),
    ensures
        s.filter(keep).filter(q) == s.filter(q),
    decreases s.len(),
{
    reveal(Seq::filter);
    if s.len() > 0 {
        lemma_filter_implied(s.drop_last(), keep, q);
        let sub = s.drop_last().filter(keep);
        if keep(s.last()) {
            sub.lemma_filter_push(s.last(), q);
        }
    }
}

proof fn lemma_kept_zero_count(
    votes: Seq<Vote>,
    candidates: Seq<Candidate>,
    school_id: int,
    k: int,
)
    requires
        0 <= k < candidates.len(),
        candidates[k].school_id == school_id,
    ensures
        vote_count(kept_votes(votes, candidates, school_id), candidates[k].id as int) == 0,
{
    let kept = kept_votes(votes, candidates, school_id);
    let q = names_candidate(candidates[k].id as int);
    let keep = |v: Vote| !vote_of_school(candidates, school_id)(v);
    if kept.filter(q).len() > 0 {
        let e = kept.filter(q)[0];
        assert(q(e));
        assert(kept.filter(q).contains(e));
        kept.lemma_filter_contains_rev(q, e);
        let m = choose|m: int| 0 <= m < kept.len() && kept[m] == e;
        assert(keep(kept[m]));
        assert(school_candidate(candidates, school_id, e.candidate_id as int));
    }
}

proof fn lemma_kept_frees_voters(
    voted: Seq<Voted>,
    classes: Seq<SchoolClass>,
    school_id: int,
    k: int,
    voter_num: int,
)
    requires
        0 <= k < classes.len(),
        classes[k].school_id == school_id,
    ensures
        !has_voted(kept_voters(voted, classes, school_id), voter_num, classes[k].id as int),
{
    let kept = kept_voters(voted, classes, school_id);
    let keep = |x: Voted| !voter_of_school(classes, school_id)(x);
    if has_voted(kept, voter_num, classes[k].id as int) {
        let i = choose|i: int|
            0 <= i < kept.len() && kept[i].voter_num == voter_num && kept[i].class_id
                == classes[k].id;
        assert(keep(kept[i]));
        assert(school_class(classes, school_id, kept[i].class_id as int));
    }
}

proof fn lemma_kept_spares_counts(
    votes: Seq<Vote>,
    candidates: Seq<Candidate>,
    school_id: int,
    candidate_id: int,
)
    requires
        !school_candidate(candidates, school_id, candidate_id),
    ensures
        vote_count(kept_votes(votes, candidates, school_id), candidate_id) == vote_count(
            votes,
            candidate_id,
        ),
{
    let keep = |v: Vote| !vote_of_school(candidates, school_id)(v);
    lemma_filter_implied(votes, keep, names_candidate(candidate_id));
}

proof fn lemma_kept_spares_voters(
    voted: Seq<Voted>,
    classes: Seq<SchoolClass>,
    school_id: int,
    voter_num: int,
    class_id: int,
)
    requires
        !school_class(classes, school_id, class_id),
    ensures
        has_voted(kept_voters(voted, classes, school_id), voter_num, class_id) == has_voted(
            voted,
            voter_num,
            class_id,
        ),
{
    let kept = kept_voters(voted, classes, school_id);
    let keep = |x: Voted| !voter_of_school(classes, school_id)(x);
    if has_voted(kept, voter_num, class_id) {
        let i = choose|i: int|
            0 <= i < kept.len() && kept[i].voter_num == voter_num && kept[i].class_id == class_id;
        voted.lemma_filter_contains_rev(keep, kept[i]);
    }
    if has_voted(voted, voter_num, class_id) {
        let i = choose|i: int|
            0 <= i < voted.len() && voted[i].voter_num == voter_num && voted[i].class_id
                == class_id;
        assert(keep(voted[i]));
        voted.lemma_filter_contains(keep, i);
        let m = choose|m: int| 0 <= m < kept.len() && kept[m] == voted[i];
    }
}

/// Deleting by id the votes that clearing names leaves exactly the votes clearing
/// keeps, and likewise for the `voted` rows, as long as ids are unique.
pub proof fn law_clearing_leaves_kept_rows(
    votes: Seq<Vote>,
    voted: Seq<Voted>,
    candidates: Seq<Candidate>,
    classes: Seq<SchoolClass>,
    school_id: int,
)
    requires
        vote_ids_unique(votes),
        voted_ids_unique(voted),
    ensures
        votes_without(votes, cleared_votes(votes, candidates, school_id)) == kept_votes(
            votes,
            candidates,
            school_id,
        ),
        voted_without(voted, cleared_voters(voted, classes, school_id)) == kept_voters(
            voted,
            classes,
            school_id,
        ),
{
    let p = vote_of_school(candidates, school_id);
    let gone = votes.filter(p);
    let q1 = |v: Vote| !(exists|k: int| 0 <= k < gone.len() && gone[k].id == v.id);
    let q2 = |v: Vote| !vote_of_school(candidates, school_id)(v);
    assert forall|i: int| 0 <= i < votes.len() implies #[trigger] q1(votes[i]) == q2(votes[i]) by {
        if p(votes[i]) {
            votes.lemma_filter_contains(p, i);
            let k = choose|k: int| 0 <= k < gone.len() && gone[k] == votes[i];
            assert(gone[k].id == votes[i].id);
        }
        if exists|k: int| 0 <= k < gone.len() && gone[k].id == votes[i].id {
            let k = choose|k: int| 0 <= k < gone.len() && gone[k].id == votes[i].id;
            assert(p(gone[k]));
            assert(gone.contains(gone[k]));
            votes.lemma_filter_contains_rev(p, gone[k]);
            let m = choose|m: int| 0 <= m < votes.len() && votes[m] == gone[k];
            assert(m == i);
        }
    }
    lemma_filter_congruent(votes, q1, q2);
    let pv = voter_of_school(classes, school_id);
    let gone_v = voted.filter(pv);
    let r1 = |x: Voted| !(exists|k: int| 0 <= k < gone_v.len() && gone_v[k].id == x.id);
    let r2 = |x: Voted| !voter_of_school(classes, school_id)(x);
    assert forall|i: int| 0 <= i < voted.len() implies #[trigger] r1(voted[i]) == r2(voted[i]) by {
        if pv(voted[i]) {
            voted.lemma_filter_contains(pv, i);
            let k = choose|k: int| 0 <= k < gone_v.len() && gone_v[k] == voted[i];
            assert(gone_v[k].id == voted[i].id);
        }
        if exists|k: int| 0 <= k < gone_v.len() && gone_v[k].id == voted[i].id {
            let k = choose|k: int| 0 <= k < gone_v.len() && gone_v[k].id == voted[i].id;
            assert(pv(gone_v[k]));
            assert(gone_v.contains(gone_v[k]));
            voted.lemma_filter_contains_rev(pv, gone_v[k]);
            let m = choose|m: int| 0 <= m < voted.len() && voted[m] == gone_v[k];
            assert(m == i);
        }
    }
    lemma_filter_congruent(voted, r1, r2);
}

/// Once a school's votes are cleared (the named rows deleted by id), every
/// candidate of the school counts no votes.
pub proof fn law_clearing_zeroes_school(
    votes: Seq<Vote>,
    candidates: Seq<Candidate>,
    school_id: int,
    k: int,
)
    requires
        vote_ids_unique(votes),
        0 <= k < candidates.len(),
        candidates[k].school_id == school_id,
    ensures
        vote_count(votes_without(votes, cleared_votes(votes, candidates, school_id)), candidates[k].id as int) == 0,
{
    law_clearing_leaves_kept_rows(votes, Seq::empty(), candidates, Seq::empty(), school_id);
    lemma_kept_zero_count(votes, candidates, school_id, k);
}

/// Once a school's votes are cleared, every student of one of its classes may
/// vote again.
pub proof fn law_clearing_frees_school_voters(
    voted: Seq<Voted>,
    classes: Seq<SchoolClass>,
    school_id: int,
    k: int,
    voter_num: int,
)
    requires
        voted_ids_unique(voted),
        0 <= k < classes.len(),
        classes[k].school_id == school_id,
    ensures
        !has_voted(voted_without(voted, cleared_voters(voted, classes, school_id)), voter_num, classes[k].id as int),
{
    law_clearing_leaves_kept_rows(Seq::empty(), voted, Seq::empty(), classes, school_id);
    lemma_kept_frees_voters(voted, classes, school_id, k, voter_num);
}

/// Clearing a school's votes leaves the count of every candidate id that is
/// not one of the school's candidates as it was.
pub proof fn law_clearing_spares_other_counts(
    votes: Seq<Vote>,
    candidates: Seq<Candidate>,
    school_id: int,
    candidate_id: int,
)
    requires
        vote_ids_unique(votes),
        !school_candidate(candidates, school_id, candidate_id),
    ensures
        vote_count(votes_without(votes, cleared_votes(votes, candidates, school_id)), candidate_id) == vote_count(votes, candidate_id),
{
    law_clearing_leaves_kept_rows(votes, Seq::empty(), candidates, Seq::empty(), school_id);
    lemma_kept_spares_counts(votes, candidates, school_id, candidate_id);
}

/// Clearing a school's votes leaves the record of every student of a class that
/// is not one of the school's as it was.
pub proof fn law_clearing_spares_other_voters(
    voted: Seq<Voted>,
    classes: Seq<SchoolClass>,
    school_id: int,
    voter_num: int,
    class_id: int,
)
    requires
        voted_ids_unique(voted),
        !school_class(classes, school_id, class_id),
    ensures
        has_voted(voted_without(voted, cleared_voters(voted, classes, school_id)), voter_num, class_id) == has_voted(voted, voter_num, class_id),
{
    law_clearing_leaves_kept_rows(Seq::empty(), voted, Seq::empty(), classes, school_id);
    lemma_kept_spares_voters(voted, classes, school_id, voter_num, class_id);
}

/// Clearing twice: once a school's votes are cleared, clearing again names no
/// row, so it deletes nothing and leaves the tables as they are.
pub proof fn law_clearing_twice_names_nothing(
    votes: Seq<Vote>,
    voted: Seq<Voted>,
    candidates: Seq<Candidate>,
    classes: Seq<SchoolClass>,
    school_id: int,
)
    requires
        vote_ids_unique(votes),
        voted_ids_unique(voted),
    ensures
        ({
            let votes1 = votes_without(votes, cleared_votes(votes, candidates, school_id));
            let voted1 = voted_without(voted, cleared_voters(voted, classes, school_id));
            &&& cleared_votes(votes1, candidates, school_id).len() == 0
            &&& cleared_voters(voted1, classes, school_id).len() == 0
            &&& votes_without(votes1, cleared_votes(votes1, candidates, school_id)) == votes1
            &&& voted_without(voted1, cleared_voters(voted1, classes, school_id)) == voted1
        }),
{
    law_clearing_leaves_kept_rows(votes, voted, candidates, classes, school_id);
    let votes1 = kept_votes(votes, candidates, school_id);
    let voted1 = kept_voters(voted, classes, school_id);
    let p = vote_of_school(candidates, school_id);
    let keep = |v: Vote| !vote_of_school(candidates, school_id)(v);
    if votes1.filter(p).len() > 0 {
        let e = votes1.filter(p)[0];
        assert(votes1.filter(p).contains(e));
        votes1.lemma_filter_contains_rev(p, e);
        let m = choose|m: int| 0 <= m < votes1.len() && votes1[m] == e;
        assert(keep(votes1[m]));
    }
    let pv = voter_of_school(classes, school_id);
    let keep_v = |x: Voted| !voter_of_school(classes, school_id)(x);
    if voted1.filter(pv).len() > 0 {
        let e = voted1.filter(pv)[0];
        assert(voted1.filter(pv).contains(e));
        voted1.lemma_filter_contains_rev(pv, e);
        let m = choose|m: int| 0 <= m < voted1.len() && voted1[m] == e;
        assert(keep_v(voted1[m]));
    }
    let none_v = |v: Vote| !(exists|k: int| 0 <= k < votes1.filter(p).len() && votes1.filter(p)[k].id == v.id);
    lemma_filter_all(votes1, none_v);
    let none_x = |x: Voted| !(exists|k: int| 0 <= k < voted1.filter(pv).len() && voted1.filter(pv)[k].id == x.id);
    lemma_filter_all(voted1, none_x);
}

proof fn lemma_filter_split<A>(s: Seq<A>, p: spec_fn(A) -> bool)
    ensures
        s.filter(p).len() + s.filter(|x: A| !p(x)).len() == s.len(),
    decreases s.len(),
{
    reveal(Seq::filter);
    if s.len() > 0 {
        lemma_filter_split(s.drop_last(), p);
    }
}

/// Clearing removes votes and keeps votes, and nothing else: the rows removed
/// and the rows kept add up to the table.
pub proof fn law_clearing_partitions(
    votes: Seq<Vote>,
    voted: Seq<Voted>,
    candidates: Seq<Candidate>,
    classes: Seq<SchoolClass>,
    school_id: int,
)
    ensures
        cleared_votes(votes, candidates, school_id).len() + kept_votes(
            votes,
            candidates,
            school_id,
        ).len() == votes.len(),
        cleared_voters(voted, classes, school_id).len() + kept_voters(
            voted,
            classes,
            school_id,
        ).len() == voted.len(),
{
    lemma_filter_split(votes, vote_of_school(candidates, school_id));
    lemma_filter_split(voted, voter_of_school(classes, school_id));
    assert(kept_votes(votes, candidates, school_id) == votes.filter(
        |x: Vote| !vote_of_school(candidates, school_id)(x),
    ));
}

// ----- scoping -----
/// A school's listing holds its own rows and nothing else: every listed row is
/// the school's, and every row of the school is listed.
pub proof fn law_listing_is_the_school<T: OwnedRow>(rows: Seq<T>, school_id: int)
    ensures
        forall|k: int|
            0 <= k < owned_by(rows, school_id).len() ==> #[trigger] owned_by(
                rows,
                school_id,
            )[k].owner_id() == school_id,
        forall|k: int|
            0 <= k < rows.len() && rows[k].owner_id() == school_id ==> #[trigger] owned_by(
                rows,
                school_id,
            ).contains(rows[k]),
{
    assert forall|k: int|
        0 <= k < owned_by(rows, school_id).len() implies #[trigger] owned_by(
        rows,
        school_id,
    )[k].owner_id() == school_id by {
        rows.lemma_filter_pred(crate::rows::owned_pred(school_id), k);
    }
    assert forall|k: int| 0 <= k < rows.len() && rows[k].owner_id() == school_id implies #[trigger] owned_by(
        rows,
        school_id,
    ).contains(rows[k]) by {
        rows.lemma_filter_contains(crate::rows::owned_pred(school_id), k);
    }
}

/// A delete or update reaches only a row of the asking school with the id it
/// names; a row of another school with that id is out of its reach.
pub proof fn law_requests_reach_own_rows<T: OwnedRow>(rows: Seq<T>, id: int, school_id: int)
    ensures
        first_target(rows, id, school_id) matches Some(r) ==> r.row_id() == id && r.owner_id()
            == school_id && rows.contains(r),
        (forall|k: int|
            0 <= k < rows.len() ==> !(rows[k].row_id() == id && rows[k].owner_id() == school_id))
            ==> first_target(rows, id, school_id) is None,
{
    let p = target_pred::<T>(id, school_id);
    if rows.filter(p).len() > 0 {
        let r = rows.filter(p)[0];
        assert(p(r));
        assert(rows.filter(p).contains(r));
        rows.lemma_filter_contains_rev(p, r);
    }
}

/// Where ids are unique, a delete or update reaches the school's row with the
/// named id.
pub proof fn law_request_reaches_named_row<T: OwnedRow>(rows: Seq<T>, k: int, school_id: int)
    requires
        ids_unique(rows),
        0 <= k < rows.len(),
        rows[k].owner_id() == school_id,
    ensures
        first_target(rows, rows[k].row_id(), school_id) == Some(rows[k]),
{
    let p = target_pred::<T>(rows[k].row_id(), school_id);
    rows.lemma_filter_contains(p, k);
    let found = rows.filter(p);
    let r = found[0];
    assert(p(r));
    assert(found.contains(r));
    rows.lemma_filter_contains_rev(p, r);
    let m = choose|m: int| 0 <= m < rows.len() && rows[m] == r;
}

// ----- repeating requests -----
/// Deleting twice: once the named row is deleted, a second delete of the same
/// id by the same school finds nothing and is refused.
pub proof fn law_delete_twice_refused<T: OwnedRow>(rows: Seq<T>, id: int, school_id: int)
    ensures
        first_target(without_id(rows, id), id, school_id) is None,
{
    let left = without_id(rows, id);
    let p = crate::rows::id_differs::<T>(id);
    assert forall|k: int| 0 <= k < left.len() implies !(left[k].row_id() == id && left[k].owner_id()
        == school_id) by {
        rows.lemma_filter_pred(p, k);
    }
    law_requests_reach_own_rows(left, id, school_id);
}

/// Adding then deleting: a row just stored under a fresh id for the school is
/// the row a delete of that id names, and deleting it gives back the table as
/// it was before.
pub proof fn law_add_then_delete_restores<T: OwnedRow>(rows: Seq<T>, added: T, school_id: int)
    requires
        forall|k: int| 0 <= k < rows.len() ==> #[trigger] rows[k].row_id() != added.row_id(),
        added.owner_id() == school_id,
    ensures
        first_target(rows.push(added), added.row_id(), school_id) == Some(added),
        without_id(rows.push(added), added.row_id()) == rows,
{
    let p = target_pred::<T>(added.row_id(), school_id);
    law_requests_reach_own_rows(rows, added.row_id(), school_id);
    assert(rows.filter(p).len() == 0) by {
        if rows.filter(p).len() > 0 {
            let r = rows.filter(p)[0];
            assert(p(r));
            assert(rows.filter(p).contains(r));
            rows.lemma_filter_contains_rev(p, r);
        }
    }
    rows.lemma_filter_push(added, p);
    let q = crate::rows::id_differs::<T>(added.row_id());
    lemma_filter_all(rows, q);
    rows.lemma_filter_push(added, q);
}

/// Updating a class twice with the same request: the second update answers as
/// the first did and leaves the table as the first left it.
pub proof fn law_class_update_repeats(
    classes: Seq<SchoolClass>,
    class_id: int,
    school_id: int,
    input: SchoolClassInput,
)
    ensures
        ({
            let after = after_update_class(classes, class_id, school_id, input);
            &&& (first_target(after, class_id, school_id) is Some) == (first_target(
                classes,
                class_id,
                school_id,
            ) is Some)
            &&& first_target(classes, class_id, school_id) is Some ==> class_with_input(
                first_target(after, class_id, school_id)->0,
                input,
            ) == class_with_input(first_target(classes, class_id, school_id)->0, input)
            &&& after_update_class(after, class_id, school_id, input) == after
        }),
{
    let p = target_pred::<SchoolClass>(class_id, school_id);
    match first_target(classes, class_id, school_id) {
        Some(t) => {
            let row = class_with_input(t, input);
            let f = |r: SchoolClass|
                if r.id == row.id {
                    SchoolClass { name: row.name, boys: row.boys, girls: row.girls, ..r }
                } else {
                    r
                };
            assert forall|x: SchoolClass| #[trigger] p(f(x)) == p(x) by {}
            lemma_filter_map_commute(classes, f, p);
            let after = class_written(classes, row);
            assert(after == classes.map_values(f));
            assert(after.filter(p) == classes.filter(p).map_values(f));
            assert(f(t) == row);
            assert(first_target(after, class_id, school_id) == Some(row));
            assert(class_with_input(row, input) == row);
            assert(class_written(after, row) =~= after);
        },
        None => {},
    }
}

/// Updating an election twice with the same request: the second update answers
/// as the first did and leaves the table as the first left it.
pub proof fn law_election_update_repeats(
    elections: Seq<Election>,
    election_id: int,
    school_id: int,
    input: ElectionInput,
)
    ensures
        ({
            let after = after_update_election(elections, election_id, school_id, input);
            &&& (first_target(after, election_id, school_id) is Some) == (first_target(
                elections,
                election_id,
                school_id,
            ) is Some)
            &&& first_target(elections, election_id, school_id) is Some ==> election_with_input(
                first_target(after, election_id, school_id)->0,
                input,
            ) == election_with_input(first_target(elections, election_id, school_id)->0, input)
            &&& after_update_election(after, election_id, school_id, input) == after
        }),
{
    let p = target_pred::<Election>(election_id, school_id);
    match first_target(elections, election_id, school_id) {
        Some(t) => {
            let row = election_with_input(t, input);
            let f = |r: Election|
                if r.id == row.id {
                    Election {
                        name: row.name,
                        presidential: row.presidential,
                        genders: row.genders,
                        ..r
                    }
                } else {
                    r
                };
            assert forall|x: Election| #[trigger] p(f(x)) == p(x) by {}
            lemma_filter_map_commute(elections, f, p);
            let after = election_written(elections, row);
            assert(after == elections.map_values(f));
            assert(after.filter(p) == elections.filter(p).map_values(f));
            assert(f(t) == row);
            assert(first_target(after, election_id, school_id) == Some(row));
            assert(election_with_input(row, input) == row);
            assert(election_written(after, row) =~= after);
        },
        None => {},
    }
}

// ----- logging in -----
/// Right after a school signs up with an email no other school has, logging in
/// with that email finds that school.
pub proof fn law_login_finds_new_school(schools: Seq<School>, school: School)
    requires
        school_by_email(schools, school.email@) is None,
    ensures
        school_by_email(schools.push(school), school.email@) == Some(school),
{
    let p = crate::auth::email_pred(school.email@);
    schools.lemma_filter_push(school, p);
}

// ----- the Authorization header -----
/// A header made of a space-free scheme, one space and a space-free token
/// yields exactly that token.
pub proof fn law_header_round_trip(scheme: Seq<char>, token: Seq<char>, t: Seq<char>)
    requires
        space_free(scheme),
        space_free(token),
    ensures
        second_field(scheme + seq![' '] + token, t) <==> t == token,
{
    let h = scheme + seq![' '] + token;
    let i0 = scheme.len() as int;
    assert(h[i0] == ' ');
    assert(h.take(i0) =~= scheme);
    assert(h.subrange(i0 + 1, i0 + 1 + token.len()) =~= token);
    if second_field(h, t) {
        let i = choose|i: int|
            {
                &&& 0 <= i < h.len()
                &&& h[i] == ' '
                &&& space_free(h.take(i))
                &&& i + 1 + t.len() <= h.len()
                &&& t == h.subrange(i + 1, i + 1 + t.len())
                &&& space_free(t)
                &&& (i + 1 + t.len() == h.len() || h[i + 1 + t.len()] == ' ')
            };
        if i < i0 {
            assert(h[i] == scheme[i]);
        }
        if i > i0 {
            assert(h.take(i)[i0] == ' ');
        }
        assert(i == i0);
        if i + 1 + t.len() < h.len() {
            assert(h[i + 1 + t.len()] == token[t.len() as int]);
        }
        assert(t =~= token);
    }
}

/// A header has at most one second piece: the token read out of it is
/// determined by the header alone.
pub proof fn law_header_piece_unique(h: Seq<char>, t1: Seq<char>, t2: Seq<char>)
    requires
        second_field(h, t1),
        second_field(h, t2),
    ensures
        t1 == t2,
{
    let i1 = choose|i: int|
        {
            &&& 0 <= i < h.len()
            &&& h[i] == ' '
            &&& space_free(h.take(i))
            &&& i + 1 + t1.len() <= h.len()
            &&& t1 == h.subrange(i + 1, i + 1 + t1.len())
            &&& space_free(t1)
            &&& (i + 1 + t1.len() == h.len() || h[i + 1 + t1.len()] == ' ')
        };
    let i2 = choose|i: int|
        {
            &&& 0 <= i < h.len()
            &&& h[i] == ' '
            &&& space_free(h.take(i))
            &&& i + 1 + t2.len() <= h.len()
            &&& t2 == h.subrange(i + 1, i + 1 + t2.len())
            &&& space_free(t2)
            &&& (i + 1 + t2.len() == h.len() || h[i + 1 + t2.len()] == ' ')
        };
    if i1 < i2 {
        assert(h.take(i2)[i1] == ' ');
    }
    if i2 < i1 {
        assert(h.take(i1)[i2] == ' ');
    }
    assert(i1 == i2);
    if t1.len() < t2.len() {
        assert(t2[t1.len() as int] == h[i1 + 1 + t1.len()]);
    }
    if t2.len() < t1.len() {
        assert(t1[t2.len() as int] == h[i1 + 1 + t2.len()]);
    }
    assert(t1 =~= t2);
}

// ----- answers, field by field -----
/// The rows a vote writes are the choices, in order: as many rows as chosen
/// ids, row `k` naming the `k`-th chosen candidate.
pub proof fn law_vote_rows_are_the_choices(ids: Seq<i32>)
    ensures
        votes_for(ids).len() == ids.len(),
        forall|k: int| 0 <= k < ids.len() ==> #[trigger] votes_for(ids)[k].candidate_id == ids[k],
{
}

/// An updated class carries the id and school of the row it replaces and the
/// name and head counts of the request.
pub proof fn law_class_update_sets_request(row: SchoolClass, input: SchoolClassInput)
    ensures
        class_with_input(row, input).id == row.id,
        class_with_input(row, input).school_id == row.school_id,
        class_with_input(row, input).name == input.name,
        class_with_input(row, input).boys == input.boys,
        class_with_input(row, input).girls == input.girls,
{
}

/// An updated election carries the id and school of the row it replaces and
/// the name, kind and genders of the request.
pub proof fn law_election_update_sets_request(row: Election, input: ElectionInput)
    ensures
        election_with_input(row, input).id == row.id,
        election_with_input(row, input).school_id == row.school_id,
        election_with_input(row, input).name == input.name,
        election_with_input(row, input).presidential == input.presidential,
        election_with_input(row, input).genders == input.genders,
{
}

/// The school a login checks is the first row whose email is exactly the
/// given one; when no row has that email, there is none. The claims issued
/// name that school and expire 3600 seconds after `now`.
pub proof fn law_login_checks_exact_email(schools: Seq<School>, email: Seq<char>, now: int)
    ensures
        school_by_email(schools, email) matches Some(s) ==> s.email@ == email && exists|i: int|
            #![trigger schools[i]]
            0 <= i < schools.len() && schools[i] == s && (forall|j: int|
                #![trigger schools[j]]
                0 <= j < i ==> schools[j].email@ != email),
        (school_by_email(schools, email) is None) <==> (forall|j: int|
            #![trigger schools[j]]
            0 <= j < schools.len() ==> schools[j].email@ != email),
        school_by_email(schools, email) matches Some(s) ==> claims_for(s, now).school_id == s.id
            && claims_for(s, now).exp == (now + 3600) as usize,
{
    let p = crate::auth::email_pred(email);
    if exists|j: int| #![trigger schools[j]] 0 <= j < schools.len() && schools[j].email@ == email {
        let j = choose|j: int| #![trigger schools[j]] 0 <= j < schools.len() && schools[j].email@ == email;
        schools.lemma_filter_contains(p, j);
    }
    if schools.filter(p).len() > 0 {
        let t = schools.filter(p)[0];
        assert(p(t));
        assert(schools.filter(p).contains(t));
        schools.lemma_filter_contains_rev(p, t);
        let k = choose|k: int| 0 <= k < schools.len() && schools[k] == t;
        lemma_first_email(schools, email, k);
        let f = choose|f: int|
            0 <= f <= k && schools[f].email@ == email && (forall|j: int|
                #![trigger schools[j]]
                0 <= j < f ==> schools[j].email@ != email);
        assert(schools.take(f).filter(p).len() == 0) by {
            if schools.take(f).filter(p).len() > 0 {
                let e = schools.take(f).filter(p)[0];
                assert(schools.take(f).filter(p).contains(e));
                schools.take(f).lemma_filter_contains_rev(p, e);
                let m = choose|m: int| 0 <= m < schools.take(f).len() && schools.take(f)[m] == e;
                assert(schools[m] == e);
            }
        }
        crate::rows::lemma_filter_first(schools, p, f);
    }
}

proof fn lemma_first_email(schools: Seq<School>, email: Seq<char>, k: int)
    requires
        0 <= k < schools.len(),
        schools[k].email@ == email,
    ensures
        exists|f: int|
            0 <= f <= k && schools[f].email@ == email && (forall|j: int|
                #![trigger schools[j]]
                0 <= j < f ==> schools[j].email@ != email),
    decreases k,
{
    if exists|j: int| 0 <= j < k && #[trigger] schools[j].email@ == email {
        let j = choose|j: int| 0 <= j < k && #[trigger] schools[j].email@ == email;
        lemma_first_email(schools, email, j);
    }
}

/// A school's candidates, field by field: each has the school's id, each is a
/// candidate of the table, and every candidate of the table with the school's
/// id is among them.
pub proof fn law_school_candidates_by_field(candidates: Seq<Candidate>, school_id: int)
    ensures
        forall|k: int|
            0 <= k < owned_by(candidates, school_id).len() ==> #[trigger] owned_by(
                candidates,
                school_id,
            )[k].school_id == school_id && candidates.contains(owned_by(candidates, school_id)[k]),
        forall|i: int|
            0 <= i < candidates.len() && #[trigger] candidates[i].school_id == school_id
                ==> owned_by(candidates, school_id).contains(candidates[i]),
{
    let p = crate::rows::owned_pred::<Candidate>(school_id);
    assert forall|k: int| 0 <= k < owned_by(candidates, school_id).len() implies #[trigger] owned_by(
        candidates,
        school_id,
    )[k].school_id == school_id && candidates.contains(owned_by(candidates, school_id)[k]) by {
        candidates.lemma_filter_pred(p, k);
        assert(candidates.filter(p).contains(candidates.filter(p)[k]));
        candidates.lemma_filter_contains_rev(p, candidates.filter(p)[k]);
    }
    assert forall|i: int|
        0 <= i < candidates.len() && #[trigger] candidates[i].school_id == school_id implies owned_by(
        candidates,
        school_id,
    ).contains(candidates[i]) by {
        candidates.lemma_filter_contains(p, i);
    }
}

/// Each line of a school's result sheet is the matching candidate of the
/// school, with its own id, name, school, class, election and gender, and the
/// number of votes that name it.
pub proof fn law_result_lines_are_candidates(
    candidates: Seq<Candidate>,
    votes: Seq<Vote>,
    school_id: int,
)
    requires
        votes.len() <= i64::MAX,
    ensures
        result_sheet(candidates, votes, school_id).len() == owned_by(candidates, school_id).len(),
        forall|k: int|
            0 <= k < result_sheet(candidates, votes, school_id).len() ==> {
                let c = owned_by(candidates, school_id)[k];
                let line = #[trigger] result_sheet(candidates, votes, school_id)[k];
                &&& line.id == c.id
                &&& line.name == c.name
                &&& line.school_id == c.school_id
                &&& line.class_id == c.class_id
                &&& line.election_id == c.election_id
                &&& line.gender == c.gender
                &&& line.votes == votes.filter(|v: Vote| v.candidate_id == c.id).len()
            },
{
    assert forall|k: int| 0 <= k < result_sheet(candidates, votes, school_id).len() implies {
        let c = owned_by(candidates, school_id)[k];
        let line = #[trigger] result_sheet(candidates, votes, school_id)[k];
        &&& line.id == c.id
        &&& line.name == c.name
        &&& line.school_id == c.school_id
        &&& line.class_id == c.class_id
        &&& line.election_id == c.election_id
        &&& line.gender == c.gender
        &&& line.votes == votes.filter(|v: Vote| v.candidate_id == c.id).len()
    } by {
        let c = owned_by(candidates, school_id)[k];
        assert(names_candidate(c.id as int) =~= (|v: Vote| v.candidate_id == c.id));
        votes.lemma_filter_len(names_candidate(c.id as int));
    }
}

/// Clearing names exactly the votes for a candidate of the school (a
/// candidate row with the school's id and the vote's candidate id), and
/// exactly the `voted` rows of a class of the school.
pub proof fn law_clearing_names_exactly(
    votes: Seq<Vote>,
    voted: Seq<Voted>,
    candidates: Seq<Candidate>,
    classes: Seq<SchoolClass>,
    school_id: int,
)
    ensures
        forall|i: int|
            0 <= i < votes.len() ==> (#[trigger] cleared_votes(votes, candidates, school_id).contains(
                votes[i],
            ) <==> exists|m: int|
                #![trigger candidates[m]]
                0 <= m < candidates.len() && candidates[m].school_id == school_id
                    && candidates[m].id == votes[i].candidate_id),
        forall|k: int|
            0 <= k < cleared_votes(votes, candidates, school_id).len() ==> votes.contains(
                #[trigger] cleared_votes(votes, candidates, school_id)[k],
            ),
        forall|i: int|
            0 <= i < voted.len() ==> (#[trigger] cleared_voters(voted, classes, school_id).contains(
                voted[i],
            ) <==> exists|m: int|
                #![trigger classes[m]]
                0 <= m < classes.len() && classes[m].school_id == school_id && classes[m].id
                    == voted[i].class_id),
        forall|k: int|
            0 <= k < cleared_voters(voted, classes, school_id).len() ==> voted.contains(
                #[trigger] cleared_voters(voted, classes, school_id)[k],
            ),
{
    let p = vote_of_school(candidates, school_id);
    let gone = votes.filter(p);
    assert forall|i: int| 0 <= i < votes.len() implies (#[trigger] gone.contains(votes[i])
        <==> exists|m: int|
        #![trigger candidates[m]]
        0 <= m < candidates.len() && candidates[m].school_id == school_id && candidates[m].id
            == votes[i].candidate_id) by {
        if gone.contains(votes[i]) {
            let n = choose|n: int| 0 <= n < gone.len() && gone[n] == votes[i];
            votes.lemma_filter_pred(p, n);
        }
        if p(votes[i]) {
            votes.lemma_filter_contains(p, i);
        }
    }
    assert forall|k: int| 0 <= k < gone.len() implies votes.contains(#[trigger] gone[k]) by {
        assert(gone.contains(gone[k]));
        votes.lemma_filter_contains_rev(p, gone[k]);
    }
    let q = voter_of_school(classes, school_id);
    let gone_v = voted.filter(q);
    assert forall|i: int| 0 <= i < voted.len() implies (#[trigger] gone_v.contains(voted[i])
        <==> exists|m: int|
        #![trigger classes[m]]
        0 <= m < classes.len() && classes[m].school_id == school_id && classes[m].id
            == voted[i].class_id) by {
        if gone_v.contains(voted[i]) {
            let n = choose|n: int| 0 <= n < gone_v.len() && gone_v[n] == voted[i];
            voted.lemma_filter_pred(q, n);
        }
        if q(voted[i]) {
            voted.lemma_filter_contains(q, i);
        }
    }
    assert forall|k: int| 0 <= k < gone_v.len() implies voted.contains(#[trigger] gone_v[k]) by {
        assert(gone_v.contains(gone_v[k]));
        voted.lemma_filter_contains_rev(q, gone_v[k]);
    }
}

// ----- the ballot -----
proof fn lemma_ballot_member(
    candidates: Seq<Candidate>,
    elections: Seq<Election>,
    v: VoterInfo,
    line: CandidateInfo,
)
    requires
        ballot_lines(candidates, elections, v).contains(line),
    ensures
        exists|i: int, j: int|
            0 <= i < candidates.len() && 0 <= j < elections.len() && may_vote_for(
                candidates[i],
                elections[j],
                v,
            ) && line == ballot_line(candidates[i], elections[j]),
    decreases candidates.len(),
{
    let f = lines_of(elections, v);
    if candidates.len() == 0 {
        assert(candidates.flat_map(f) =~= Seq::<CandidateInfo>::empty()) by {
            assert(candidates.map_values(f) =~= Seq::<Seq<CandidateInfo>>::empty());
            assert(Seq::<Seq<CandidateInfo>>::empty().flatten() =~= Seq::<CandidateInfo>::empty());
        }
    } else {
        let rest = candidates.drop_last();
        let c = candidates.last();
        rest.lemma_flat_map_push(f, c);
        assert(rest.push(c) =~= candidates);
        let head = rest.flat_map(f);
        let tail = f(c);
        let all = head + tail;
        let n = choose|n: int| 0 <= n < all.len() && all[n] == line;
        if n < head.len() {
            assert(head[n] == line);
            lemma_ballot_member(rest, elections, v, line);
            let (i, j) = choose|i: int, j: int|
                0 <= i < rest.len() && 0 <= j < elections.len() && may_vote_for(
                    rest[i],
                    elections[j],
                    v,
                ) && line == ballot_line(rest[i], elections[j]);
            assert(candidates[i] == rest[i]);
        } else {
            let p = open_for(c, v);
            let kept = elections.filter(p);
            let m = n - head.len();
            assert(tail == kept.map_values(line_of(c)));
            assert(tail[m] == ballot_line(c, kept[m]));
            assert(p(kept[m]));
            assert(kept.contains(kept[m]));
            elections.lemma_filter_contains_rev(p, kept[m]);
            let j = choose|j: int| 0 <= j < elections.len() && elections[j] == kept[m];
            assert(candidates[candidates.len() - 1] == c);
        }
    }
}

proof fn lemma_ballot_complete(
    candidates: Seq<Candidate>,
    elections: Seq<Election>,
    v: VoterInfo,
    i: int,
    j: int,
)
    requires
        0 <= i < candidates.len(),
        0 <= j < elections.len(),
        may_vote_for(candidates[i], elections[j], v),
    ensures
        ballot_lines(candidates, elections, v).contains(ballot_line(candidates[i], elections[j])),
    decreases candidates.len(),
{
    let f = lines_of(elections, v);
    let rest = candidates.drop_last();
    let c = candidates.last();
    rest.lemma_flat_map_push(f, c);
    assert(rest.push(c) =~= candidates);
    let head = rest.flat_map(f);
    let line = ballot_line(candidates[i], elections[j]);
    if i < candidates.len() - 1 {
        assert(rest[i] == candidates[i]);
        lemma_ballot_complete(rest, elections, v, i, j);
        let n = choose|n: int| 0 <= n < head.len() && head[n] == line;
        assert((head + f(c))[n] == line);
    } else {
        let p = open_for(c, v);
        let kept = elections.filter(p);
        elections.lemma_filter_contains(p, j);
        let m = choose|m: int| 0 <= m < kept.len() && kept[m] == elections[j];
        let tail = kept.map_values(line_of(c));
        assert(tail[m] == line);
        assert((head + tail)[head.len() + m] == line);
    }
}

/// A voter's ballot lists exactly the pairs of a candidate and the election it
/// stands in where the voter may vote for it: the candidate is of the voter's
/// school, the election is open to both genders (code 2) or to the voter's
/// gender, and the election is school-wide or the candidate is of the voter's
/// class. Each such pair gives the line (candidate id, election name,
/// candidate name, symbol), and every line comes from such a pair.
pub proof fn law_ballot_is_exact(
    candidates: Seq<Candidate>,
    elections: Seq<Election>,
    v: VoterInfo,
)
    ensures
        forall|line: CandidateInfo|
            #[trigger] ballot_lines(candidates, elections, v).contains(line) ==> exists|i: int, j: int|
                {
                    &&& 0 <= i < candidates.len()
                    &&& 0 <= j < elections.len()
                    &&& candidates[i].election_id == elections[j].id
                    &&& candidates[i].school_id == v.school_id
                    &&& (elections[j].genders == 2 || elections[j].genders == v.gender)
                    &&& (elections[j].presidential || candidates[i].class_id == v.class_id)
                    &&& line == CandidateInfo {
                        id: candidates[i].id,
                        election_name: elections[j].name,
                        name: candidates[i].name,
                        symbol: candidates[i].symbol,
                    }
                },
        forall|i: int, j: int|
            0 <= i < candidates.len() && 0 <= j < elections.len() && #[trigger] candidates[i].election_id
                == #[trigger] elections[j].id && candidates[i].school_id == v.school_id && (
            elections[j].genders == 2 || elections[j].genders == v.gender) && (
            elections[j].presidential || candidates[i].class_id == v.class_id) ==> ballot_lines(
                candidates,
                elections,
                v,
            ).contains(
                CandidateInfo {
                    id: candidates[i].id,
                    election_name: elections[j].name,
                    name: candidates[i].name,
                    symbol: candidates[i].symbol,
                },
            ),
{
    assert forall|line: CandidateInfo|
        #[trigger] ballot_lines(candidates, elections, v).contains(line) implies exists|
        i: int,
        j: int,
    |
        {
            &&& 0 <= i < candidates.len()
            &&& 0 <= j < elections.len()
            &&& candidates[i].election_id == elections[j].id
            &&& candidates[i].school_id == v.school_id
            &&& (elections[j].genders == 2 || elections[j].genders == v.gender)
            &&& (elections[j].presidential || candidates[i].class_id == v.class_id)
            &&& line == CandidateInfo {
                id: candidates[i].id,
                election_name: elections[j].name,
                name: candidates[i].name,
                symbol: candidates[i].symbol,
            }
        } by {
        lemma_ballot_member(candidates, elections, v, line);
        let (i, j) = choose|i: int, j: int|
            0 <= i < candidates.len() && 0 <= j < elections.len() && may_vote_for(
                candidates[i],
                elections[j],
                v,
            ) && line == ballot_line(candidates[i], elections[j]);
        assert(may_vote_for(candidates[i], elections[j], v));
    }
    assert forall|i: int, j: int|
        0 <= i < candidates.len() && 0 <= j < elections.len() && #[trigger] candidates[i].election_id
            == #[trigger] elections[j].id && candidates[i].school_id == v.school_id && (
        elections[j].genders == 2 || elections[j].genders == v.gender) && (
        elections[j].presidential || candidates[i].class_id == v.class_id) implies ballot_lines(
        candidates,
        elections,
        v,
    ).contains(
        CandidateInfo {
            id: candidates[i].id,
            election_name: elections[j].name,
            name: candidates[i].name,
            symbol: candidates[i].symbol,
        },
    ) by {
        assert(may_vote_for(candidates[i], elections[j], v));
        lemma_ballot_complete(candidates, elections, v, i, j);
    }
}

} // verus!
