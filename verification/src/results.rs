//! Counting the votes of a school's candidates, and clearing a school's votes.
use vstd::prelude::*;

use crate::models::{
    success, Candidate, CandidateResult, Response, SchoolClass, Vote, Voted,
};
use crate::rows::{owned_by, owned_pred};

verus! {

broadcast use vstd::seq_lib::group_seq_properties, vstd::seq_lib::group_filter_ensures;

/// Whether a vote names the candidate.
pub open spec fn names_candidate(candidate_id: int) -> spec_fn(Vote) -> bool {
    |v: Vote| v.candidate_id == candidate_id
}

/// The number of votes cast for a candidate (`COUNT(votes.id)` of its group).
pub open spec fn vote_count(votes: Seq<Vote>, candidate_id: int) -> nat {
    votes.filter(names_candidate(candidate_id)).len()
}

/// A candidate's line of the result sheet.
pub open spec fn result_line(c: Candidate, votes: Seq<Vote>) -> CandidateResult {
    CandidateResult {
        id: c.id,
        name: c.name,
        school_id: c.school_id,
        class_id: c.class_id,
        election_id: c.election_id,
        gender: c.gender,
        votes: vote_count(votes, c.id as int) as i64,
    }
}

/// The line of a candidate, as a function of the candidate.
pub open spec fn line_for(votes: Seq<Vote>) -> spec_fn(Candidate) -> CandidateResult {
    |c: Candidate| result_line(c, votes)
}

/// The result sheet of a school: every candidate of the school with its vote
/// count, in table order.
pub open spec fn result_sheet(candidates: Seq<Candidate>, votes: Seq<Vote>, school_id: int) -> Seq<
    CandidateResult,
> {
    owned_by(candidates, school_id).map_values(line_for(votes))
}

/// The number of votes cast for a candidate.
pub fn count_votes(votes: &Vec<Vote>, candidate_id: i32) -> (n: usize)
    ensures
        n == vote_count(votes@, candidate_id as int),
        n == votes@.filter(|v: Vote| v.candidate_id == candidate_id).len(),
{
    let ghost p = names_candidate(candidate_id as int);
    let mut n: usize = 0;
    let mut i: usize = 0;
    while i < votes.len()
        invariant
            i <= votes.len(),
            p == names_candidate(candidate_id as int),
            n == votes@.take(i as int).filter(p).len(),
            n <= i,
        decreases votes.len() - i,
    {
        proof {
            votes@.lemma_take_succ_push(i as int);
            votes@.take(i as int).lemma_filter_push(votes@[i as int], p);
        }
        if votes[i].candidate_id == candidate_id {
            n += 1;
        }
        i += 1;
    }
    proof {
        votes@.lemma_take_len();
        assert(names_candidate(candidate_id as int) =~= (|v: Vote| v.candidate_id == candidate_id));
    }
    n
}

/// The result sheet of the school: each of its candidates with the number of
/// votes cast for it.
pub fn result(candidates: &Vec<Candidate>, votes: &Vec<Vote>, school_id: i32) -> (r: Response<
    Vec<CandidateResult>,
>)
    requires
        votes@.len() <= i64::MAX,
    ensures
        r.success,
        r.message@ == "Results"@,
        r.data is Some,
        r.data->0@ == result_sheet(candidates@, votes@, school_id as int),
        r.data->0@.len() == owned_by(candidates@, school_id as int).len(),
        forall|k: int|
            0 <= k < r.data->0@.len() ==> {
                let c = owned_by(candidates@, school_id as int)[k];
                let line = #[trigger] r.data->0@[k];
                &&& line.id == c.id
                &&& line.name == c.name
                &&& line.school_id == c.school_id
                &&& line.class_id == c.class_id
                &&& line.election_id == c.election_id
                &&& line.gender == c.gender
                &&& line.votes == votes@.filter(|v: Vote| v.candidate_id == c.id).len()
            },
{
    let ghost p = owned_pred::<Candidate>(school_id as int);
    let ghost f = line_for(votes@);
    let mut out: Vec<CandidateResult> = Vec::new();
    let mut i: usize = 0;
    while i < candidates.len()
        invariant
            i <= candidates.len(),
            votes@.len() <= i64::MAX,
            p == owned_pred::<Candidate>(school_id as int),
            f == line_for(votes@),
            out@ == candidates@.take(i as int).filter(p).map_values(f),
        decreases candidates.len() - i,
    {
        let c = &candidates[i];
        proof {
            candidates@.lemma_take_succ_push(i as int);
            candidates@.take(i as int).lemma_filter_push(candidates@[i as int], p);
            candidates@.take(i as int).filter(p).lemma_push_map_commute(f, candidates@[i as int]);
        }
        if c.school_id == school_id {
            let n = count_votes(votes, c.id);
            proof {
                votes@.lemma_filter_len(names_candidate(c.id as int));
            }
            let line = CandidateResult {
                id: c.id,
                name: c.name.clone(),
                school_id: c.school_id,
                class_id: c.class_id,
                election_id: c.election_id,
                gender: c.gender,
                votes: n as i64,
            };
            out.push(line);
        }
        i += 1;
    }
    proof {
        candidates@.lemma_take_len();
        let owned = owned_by(candidates@, school_id as int);
        assert forall|k: int| 0 <= k < out@.len() implies {
            let c = owned[k];
            let line = #[trigger] out@[k];
            &&& line.id == c.id
            &&& line.name == c.name
            &&& line.school_id == c.school_id
            &&& line.class_id == c.class_id
            &&& line.election_id == c.election_id
            &&& line.gender == c.gender
            &&& line.votes == votes@.filter(|v: Vote| v.candidate_id == c.id).len()
        } by {
            let c = owned[k];
            assert(names_candidate(c.id as int) =~= (|v: Vote| v.candidate_id == c.id));
            votes@.lemma_filter_len(names_candidate(c.id as int));
        }
    }
    success("Results", out)
}

/// Whether a candidate id is the id of a candidate of the school.
pub open spec fn school_candidate(candidates: Seq<Candidate>, school_id: int, candidate_id: int) -> bool {
    exists|k: int|
        0 <= k < candidates.len() && candidates[k].school_id == school_id && candidates[k].id
            == candidate_id
}

/// Whether a class id is the id of a class of the school.
pub open spec fn school_class(classes: Seq<SchoolClass>, school_id: int, class_id: int) -> bool {
    exists|k: int|
        0 <= k < classes.len() && classes[k].school_id == school_id && classes[k].id == class_id
}

/// Whether a vote is for a candidate of the school.
pub open spec fn vote_of_school(candidates: Seq<Candidate>, school_id: int) -> spec_fn(Vote) -> bool {
    |v: Vote| school_candidate(candidates, school_id, v.candidate_id as int)
}

/// Whether a `voted` row is for a class of the school.
pub open spec fn voter_of_school(classes: Seq<SchoolClass>, school_id: int) -> spec_fn(
    Voted,
) -> bool {
    |x: Voted| school_class(classes, school_id, x.class_id as int)
}

/// The votes clearing removes: those for a candidate of the school.
pub open spec fn cleared_votes(votes: Seq<Vote>, candidates: Seq<Candidate>, school_id: int) -> Seq<
    Vote,
> {
    votes.filter(vote_of_school(candidates, school_id))
}

/// The `voted` rows clearing removes: those for a class of the school.
pub open spec fn cleared_voters(voted: Seq<Voted>, classes: Seq<SchoolClass>, school_id: int) -> Seq<
    Voted,
> {
    voted.filter(voter_of_school(classes, school_id))
}

/// The votes left once a school's votes are cleared.
pub open spec fn kept_votes(votes: Seq<Vote>, candidates: Seq<Candidate>, school_id: int) -> Seq<
    Vote,
> {
    votes.filter(|v: Vote| !vote_of_school(candidates, school_id)(v))
}

/// The `voted` rows left once a school's votes are cleared.
pub open spec fn kept_voters(voted: Seq<Voted>, classes: Seq<SchoolClass>, school_id: int) -> Seq<
    Voted,
> {
    voted.filter(|x: Voted| !voter_of_school(classes, school_id)(x))
}

/// No two votes share an id (the `votes` primary key).
pub open spec fn vote_ids_unique(votes: Seq<Vote>) -> bool {
    forall|i: int, j: int|
        0 <= i < votes.len() && 0 <= j < votes.len() && i != j ==> votes[i].id != votes[j].id
}

/// No two `voted` rows share an id (the `voted` primary key).
pub open spec fn voted_ids_unique(voted: Seq<Voted>) -> bool {
    forall|i: int, j: int|
        0 <= i < voted.len() && 0 <= j < voted.len() && i != j ==> voted[i].id != voted[j].id
}

/// The votes left once the rows of `gone` are deleted by id
/// (`DELETE FROM votes WHERE id IN (...)`).
pub open spec fn votes_without(votes: Seq<Vote>, gone: Seq<Vote>) -> Seq<Vote> {
    votes.filter(|v: Vote| !(exists|k: int| 0 <= k < gone.len() && gone[k].id == v.id))
}

/// The `voted` rows left once the rows of `gone` are deleted by id
/// (`DELETE FROM voted WHERE id IN (...)`).
pub open spec fn voted_without(voted: Seq<Voted>, gone: Seq<Voted>) -> Seq<Voted> {
    voted.filter(|x: Voted| !(exists|k: int| 0 <= k < gone.len() && gone[k].id == x.id))
}

/// The rows that clearing a school's votes removes.
#[derive(Debug, PartialEq, Eq)]
pub struct VoteReset {
    pub votes: Vec<Vote>,
    pub voters: Vec<Voted>,
}

fn is_school_candidate(candidates: &Vec<Candidate>, school_id: i32, candidate_id: i32) -> (r: bool)
    ensures
        r == school_candidate(candidates@, school_id as int, candidate_id as int),
{
    let mut k: usize = 0;
    while k < candidates.len()
        invariant
            k <= candidates.len(),
            forall|m: int|
                0 <= m < k ==> !(candidates@[m].school_id == school_id && candidates@[m].id
                    == candidate_id),
        decreases candidates.len() - k,
    {
        if candidates[k].school_id == school_id && candidates[k].id == candidate_id {
            return true;
        }
        k += 1;
    }
    false
}

fn is_school_class(classes: &Vec<SchoolClass>, school_id: i32, class_id: i32) -> (r: bool)
    ensures
        r == school_class(classes@, school_id as int, class_id as int),
{
    let mut k: usize = 0;
    while k < classes.len()
        invariant
            k <= classes.len(),
            forall|m: int|
                0 <= m < k ==> !(classes@[m].school_id == school_id && classes@[m].id == class_id),
        decreases classes.len() - k,
    {
        if classes[k].school_id == school_id && classes[k].id == class_id {
            return true;
        }
        k += 1;
    }
    false
}

/// Clearing the school's votes: the votes for its candidates and the `voted`
/// rows of its classes, to remove, and the answer to give once they are gone.
pub fn delete_votes(
    candidates: &Vec<Candidate>,
    classes: &Vec<SchoolClass>,
    votes: &Vec<Vote>,
    voted: &Vec<Voted>,
    school_id: i32,
) -> (r: (Response<()>, VoteReset))
    ensures
        r.0.success,
        r.0.message@ == "Votes cleared for your school"@,
        r.0.data is None,
        r.1.votes@ == cleared_votes(votes@, candidates@, school_id as int),
        r.1.voters@ == cleared_voters(voted@, classes@, school_id as int),
        forall|i: int|
            0 <= i < votes@.len() ==> (#[trigger] r.1.votes@.contains(votes@[i]) <==> exists|m: int|
                #![trigger candidates@[m]]
                0 <= m < candidates@.len() && candidates@[m].school_id == school_id
                    && candidates@[m].id == votes@[i].candidate_id),
        forall|k: int| 0 <= k < r.1.votes@.len() ==> votes@.contains(#[trigger] r.1.votes@[k]),
        forall|i: int|
            0 <= i < voted@.len() ==> (#[trigger] r.1.voters@.contains(voted@[i]) <==> exists|m: int|
                #![trigger classes@[m]]
                0 <= m < classes@.len() && classes@[m].school_id == school_id && classes@[m].id
                    == voted@[i].class_id),
        forall|k: int| 0 <= k < r.1.voters@.len() ==> voted@.contains(#[trigger] r.1.voters@[k]),
{
    proof {
        crate::laws::law_clearing_names_exactly(
            votes@,
            voted@,
            candidates@,
            classes@,
            school_id as int,
        );
    }
    let ghost p = vote_of_school(candidates@, school_id as int);
    let mut gone: Vec<Vote> = Vec::new();
    let mut i: usize = 0;
    while i < votes.len()
        invariant
            i <= votes.len(),
            p == vote_of_school(candidates@, school_id as int),
            gone@ == votes@.take(i as int).filter(p),
        decreases votes.len() - i,
    {
        proof {
            votes@.lemma_take_succ_push(i as int);
            votes@.take(i as int).lemma_filter_push(votes@[i as int], p);
        }
        if is_school_candidate(candidates, school_id, votes[i].candidate_id) {
            gone.push(votes[i]);
        }
        i += 1;
    }
    proof {
        votes@.lemma_take_len();
    }
    let ghost q = voter_of_school(classes@, school_id as int);
    let mut gone_voters: Vec<Voted> = Vec::new();
    let mut j: usize = 0;
    while j < voted.len()
        invariant
            j <= voted.len(),
            q == voter_of_school(classes@, school_id as int),
            gone_voters@ == voted@.take(j as int).filter(q),
        decreases voted.len() - j,
    {
        proof {
            voted@.lemma_take_succ_push(j as int);
            voted@.take(j as int).lemma_filter_push(voted@[j as int], q);
        }
        if is_school_class(classes, school_id, voted[j].class_id) {
            gone_voters.push(voted[j]);
        }
        j += 1;
    }
    proof {
        voted@.lemma_take_len();
    }
    let response = Response {
        success: true,
        message: String::from_str("Votes cleared for your school"),
        data: None,
    };
    (response, VoteReset { votes: gone, voters: gone_voters })
}

} // verus!
