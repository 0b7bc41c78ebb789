//! Voting: which candidates a student may vote for, and how a student's votes
//! are recorded. A student (by number and class) votes at most once.
use vstd::prelude::*;

use crate::models::{
    failure, success, Candidate, CandidateInfo, Election, NewVote, NewVoted, Response, Voted,
    VoterInfo, VoterVote, GENDER_ELECTION_BOTH,
};

verus! {

broadcast use vstd::seq_lib::group_seq_properties, vstd::seq_lib::group_filter_ensures;

/// Whether the `voted` table records that student `voter_num` of class `class_id`
/// has voted.
pub open spec fn has_voted(voted: Seq<Voted>, voter_num: int, class_id: int) -> bool {
    exists|i: int|
        0 <= i < voted.len() && voted[i].voter_num == voter_num && voted[i].class_id == class_id
}

/// Whether student `voter_num` of class `class_id` has voted already.
pub fn already_voted(voted: &Vec<Voted>, voter_num: i32, class_id: i32) -> (r: bool)
    ensures
        r == has_voted(voted@, voter_num as int, class_id as int),
{
    let mut i: usize = 0;
    while i < voted.len()
        invariant
            i <= voted.len(),
            forall|k: int|
                0 <= k < i ==> !(voted@[k].voter_num == voter_num && voted@[k].class_id
                    == class_id),
        decreases voted.len() - i,
    {
        if voted[i].voter_num == voter_num && voted[i].class_id == class_id {
            return true;
        }
        i += 1;
    }
    false
}

/// Whether the voter may vote for candidate `c` standing in election `e`: the
/// candidate stands in that election and belongs to the voter's school, the
/// election is open to the voter's gender (or to all), and it is school-wide
/// (presidential) or the candidate is of the voter's class.
pub open spec fn may_vote_for(c: Candidate, e: Election, v: VoterInfo) -> bool {
    &&& c.election_id == e.id
    &&& c.school_id == v.school_id
    &&& (e.genders == GENDER_ELECTION_BOTH || e.genders == v.gender)
    &&& (e.presidential || c.class_id == v.class_id)
}

/// The ballot line for candidate `c` in election `e`.
pub open spec fn ballot_line(c: Candidate, e: Election) -> CandidateInfo {
    CandidateInfo { id: c.id, election_name: e.name, name: c.name, symbol: c.symbol }
}

/// The elections in which the voter may vote for `c`.
pub open spec fn open_for(c: Candidate, v: VoterInfo) -> spec_fn(Election) -> bool {
    |e: Election| may_vote_for(c, e, v)
}

/// The ballot line of `c` in a given election.
pub open spec fn line_of(c: Candidate) -> spec_fn(Election) -> CandidateInfo {
    |e: Election| ballot_line(c, e)
}

/// The ballot lines of one candidate: one per election it may be voted for in.
pub open spec fn lines_of(elections: Seq<Election>, v: VoterInfo) -> spec_fn(Candidate) -> Seq<
    CandidateInfo,
> {
    |c: Candidate| elections.filter(open_for(c, v)).map_values(line_of(c))
}

/// The voter's ballot: the join of candidates and elections on the candidate's
/// election, kept where the voter may vote, candidate by candidate.
pub open spec fn ballot_lines(
    candidates: Seq<Candidate>,
    elections: Seq<Election>,
    v: VoterInfo,
) -> Seq<CandidateInfo> {
    candidates.flat_map(lines_of(elections, v))
}

fn may_vote(c: &Candidate, e: &Election, v: &VoterInfo) -> (r: bool)
    ensures
        r == may_vote_for(*c, *e, *v),
{
    c.election_id == e.id && c.school_id == v.school_id && (e.genders == GENDER_ELECTION_BOTH
        || e.genders == v.gender) && (e.presidential || c.class_id == v.class_id)
}

/// The candidates a student may vote for; refused if the student has voted.
pub fn get_candidates_for_voter(
    voted: &Vec<Voted>,
    candidates: &Vec<Candidate>,
    elections: &Vec<Election>,
    voter: &VoterInfo,
) -> (r: Response<Vec<CandidateInfo>>)
    ensures
        has_voted(voted@, voter.student_num as int, voter.class_id as int) ==> {
            &&& !r.success
            &&& r.message@ == "Already voted"@
            &&& r.data is None
        },
        !has_voted(voted@, voter.student_num as int, voter.class_id as int) ==> {
            &&& r.success
            &&& r.message@ == "Candidates for given voter"@
            &&& r.data is Some
            &&& r.data->0@ == ballot_lines(candidates@, elections@, *voter)
        },
        r.success <==> !exists|i: int|
            #![trigger voted@[i]]
            0 <= i < voted@.len() && voted@[i].voter_num == voter.student_num && voted@[i].class_id
                == voter.class_id,
{
    if already_voted(voted, voter.student_num, voter.class_id) {
        return failure("Already voted");
    }
    let ghost f = lines_of(elections@, *voter);
    let mut out: Vec<CandidateInfo> = Vec::new();
    let mut i: usize = 0;
    while i < candidates.len()
        invariant
            i <= candidates.len(),
            f == lines_of(elections@, *voter),
            out@ == candidates@.take(i as int).flat_map(f),
        decreases candidates.len() - i,
    {
        let c = &candidates[i];
        let ghost p = open_for(*c, *voter);
        let ghost g = line_of(*c);
        let ghost before = out@;
        proof {
            assert(elections@.take(0).filter(p) =~= Seq::<Election>::empty()) by {
                reveal(Seq::filter);
            }
            assert(out@ =~= before + elections@.take(0).filter(p).map_values(g));
        }
        let mut j: usize = 0;
        while j < elections.len()
            invariant
                j <= elections.len(),
                i < candidates.len(),
                *c == candidates@[i as int],
                p == open_for(*c, *voter),
                g == line_of(*c),
                out@ == before + elections@.take(j as int).filter(p).map_values(g),
            decreases elections.len() - j,
        {
            let e = &elections[j];
            proof {
                elections@.lemma_take_succ_push(j as int);
                elections@.take(j as int).lemma_filter_push(elections@[j as int], p);
                elections@.take(j as int).filter(p).lemma_push_map_commute(g, elections@[j as int]);
            }
            if may_vote(c, e, voter) {
                let line = CandidateInfo {
                    id: c.id,
                    election_name: e.name.clone(),
                    name: c.name.clone(),
                    symbol: c.symbol.clone(),
                };
                out.push(line);
                proof {
                    assert(out@ =~= before + elections@.take(j as int + 1).filter(p).map_values(g));
                }
            }
            j += 1;
        }
        proof {
            elections@.lemma_take_len();
            candidates@.lemma_flat_map_take_append(f, i as int);
            assert(f(candidates@[i as int]) == elections@.filter(p).map_values(g));
        }
        i += 1;
    }
    proof {
        candidates@.lemma_take_len();
    }
    success("Candidates for given voter", out)
}

/// The rows a vote writes: one `votes` row per chosen candidate and the
/// `voted` row for the student.
#[derive(Debug, PartialEq, Eq)]
pub struct VoteRecord {
    pub votes: Vec<NewVote>,
    pub voter: NewVoted,
}

/// One `votes` row per chosen candidate id, in the order chosen.
pub open spec fn votes_for(ids: Seq<i32>) -> Seq<NewVote> {
    ids.map_values(|id: i32| NewVote { candidate_id: id })
}

/// Casting a student's votes: refused if the student has voted; otherwise the
/// rows to write (every chosen candidate id, as given, and the student's
/// `voted` row) and the answer to give once they are written.
pub fn cast_vote(voted: &Vec<Voted>, vote: &VoterVote) -> (r: (Response<()>, Option<VoteRecord>))
    ensures
        has_voted(voted@, vote.student_num as int, vote.class_id as int) ==> {
            &&& !r.0.success
            &&& r.0.message@ == "Already voted"@
            &&& r.0.data is None
            &&& r.1 is None
        },
        !has_voted(voted@, vote.student_num as int, vote.class_id as int) ==> {
            &&& r.0.success
            &&& r.0.message@ == "Voted successfully"@
            &&& r.0.data == Some(())
            &&& r.1 is Some
            &&& r.1->0.votes@ == votes_for(vote.vote_candidate_ids@)
            &&& r.1->0.voter == NewVoted { voter_num: vote.student_num, class_id: vote.class_id }
        },
        r.0.success <==> !exists|i: int|
            #![trigger voted@[i]]
            0 <= i < voted@.len() && voted@[i].voter_num == vote.student_num && voted@[i].class_id
                == vote.class_id,
        r.0.success ==> r.1 is Some && r.1->0.votes@.len() == vote.vote_candidate_ids@.len() && (
        forall|k: int|
            0 <= k < vote.vote_candidate_ids@.len() ==> #[trigger] r.1->0.votes@[k].candidate_id
                == vote.vote_candidate_ids@[k]),
        !r.0.success ==> r.1 is None,
{
    if already_voted(voted, vote.student_num, vote.class_id) {
        return (failure("Already voted"), None);
    }
    let ids = &vote.vote_candidate_ids;
    let mut rows: Vec<NewVote> = Vec::new();
    let mut i: usize = 0;
    while i < ids.len()
        invariant
            i <= ids.len(),
            rows@ == votes_for(ids@.take(i as int)),
        decreases ids.len() - i,
    {
        proof {
            ids@.lemma_take_succ_push(i as int);
            ids@.take(i as int).lemma_push_map_commute(
                |id: i32| NewVote { candidate_id: id },
                ids@[i as int],
            );
        }
        rows.push(NewVote { candidate_id: ids[i] });
        i += 1;
    }
    proof {
        ids@.lemma_take_len();
    }
    let record = VoteRecord {
        votes: rows,
        voter: NewVoted { voter_num: vote.student_num, class_id: vote.class_id },
    };
    (success("Voted successfully", ()), Some(record))
}

} // verus!
