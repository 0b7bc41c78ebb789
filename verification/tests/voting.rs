use school_election::results::result;
use school_election::ballot::{already_voted, cast_vote, get_candidates_for_voter, VoteRecord};
use school_election::models::{
    Candidate, CandidateInfo, Election, NewVote, NewVoted, Vote, Voted, VoterInfo, VoterVote,
    GENDER_BOY, GENDER_ELECTION_BOTH, GENDER_ELECTION_BOYS, GENDER_ELECTION_GIRLS, GENDER_GIRL,
};

fn election(id: i32, school_id: i32, name: &str, presidential: bool, genders: i32) -> Election {
    Election { id, school_id, name: name.to_string(), presidential, genders }
}

fn candidate(id: i32, school_id: i32, election_id: i32, class_id: i32, name: &str) -> Candidate {
    Candidate {
        id,
        name: name.to_string(),
        school_id,
        election_id,
        class_id,
        gender: GENDER_BOY,
        symbol: format!("sym-{}", name),
    }
}

fn sample() -> (Vec<Election>, Vec<Candidate>) {
    let elections = vec![
        election(1, 1, "Head boy", true, GENDER_ELECTION_BOYS),
        election(2, 1, "Head girl", true, GENDER_ELECTION_GIRLS),
        election(3, 1, "Class monitor", false, GENDER_ELECTION_BOTH),
        election(4, 2, "Other school", true, GENDER_ELECTION_BOTH),
    ];
    let candidates = vec![
        candidate(10, 1, 1, 7, "Arun"),
        candidate(11, 1, 2, 7, "Bela"),
        candidate(12, 1, 3, 7, "Chitra"),
        candidate(13, 1, 3, 8, "Dev"),
        candidate(14, 2, 4, 7, "Esha"),
    ];
    (elections, candidates)
}

fn info(id: i32, election_name: &str, name: &str) -> CandidateInfo {
    CandidateInfo {
        id,
        election_name: election_name.to_string(),
        name: name.to_string(),
        symbol: format!("sym-{}", name),
    }
}

#[test]
fn boy_of_class_seven_sees_his_ballot() {
    let (elections, candidates) = sample();
    let voter = VoterInfo { student_num: 5, class_id: 7, school_id: 1, gender: GENDER_BOY };
    let r = get_candidates_for_voter(&vec![], &candidates, &elections, &voter);
    assert!(r.success);
    assert_eq!(r.message, "Candidates for given voter");
    assert_eq!(
        r.data.unwrap(),
        vec![info(10, "Head boy", "Arun"), info(12, "Class monitor", "Chitra")]
    );
}

#[test]
fn girl_of_class_eight_sees_her_ballot() {
    let (elections, candidates) = sample();
    let voter = VoterInfo { student_num: 6, class_id: 8, school_id: 1, gender: GENDER_GIRL };
    let r = get_candidates_for_voter(&vec![], &candidates, &elections, &voter);
    assert_eq!(
        r.data.unwrap(),
        vec![info(11, "Head girl", "Bela"), info(13, "Class monitor", "Dev")]
    );
}

#[test]
fn ballot_of_unknown_school_is_empty() {
    let (elections, candidates) = sample();
    let voter = VoterInfo { student_num: 6, class_id: 8, school_id: 99, gender: GENDER_GIRL };
    let r = get_candidates_for_voter(&vec![], &candidates, &elections, &voter);
    assert!(r.success);
    assert_eq!(r.data.unwrap(), vec![]);
}

#[test]
fn candidate_without_election_is_not_on_ballot() {
    let (elections, _) = sample();
    let candidates = vec![candidate(20, 1, 55, 7, "Farah")];
    let voter = VoterInfo { student_num: 1, class_id: 7, school_id: 1, gender: GENDER_BOY };
    let r = get_candidates_for_voter(&vec![], &candidates, &elections, &voter);
    assert_eq!(r.data.unwrap(), vec![]);
}

#[test]
fn voter_who_voted_gets_no_ballot() {
    let (elections, candidates) = sample();
    let voted = vec![Voted { id: 1, voter_num: 5, class_id: 7 }];
    let voter = VoterInfo { student_num: 5, class_id: 7, school_id: 1, gender: GENDER_BOY };
    let r = get_candidates_for_voter(&voted, &candidates, &elections, &voter);
    assert!(!r.success);
    assert_eq!(r.message, "Already voted");
    assert_eq!(r.data, None);
}

#[test]
fn same_number_in_another_class_may_vote() {
    let voted = vec![Voted { id: 1, voter_num: 5, class_id: 7 }];
    assert!(already_voted(&voted, 5, 7));
    assert!(!already_voted(&voted, 5, 8));
    assert!(!already_voted(&voted, 6, 7));
}

#[test]
fn casting_writes_one_row_per_choice() {
    let vote = VoterVote { student_num: 5, class_id: 7, vote_candidate_ids: vec![10, 12, 10] };
    let (r, record) = cast_vote(&vec![], &vote);
    assert!(r.success);
    assert_eq!(r.message, "Voted successfully");
    assert_eq!(r.data, Some(()));
    assert_eq!(
        record,
        Some(VoteRecord {
            votes: vec![
                NewVote { candidate_id: 10 },
                NewVote { candidate_id: 12 },
                NewVote { candidate_id: 10 }
            ],
            voter: NewVoted { voter_num: 5, class_id: 7 },
        })
    );
}

#[test]
fn casting_with_no_choice_still_records_the_voter() {
    let vote = VoterVote { student_num: 5, class_id: 7, vote_candidate_ids: vec![] };
    let (r, record) = cast_vote(&vec![], &vote);
    assert!(r.success);
    let record = record.unwrap();
    assert!(record.votes.is_empty());
    assert_eq!(record.voter, NewVoted { voter_num: 5, class_id: 7 });
}

#[test]
fn student_votes_once() {
    let (elections, candidates) = sample();
    let vote = VoterVote { student_num: 5, class_id: 7, vote_candidate_ids: vec![10] };
    let mut voted: Vec<Voted> = vec![];
    let (first, record) = cast_vote(&voted, &vote);
    assert!(first.success);
    let record = record.unwrap();
    voted.push(Voted { id: 41, voter_num: record.voter.voter_num, class_id: record.voter.class_id });
    let (second, again) = cast_vote(&voted, &vote);
    assert!(!second.success);
    assert_eq!(second.message, "Already voted");
    assert_eq!(second.data, None);
    assert_eq!(again, None);
    let voter = VoterInfo { student_num: 5, class_id: 7, school_id: 1, gender: GENDER_BOY };
    let ballot = get_candidates_for_voter(&voted, &candidates, &elections, &voter);
    assert!(!ballot.success);
}

#[test]
fn counts_grow_by_the_votes_cast() {
    let (_, candidates) = sample();
    let mut votes = vec![Vote { id: 1, candidate_id: 12 }];
    let before = result(&candidates, &votes, 1).data.unwrap();
    let vote = VoterVote { student_num: 5, class_id: 7, vote_candidate_ids: vec![10, 12, 10] };
    let (_, record) = cast_vote(&vec![], &vote);
    for (k, v) in record.unwrap().votes.iter().enumerate() {
        votes.push(Vote { id: 100 + k as i32, candidate_id: v.candidate_id });
    }
    let after = result(&candidates, &votes, 1).data.unwrap();
    let counts_before: Vec<i64> = before.iter().map(|l| l.votes).collect();
    let counts_after: Vec<i64> = after.iter().map(|l| l.votes).collect();
    assert_eq!(counts_before, vec![0, 0, 1, 0]);
    assert_eq!(counts_after, vec![2, 0, 2, 0]);
}
