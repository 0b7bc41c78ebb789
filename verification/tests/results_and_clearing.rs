use school_election::ballot::cast_vote;
use school_election::models::{
    Candidate, CandidateResult, SchoolClass, Vote, Voted, VoterVote, GENDER_BOY, GENDER_GIRL,
};
use school_election::results::{count_votes, delete_votes, result, VoteReset};

fn candidate(id: i32, school_id: i32, class_id: i32, name: &str, gender: i32) -> Candidate {
    Candidate {
        id,
        name: name.to_string(),
        school_id,
        election_id: 1,
        class_id,
        gender,
        symbol: "star".to_string(),
    }
}

fn class(id: i32, school_id: i32) -> SchoolClass {
    SchoolClass { id, school_id, name: format!("class {}", id), boys: 10, girls: 12 }
}

fn tables() -> (Vec<Candidate>, Vec<SchoolClass>, Vec<Vote>, Vec<Voted>) {
    let candidates = vec![
        candidate(1, 1, 7, "Arun", GENDER_BOY),
        candidate(2, 2, 9, "Bela", GENDER_GIRL),
        candidate(3, 1, 8, "Chitra", GENDER_GIRL),
    ];
    let classes = vec![class(7, 1), class(8, 1), class(9, 2)];
    let votes = vec![
        Vote { id: 1, candidate_id: 1 },
        Vote { id: 2, candidate_id: 2 },
        Vote { id: 3, candidate_id: 1 },
        Vote { id: 4, candidate_id: 3 },
        Vote { id: 5, candidate_id: 2 },
    ];
    let voted = vec![
        Voted { id: 1, voter_num: 5, class_id: 7 },
        Voted { id: 2, voter_num: 6, class_id: 9 },
        Voted { id: 3, voter_num: 7, class_id: 8 },
    ];
    (candidates, classes, votes, voted)
}

#[test]
fn result_sheet_counts_each_candidate_of_the_school() {
    let (candidates, _, votes, _) = tables();
    let r = result(&candidates, &votes, 1);
    assert!(r.success);
    assert_eq!(r.message, "Results");
    assert_eq!(
        r.data.unwrap(),
        vec![
            CandidateResult {
                id: 1,
                name: "Arun".to_string(),
                school_id: 1,
                class_id: 7,
                election_id: 1,
                gender: GENDER_BOY,
                votes: 2,
            },
            CandidateResult {
                id: 3,
                name: "Chitra".to_string(),
                school_id: 1,
                class_id: 8,
                election_id: 1,
                gender: GENDER_GIRL,
                votes: 1,
            },
        ]
    );
}

#[test]
fn candidate_without_votes_counts_zero() {
    let candidates = vec![candidate(4, 3, 1, "Dev", GENDER_BOY)];
    let r = result(&candidates, &vec![], 3);
    assert_eq!(r.data.unwrap()[0].votes, 0);
    assert_eq!(count_votes(&vec![Vote { id: 1, candidate_id: 5 }], 4), 0);
}

#[test]
fn clearing_names_the_school_rows() {
    let (candidates, classes, votes, voted) = tables();
    let (r, reset) = delete_votes(&candidates, &classes, &votes, &voted, 1);
    assert!(r.success);
    assert_eq!(r.message, "Votes cleared for your school");
    assert_eq!(r.data, None);
    assert_eq!(
        reset,
        VoteReset {
            votes: vec![
                Vote { id: 1, candidate_id: 1 },
                Vote { id: 3, candidate_id: 1 },
                Vote { id: 4, candidate_id: 3 }
            ],
            voters: vec![
                Voted { id: 1, voter_num: 5, class_id: 7 },
                Voted { id: 3, voter_num: 7, class_id: 8 }
            ],
        }
    );
}

#[test]
fn after_clearing_counts_are_zero_and_students_vote_again() {
    let (candidates, classes, votes, voted) = tables();
    let (_, reset) = delete_votes(&candidates, &classes, &votes, &voted, 1);
    let kept_votes: Vec<Vote> = votes.into_iter().filter(|v| !reset.votes.contains(v)).collect();
    let kept_voted: Vec<Voted> = voted.into_iter().filter(|x| !reset.voters.contains(x)).collect();
    let sheet = result(&candidates, &kept_votes, 1).data.unwrap();
    assert!(sheet.iter().all(|line| line.votes == 0));
    let other = result(&candidates, &kept_votes, 2).data.unwrap();
    assert_eq!(other[0].votes, 2);
    let again = VoterVote { student_num: 5, class_id: 7, vote_candidate_ids: vec![1] };
    assert!(cast_vote(&kept_voted, &again).0.success);
    let other_voter = VoterVote { student_num: 6, class_id: 9, vote_candidate_ids: vec![2] };
    assert!(!cast_vote(&kept_voted, &other_voter).0.success);
}

#[test]
fn clearing_a_school_without_votes_removes_nothing() {
    let (candidates, classes, votes, voted) = tables();
    let (r, reset) = delete_votes(&candidates, &classes, &votes, &voted, 42);
    assert!(r.success);
    assert!(reset.votes.is_empty());
    assert!(reset.voters.is_empty());
}

#[test]
fn clearing_twice_names_nothing() {
    let (candidates, classes, votes, voted) = tables();
    let (_, reset) = delete_votes(&candidates, &classes, &votes, &voted, 1);
    let votes1: Vec<Vote> =
        votes.into_iter().filter(|v| !reset.votes.iter().any(|g| g.id == v.id)).collect();
    let voted1: Vec<Voted> =
        voted.into_iter().filter(|x| !reset.voters.iter().any(|g| g.id == x.id)).collect();
    assert_eq!(votes1, vec![Vote { id: 2, candidate_id: 2 }, Vote { id: 5, candidate_id: 2 }]);
    assert_eq!(voted1, vec![Voted { id: 2, voter_num: 6, class_id: 9 }]);
    let (r2, reset2) = delete_votes(&candidates, &classes, &votes1, &voted1, 1);
    assert!(r2.success);
    assert!(reset2.votes.is_empty());
    assert!(reset2.voters.is_empty());
}
