use school_election::admin::{
    add_candidate, add_class, add_election, candidate_added, class_added, delete_candidate,
    delete_class, delete_election, election_added, get_candidates, get_classes, get_elections,
    knows_school, profile, signup, update_class, update_election,
};
use school_election::models::{
    Candidate, CandidateInput, Election, ElectionGender, ElectionInput, Gender, NewCandidate,
    NewElection, NewSchoolClass, School, SchoolClass, SchoolClassInput, GENDER_ELECTION_BOTH,
};
use school_election::rows::{find_target, rows_of_school};

fn class(id: i32, school_id: i32, name: &str) -> SchoolClass {
    SchoolClass { id, school_id, name: name.to_string(), boys: 10, girls: 11 }
}

fn classes() -> Vec<SchoolClass> {
    vec![class(1, 1, "1A"), class(2, 2, "1A"), class(3, 1, "2B"), class(4, 1, "3C")]
}

fn school(id: i32, email: &str) -> School {
    School {
        id,
        name: format!("School {}", id),
        email: email.to_string(),
        password: "pw".to_string(),
    }
}

#[test]
fn school_lists_only_its_classes() {
    let r = get_classes(&classes(), 1);
    assert!(r.success);
    assert_eq!(r.message, "List of classes for your school.");
    let ids: Vec<i32> = r.data.unwrap().iter().map(|c| c.id).collect();
    assert_eq!(ids, vec![1, 3, 4]);
    assert_eq!(get_classes(&classes(), 2).data.unwrap(), vec![class(2, 2, "1A")]);
    assert_eq!(get_classes(&classes(), 9).data.unwrap(), vec![]);
}

#[test]
fn deleting_own_class_names_it() {
    let r = delete_class(&classes(), 3, 1);
    assert!(r.success);
    assert_eq!(r.message, "Class deleted");
    assert_eq!(r.data, Some(class(3, 1, "2B")));
}

#[test]
fn deleting_another_schools_class_is_refused() {
    let r = delete_class(&classes(), 2, 1);
    assert!(!r.success);
    assert_eq!(r.message, "Couldn't find class");
    assert_eq!(r.data, None);
    let missing = delete_class(&classes(), 77, 1);
    assert!(!missing.success);
}

#[test]
fn updating_a_class_keeps_its_id_and_school() {
    let input = SchoolClassInput { name: "2B+".to_string(), boys: 20, girls: 21 };
    let r = update_class(&classes(), 3, 1, input);
    assert!(r.success);
    assert_eq!(r.message, "Class updated");
    assert_eq!(
        r.data,
        Some(SchoolClass { id: 3, school_id: 1, name: "2B+".to_string(), boys: 20, girls: 21 })
    );
    let refused = update_class(
        &classes(),
        2,
        1,
        SchoolClassInput { name: "x".to_string(), boys: 0, girls: 0 },
    );
    assert!(!refused.success);
    assert_eq!(refused.message, "Couldn't find class");
    assert_eq!(refused.data, None);
}

#[test]
fn new_rows_belong_to_the_asking_school() {
    let c = add_class(5, SchoolClassInput { name: "4D".to_string(), boys: 3, girls: 4 });
    assert_eq!(c, NewSchoolClass { school_id: 5, name: "4D".to_string(), boys: 3, girls: 4 });
    let e = add_election(
        5,
        ElectionInput { name: "Captain".to_string(), presidential: true, genders: 2 },
    );
    assert_eq!(
        e,
        NewElection { school_id: 5, name: "Captain".to_string(), presidential: true, genders: 2 }
    );
    let k = add_candidate(
        5,
        CandidateInput {
            name: "Gita".to_string(),
            class_id: 9,
            election_id: 3,
            gender: 1,
            symbol: "sun".to_string(),
        },
    );
    assert_eq!(
        k,
        NewCandidate {
            name: "Gita".to_string(),
            school_id: 5,
            class_id: 9,
            election_id: 3,
            gender: 1,
            symbol: "sun".to_string(),
        }
    );
}

#[test]
fn stored_rows_are_answered_with_their_message() {
    let s = signup(school(1, "a@b.c"));
    assert!(s.success);
    assert_eq!(s.message, "Saved new school");
    assert_eq!(s.data, Some(school(1, "a@b.c")));
    let c = class_added(class(1, 1, "1A"));
    assert_eq!(c.message, "Added class");
    let e = election_added(Election {
        id: 1,
        school_id: 1,
        name: "x".to_string(),
        presidential: false,
        genders: 0,
    });
    assert_eq!(e.message, "Added election");
    let k = candidate_added(Candidate {
        id: 1,
        name: "y".to_string(),
        school_id: 1,
        election_id: 1,
        class_id: 1,
        gender: 0,
        symbol: "z".to_string(),
    });
    assert_eq!(k.message, "Added candidate");
    assert!(c.success && e.success && k.success);
}

fn elections() -> Vec<Election> {
    vec![
        Election { id: 1, school_id: 1, name: "A".to_string(), presidential: true, genders: 2 },
        Election { id: 2, school_id: 2, name: "B".to_string(), presidential: true, genders: 2 },
        Election { id: 5, school_id: 1, name: "C".to_string(), presidential: false, genders: 0 },
    ]
}

#[test]
fn elections_of_a_school_in_id_order() {
    let r = get_elections(&elections(), 1);
    assert_eq!(r.message, "Elections in your school");
    let ids: Vec<i32> = r.data.unwrap().iter().map(|e| e.id).collect();
    assert_eq!(ids, vec![1, 5]);
}

#[test]
fn election_delete_and_update() {
    let d = delete_election(&elections(), 5, 1);
    assert!(d.success);
    assert_eq!(d.message, "Election deleted");
    assert_eq!(d.data.unwrap().name, "C");
    let refused = delete_election(&elections(), 2, 1);
    assert!(!refused.success);
    assert_eq!(refused.message, "Election deletion failed");
    let u = update_election(
        &elections(),
        1,
        1,
        ElectionInput { name: "A2".to_string(), presidential: false, genders: 1 },
    );
    assert!(u.success);
    assert_eq!(u.message, "Election updated");
    assert_eq!(
        u.data,
        Some(Election { id: 1, school_id: 1, name: "A2".to_string(), presidential: false, genders: 1 })
    );
    let u2 = update_election(
        &elections(),
        2,
        1,
        ElectionInput { name: "B2".to_string(), presidential: false, genders: 1 },
    );
    assert!(!u2.success);
    assert_eq!(u2.message, "Election update failed");
}

#[test]
fn candidates_list_and_delete() {
    let candidates = vec![
        Candidate {
            id: 1,
            name: "P".to_string(),
            school_id: 2,
            election_id: 2,
            class_id: 1,
            gender: 0,
            symbol: "s".to_string(),
        },
        Candidate {
            id: 2,
            name: "Q".to_string(),
            school_id: 1,
            election_id: 1,
            class_id: 1,
            gender: 1,
            symbol: "t".to_string(),
        },
    ];
    let l = get_candidates(&candidates, 1);
    assert_eq!(l.message, "List of candidates");
    assert_eq!(l.data.unwrap().len(), 1);
    let d = delete_candidate(&candidates, 2, 1);
    assert!(d.success);
    assert_eq!(d.message, "Candidate deleted");
    let refused = delete_candidate(&candidates, 1, 1);
    assert!(!refused.success);
    assert_eq!(refused.message, "Candidate failed to delete");
}

#[test]
fn profile_is_the_school_row() {
    let schools = vec![school(1, "a@x"), school(2, "b@x")];
    assert!(knows_school(&schools, 2));
    assert!(!knows_school(&schools, 3));
    let r = profile(&schools, 2);
    assert!(r.success);
    assert_eq!(r.message, "Your profile");
    assert_eq!(r.data, Some(school(2, "b@x")));
}

#[test]
fn generic_scoping_helpers() {
    let rows = classes();
    assert_eq!(rows_of_school(&rows, 2).len(), 1);
    assert_eq!(find_target(&rows, 4, 1), Some(class(4, 1, "3C")));
    assert_eq!(find_target(&rows, 4, 2), None);
}

#[test]
fn gender_codes() {
    assert_eq!(ElectionGender::All.code(), 0);
    assert_eq!(ElectionGender::Boys.code(), 1);
    assert_eq!(ElectionGender::Girls.code(), 2);
    assert_eq!(Gender::Boy.code(), 0);
    assert_eq!(Gender::Girl.code(), 1);
    assert_eq!(GENDER_ELECTION_BOTH, 2);
}

#[test]
fn listings_are_sorted_by_id_whatever_the_table_order() {
    let shuffled = vec![
        Election { id: 9, school_id: 1, name: "I".to_string(), presidential: true, genders: 2 },
        Election { id: 3, school_id: 1, name: "C".to_string(), presidential: true, genders: 2 },
        Election { id: 4, school_id: 2, name: "D".to_string(), presidential: true, genders: 2 },
        Election { id: 6, school_id: 1, name: "F".to_string(), presidential: true, genders: 2 },
    ];
    let ids: Vec<i32> = get_elections(&shuffled, 1).data.unwrap().iter().map(|e| e.id).collect();
    assert_eq!(ids, vec![3, 6, 9]);
    let candidates: Vec<Candidate> = [7, 2, 5]
        .iter()
        .map(|&id| Candidate {
            id,
            name: format!("c{}", id),
            school_id: 1,
            election_id: 1,
            class_id: 1,
            gender: 0,
            symbol: "s".to_string(),
        })
        .collect();
    let ids: Vec<i32> = get_candidates(&candidates, 1).data.unwrap().iter().map(|c| c.id).collect();
    assert_eq!(ids, vec![2, 5, 7]);
}

#[test]
fn deleting_twice_is_refused() {
    let table = classes();
    let first = delete_class(&table, 3, 1);
    assert!(first.success);
    let gone = first.data.unwrap().id;
    let left: Vec<SchoolClass> = table.into_iter().filter(|c| c.id != gone).collect();
    let second = delete_class(&left, 3, 1);
    assert!(!second.success);
    assert_eq!(second.message, "Couldn't find class");
    assert_eq!(second.data, None);
}

#[test]
fn adding_then_deleting_restores_the_table() {
    let before = classes();
    let new = add_class(1, SchoolClassInput { name: "5E".to_string(), boys: 1, girls: 2 });
    let stored = SchoolClass {
        id: 5,
        school_id: new.school_id,
        name: new.name.clone(),
        boys: new.boys,
        girls: new.girls,
    };
    let mut table = before.clone();
    table.push(stored.clone());
    let d = delete_class(&table, 5, 1);
    assert!(d.success);
    assert_eq!(d.data, Some(stored));
    let left: Vec<SchoolClass> = table.into_iter().filter(|c| c.id != 5).collect();
    assert_eq!(left, before);
}

#[test]
fn repeating_an_update_changes_nothing_more() {
    let input = || SchoolClassInput { name: "2B+".to_string(), boys: 20, girls: 21 };
    let first = update_class(&classes(), 3, 1, input());
    let row = first.data.clone().unwrap();
    let after: Vec<SchoolClass> = classes()
        .into_iter()
        .map(|c| if c.id == row.id { row.clone() } else { c })
        .collect();
    let second = update_class(&after, 3, 1, input());
    assert_eq!(second, first);
}
