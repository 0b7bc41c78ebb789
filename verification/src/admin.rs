//! What a logged-in school may read and change: its profile, classes,
//! elections and candidates. Every request is scoped to the school named in
//! the token; rows of other schools are never listed, changed or removed.
use vstd::prelude::*;

use crate::models::{
    failure, success, Candidate, CandidateInput, Election, ElectionInput, NewCandidate,
    NewElection, NewSchoolClass, Response, School, SchoolClass, SchoolClassInput,
};
use crate::rows::{
    find_target, first_target, ids_ascending, lemma_first_target_facts, lemma_owned_by_members, ids_nondecreasing, ids_unique, lemma_filter_first,
    owned_by, rows_of_school, sorted_rows_of_school,
};

verus! {

// ----- schools -----
/// The answer to a sign-up, once the new school has been stored.
pub fn signup(saved: School) -> (r: Response<School>)
    ensures
        r.success,
        r.message@ == "Saved new school"@,
        r.data == Some(saved),
{
    success("Saved new school", saved)
}

/// Whether the table holds a school with this id.
pub open spec fn has_school(schools: Seq<School>, school_id: int) -> bool {
    exists|i: int| 0 <= i < schools.len() && schools[i].id == school_id
}

/// Whether a school with this id exists (a profile can be answered).
pub fn knows_school(schools: &Vec<School>, school_id: i32) -> (r: bool)
    ensures
        r == has_school(schools@, school_id as int),
{
    let mut i: usize = 0;
    while i < schools.len()
        invariant
            i <= schools.len(),
            forall|k: int| 0 <= k < i ==> schools@[k].id != school_id,
        decreases schools.len() - i,
    {
        if schools[i].id == school_id {
            return true;
        }
        i += 1;
    }
    false
}

/// The first school with the given id.
pub open spec fn school_with_id(schools: Seq<School>, school_id: int) -> School {
    schools.filter(|s: School| s.id == school_id)[0]
}

/// A school's own profile: the first row of the table with its id.
pub fn profile(schools: &Vec<School>, school_id: i32) -> (r: Response<School>)
    requires
        has_school(schools@, school_id as int),
    ensures
        r.success,
        r.message@ == "Your profile"@,
        r.data == Some(school_with_id(schools@, school_id as int)),
        r.data->0.id == school_id,
        exists|i: int|
            #![trigger schools@[i]]
            0 <= i < schools@.len() && schools@[i] == r.data->0 && (forall|j: int|
                #![trigger schools@[j]]
                0 <= j < i ==> schools@[j].id != school_id),
{
    let ghost p = |s: School| s.id == school_id as int;
    let mut i: usize = 0;
    while i < schools.len()
        invariant
            i <= schools.len(),
            p == (|s: School| s.id == school_id as int),
            has_school(schools@, school_id as int),
            schools@.take(i as int).filter(p).len() == 0,
            forall|k: int| 0 <= k < i ==> schools@[k].id != school_id,
        decreases schools.len() - i,
    {
        proof {
            schools@.lemma_take_succ_push(i as int);
            schools@.take(i as int).lemma_filter_push(schools@[i as int], p);
        }
        if schools[i].id == school_id {
            proof {
                lemma_filter_first(schools@, p, i as int);
            }
            return success("Your profile", schools[i].clone());
        }
        i += 1;
    }
    proof {
        let k = choose|k: int| 0 <= k < schools@.len() && schools@[k].id == school_id;
    }
    success("Your profile", schools[0].clone())
}

// ----- classes -----
/// The classes of the school (`WHERE school_id = ?`, table order).
pub fn get_classes(classes: &Vec<SchoolClass>, school_id: i32) -> (r: Response<
    Vec<SchoolClass>,
>)
    ensures
        r.success,
        r.message@ == "List of classes for your school."@,
        r.data is Some,
        r.data->0@ == owned_by(classes@, school_id as int),
        forall|x: SchoolClass|
            #[trigger] r.data->0@.contains(x) <==> (classes@.contains(x) && x.school_id
                == school_id),
{
    proof {
        lemma_owned_by_members(classes@, school_id as int);
    }
    success("List of classes for your school.", rows_of_school(classes, school_id))
}

/// The class row to insert for the school.
pub fn add_class(school_id: i32, input: SchoolClassInput) -> (r: NewSchoolClass)
    ensures
        r == (NewSchoolClass {
            school_id,
            name: input.name,
            boys: input.boys,
            girls: input.girls,
        }),
{
    NewSchoolClass { school_id, name: input.name, boys: input.boys, girls: input.girls }
}

/// The answer once a class has been stored.
pub fn class_added(saved: SchoolClass) -> (r: Response<SchoolClass>)
    ensures
        r.success,
        r.message@ == "Added class"@,
        r.data == Some(saved),
{
    success("Added class", saved)
}

/// Deleting a class: the row it names, if the school owns one with that id.
/// The row handed back is the one to remove.
pub fn delete_class(classes: &Vec<SchoolClass>, class_id: i32, school_id: i32) -> (r: Response<
    SchoolClass,
>)
    ensures
        r.success == first_target(classes@, class_id as int, school_id as int) is Some,
        r.data == first_target(classes@, class_id as int, school_id as int),
        r.success ==> r.message@ == "Class deleted"@,
        !r.success ==> r.message@ == "Couldn't find class"@,
        r.success <==> exists|i: int|
            #![trigger classes@[i]]
            0 <= i < classes@.len() && classes@[i].id == class_id && classes@[i].school_id
                == school_id,
        r.data matches Some(d) ==> d.id == class_id && d.school_id == school_id && exists|i: int|
            #![trigger classes@[i]]
            0 <= i < classes@.len() && classes@[i] == d && (forall|j: int|
                #![trigger classes@[j]]
                0 <= j < i ==> !(classes@[j].id == class_id && classes@[j].school_id
                    == school_id)),
{
    proof {
        lemma_first_target_facts(classes@, class_id as int, school_id as int);
    }
    match find_target(classes, class_id, school_id) {
        Some(row) => success("Class deleted", row),
        None => failure("Couldn't find class"),
    }
}

/// A class row with the fields of a request put in.
pub open spec fn class_with_input(row: SchoolClass, input: SchoolClassInput) -> SchoolClass {
    SchoolClass { name: input.name, boys: input.boys, girls: input.girls, ..row }
}

/// The classes table once a changed row is written back
/// (`UPDATE ... SET name, boys, girls WHERE id = ?`).
pub open spec fn class_written(classes: Seq<SchoolClass>, row: SchoolClass) -> Seq<SchoolClass> {
    classes.map_values(
        |r: SchoolClass|
            if r.id == row.id {
                SchoolClass { name: row.name, boys: row.boys, girls: row.girls, ..r }
            } else {
                r
            },
    )
}

/// The classes table after an update request: the changed row written back if
/// the request named a class of the school, the table unchanged otherwise.
pub open spec fn after_update_class(
    classes: Seq<SchoolClass>,
    class_id: int,
    school_id: int,
    input: SchoolClassInput,
) -> Seq<SchoolClass> {
    match first_target(classes, class_id, school_id) {
        Some(t) => class_written(classes, class_with_input(t, input)),
        None => classes,
    }
}

/// Changing a class: the row it names with the new fields, if the school owns one
/// with that id. The row handed back is what the table holds afterwards.
pub fn update_class(
    classes: &Vec<SchoolClass>,
    class_id: i32,
    school_id: i32,
    input: SchoolClassInput,
) -> (r: Response<SchoolClass>)
    ensures
        r.success == first_target(classes@, class_id as int, school_id as int) is Some,
        r.success ==> r.data == Some(
            class_with_input(first_target(classes@, class_id as int, school_id as int)->0, input),
        ),
        r.success ==> r.message@ == "Class updated"@,
        !r.success ==> r.data is None && r.message@ == "Couldn't find class"@,
        r.success <==> exists|i: int|
            #![trigger classes@[i]]
            0 <= i < classes@.len() && classes@[i].id == class_id && classes@[i].school_id
                == school_id,
        r.success ==> {
            &&& r.data->0.id == class_id
            &&& r.data->0.school_id == school_id
            &&& r.data->0.name == input.name
            &&& r.data->0.boys == input.boys
            &&& r.data->0.girls == input.girls
        },
{
    proof {
        lemma_first_target_facts(classes@, class_id as int, school_id as int);
    }
    match find_target(classes, class_id, school_id) {
        Some(row) => success(
            "Class updated",
            SchoolClass {
                id: row.id,
                school_id: row.school_id,
                name: input.name,
                boys: input.boys,
                girls: input.girls,
            },
        ),
        None => failure("Couldn't find class"),
    }
}

// ----- elections -----
/// The elections of the school (`WHERE school_id = ? ORDER BY id`): all of them,
/// each once, sorted by id.
pub fn get_elections(elections: &Vec<Election>, school_id: i32) -> (r: Response<Vec<Election>>)
    ensures
        r.success,
        r.message@ == "Elections in your school"@,
        r.data is Some,
        r.data->0@.to_multiset() == owned_by(elections@, school_id as int).to_multiset(),
        ids_nondecreasing(r.data->0@),
        ids_unique(elections@) ==> ids_ascending(r.data->0@),
        forall|x: Election|
            #[trigger] r.data->0@.contains(x) <==> (elections@.contains(x) && x.school_id
                == school_id),
{
    broadcast use vstd::seq_lib::group_to_multiset_ensures;

    proof {
        lemma_owned_by_members(elections@, school_id as int);
    }
    let rows = sorted_rows_of_school(elections, school_id);
    proof {
        assert forall|x: Election| #[trigger] rows@.contains(x) <==> owned_by(elections@, school_id as int).contains(x) by {
            assert(rows@.contains(x) <==> rows@.to_multiset().count(x) > 0);
            assert(owned_by(elections@, school_id as int).contains(x) <==> owned_by(elections@, school_id as int).to_multiset().count(x) > 0);
        }
    }
    success("Elections in your school", rows)
}

/// The election row to insert for the school.
pub fn add_election(school_id: i32, input: ElectionInput) -> (r: NewElection)
    ensures
        r == (NewElection {
            school_id,
            name: input.name,
            presidential: input.presidential,
            genders: input.genders,
        }),
{
    NewElection {
        school_id,
        name: input.name,
        presidential: input.presidential,
        genders: input.genders,
    }
}

/// The answer once an election has been stored.
pub fn election_added(saved: Election) -> (r: Response<Election>)
    ensures
        r.success,
        r.message@ == "Added election"@,
        r.data == Some(saved),
{
    success("Added election", saved)
}

/// Deleting an election: the row it names, if the school owns one with that id.
pub fn delete_election(elections: &Vec<Election>, election_id: i32, school_id: i32) -> (r:
    Response<Election>)
    ensures
        r.success == first_target(elections@, election_id as int, school_id as int) is Some,
        r.data == first_target(elections@, election_id as int, school_id as int),
        r.success ==> r.message@ == "Election deleted"@,
        !r.success ==> r.message@ == "Election deletion failed"@,
        r.success <==> exists|i: int|
            #![trigger elections@[i]]
            0 <= i < elections@.len() && elections@[i].id == election_id && elections@[i].school_id
                == school_id,
        r.data matches Some(d) ==> d.id == election_id && d.school_id == school_id && exists|i: int|
            #![trigger elections@[i]]
            0 <= i < elections@.len() && elections@[i] == d && (forall|j: int|
                #![trigger elections@[j]]
                0 <= j < i ==> !(elections@[j].id == election_id && elections@[j].school_id
                    == school_id)),
{
    proof {
        lemma_first_target_facts(elections@, election_id as int, school_id as int);
    }
    match find_target(elections, election_id, school_id) {
        Some(row) => success("Election deleted", row),
        None => failure("Election deletion failed"),
    }
}

/// An election row with the fields of a request put in.
pub open spec fn election_with_input(row: Election, input: ElectionInput) -> Election {
    Election {
        name: input.name,
        presidential: input.presidential,
        genders: input.genders,
        ..row
    }
}

/// The elections table once a changed row is written back
/// (`UPDATE ... SET name, presidential, genders WHERE id = ?`).
pub open spec fn election_written(elections: Seq<Election>, row: Election) -> Seq<Election> {
    elections.map_values(
        |r: Election|
            if r.id == row.id {
                Election {
                    name: row.name,
                    presidential: row.presidential,
                    genders: row.genders,
                    ..r
                }
            } else {
                r
            },
    )
}

/// The elections table after an update request: the changed row written back
/// if the request named an election of the school, the table unchanged otherwise.
pub open spec fn after_update_election(
    elections: Seq<Election>,
    election_id: int,
    school_id: int,
    input: ElectionInput,
) -> Seq<Election> {
    match first_target(elections, election_id, school_id) {
        Some(t) => election_written(elections, election_with_input(t, input)),
        None => elections,
    }
}

/// Changing an election: the row it names with the new fields, if the school
/// owns one with that id.
pub fn update_election(
    elections: &Vec<Election>,
    election_id: i32,
    school_id: i32,
    input: ElectionInput,
) -> (r: Response<Election>)
    ensures
        r.success == first_target(elections@, election_id as int, school_id as int) is Some,
        r.success ==> r.data == Some(
            election_with_input(
                first_target(elections@, election_id as int, school_id as int)->0,
                input,
            ),
        ),
        r.success ==> r.message@ == "Election updated"@,
        !r.success ==> r.data is None && r.message@ == "Election update failed"@,
        r.success <==> exists|i: int|
            #![trigger elections@[i]]
            0 <= i < elections@.len() && elections@[i].id == election_id && elections@[i].school_id
                == school_id,
        r.success ==> {
            &&& r.data->0.id == election_id
            &&& r.data->0.school_id == school_id
            &&& r.data->0.name == input.name
            &&& r.data->0.presidential == input.presidential
            &&& r.data->0.genders == input.genders
        },
{
    proof {
        lemma_first_target_facts(elections@, election_id as int, school_id as int);
    }
    match find_target(elections, election_id, school_id) {
        Some(row) => success(
            "Election updated",
            Election {
                id: row.id,
                school_id: row.school_id,
                name: input.name,
                presidential: input.presidential,
                genders: input.genders,
            },
        ),
        None => failure("Election update failed"),
    }
}

// ----- candidates -----
/// The candidates of the school (`WHERE school_id = ? ORDER BY id`): all of
/// them, each once, sorted by id.
pub fn get_candidates(candidates: &Vec<Candidate>, school_id: i32) -> (r: Response<
    Vec<Candidate>,
>)
    ensures
        r.success,
        r.message@ == "List of candidates"@,
        r.data is Some,
        r.data->0@.to_multiset() == owned_by(candidates@, school_id as int).to_multiset(),
        ids_nondecreasing(r.data->0@),
        ids_unique(candidates@) ==> ids_ascending(r.data->0@),
        forall|x: Candidate|
            #[trigger] r.data->0@.contains(x) <==> (candidates@.contains(x) && x.school_id
                == school_id),
{
    broadcast use vstd::seq_lib::group_to_multiset_ensures;

    proof {
        lemma_owned_by_members(candidates@, school_id as int);
    }
    let rows = sorted_rows_of_school(candidates, school_id);
    proof {
        assert forall|x: Candidate| #[trigger] rows@.contains(x) <==> owned_by(candidates@, school_id as int).contains(x) by {
            assert(rows@.contains(x) <==> rows@.to_multiset().count(x) > 0);
            assert(owned_by(candidates@, school_id as int).contains(x) <==> owned_by(candidates@, school_id as int).to_multiset().count(x) > 0);
        }
    }
    success("List of candidates", rows)
}

/// The candidate row to insert for the school.
pub fn add_candidate(school_id: i32, input: CandidateInput) -> (r: NewCandidate)
    ensures
        r == (NewCandidate {
            school_id,
            name: input.name,
            class_id: input.class_id,
            election_id: input.election_id,
            gender: input.gender,
            symbol: input.symbol,
        }),
{
    NewCandidate {
        school_id,
        name: input.name,
        class_id: input.class_id,
        election_id: input.election_id,
        gender: input.gender,
        symbol: input.symbol,
    }
}

/// The answer once a candidate has been stored.
pub fn candidate_added(saved: Candidate) -> (r: Response<Candidate>)
    ensures
        r.success,
        r.message@ == "Added candidate"@,
        r.data == Some(saved),
{
    success("Added candidate", saved)
}

/// Deleting a candidate: the row it names, if the school owns one with that id.
pub fn delete_candidate(candidates: &Vec<Candidate>, candidate_id: i32, school_id: i32) -> (r:
    Response<Candidate>)
    ensures
        r.success == first_target(candidates@, candidate_id as int, school_id as int) is Some,
        r.data == first_target(candidates@, candidate_id as int, school_id as int),
        r.success ==> r.message@ == "Candidate deleted"@,
        !r.success ==> r.message@ == "Candidate failed to delete"@,
        r.success <==> exists|i: int|
            #![trigger candidates@[i]]
            0 <= i < candidates@.len() && candidates@[i].id == candidate_id && candidates@[i].school_id
                == school_id,
        r.data matches Some(d) ==> d.id == candidate_id && d.school_id == school_id && exists|i: int|
            #![trigger candidates@[i]]
            0 <= i < candidates@.len() && candidates@[i] == d && (forall|j: int|
                #![trigger candidates@[j]]
                0 <= j < i ==> !(candidates@[j].id == candidate_id && candidates@[j].school_id
                    == school_id)),
{
    proof {
        lemma_first_target_facts(candidates@, candidate_id as int, school_id as int);
    }
    match find_target(candidates, candidate_id, school_id) {
        Some(row) => success("Candidate deleted", row),
        None => failure("Candidate failed to delete"),
    }
}

} // verus!
