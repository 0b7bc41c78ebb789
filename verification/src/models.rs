//! The rows of the election database, the request bodies the server accepts,
//! and the response envelope every handler answers with.
use vstd::prelude::*;

verus! {

/// Gender code of a boy student or candidate.
pub const GENDER_BOY: i32 = 0;

/// Gender code of a girl student or candidate.
pub const GENDER_GIRL: i32 = 1;

/// Election `genders` code: only boys vote.
pub const GENDER_ELECTION_BOYS: i32 = 0;

/// Election `genders` code: only girls vote.
pub const GENDER_ELECTION_GIRLS: i32 = 1;

/// Election `genders` code: every student votes.
pub const GENDER_ELECTION_BOTH: i32 = 2;

/// Who takes part in an election.
#[derive(Debug, PartialEq, Eq, Clone, Copy)]
pub enum ElectionGender {
    All,
    Boys,
    Girls,
}

impl ElectionGender {
    /// The number that stands for this variant (`All` 0, `Boys` 1, `Girls` 2).
    pub fn code(&self) -> (r: i32)
        ensures
            r == match *self {
                ElectionGender::All => 0i32,
                ElectionGender::Boys => 1i32,
                ElectionGender::Girls => 2i32,
            },
    {
        match self {
            ElectionGender::All => 0,
            ElectionGender::Boys => 1,
            ElectionGender::Girls => 2,
        }
    }
}

/// The gender of a student.
#[derive(Debug, PartialEq, Eq, Clone, Copy)]
pub enum Gender {
    Boy,
    Girl,
}

impl Gender {
    /// The number that stands for this variant (`Boy` 0, `Girl` 1).
    pub fn code(&self) -> (r: i32)
        ensures
            r == match *self {
                Gender::Boy => 0i32,
                Gender::Girl => 1i32,
            },
    {
        match self {
            Gender::Boy => 0,
            Gender::Girl => 1,
        }
    }
}

/// A school that signs up (the `schools` table without its id).
#[derive(Debug, PartialEq, Eq)]
pub struct NewSchool {
    pub name: String,
    pub email: String,
    pub password: String,
}

/// A row of the `schools` table.
#[derive(Debug, PartialEq, Eq)]
pub struct School {
    pub id: i32,
    pub name: String,
    pub email: String,
    pub password: String,
}

impl Clone for School {
    fn clone(&self) -> (r: Self)
        ensures
            r == *self,
    {
        School {
            id: self.id,
            name: self.name.clone(),
            email: self.email.clone(),
            password: self.password.clone(),
        }
    }
}

/// A class to insert into the `school_classes` table.
#[derive(Debug, PartialEq, Eq)]
pub struct NewSchoolClass {
    pub school_id: i32,
    pub name: String,
    pub boys: i32,
    pub girls: i32,
}

/// A row of the `school_classes` table.
#[derive(Debug, PartialEq, Eq)]
pub struct SchoolClass {
    pub id: i32,
    pub school_id: i32,
    pub name: String,
    pub boys: i32,
    pub girls: i32,
}

impl Clone for SchoolClass {
    fn clone(&self) -> (r: Self)
        ensures
            r == *self,
    {
        SchoolClass {
            id: self.id,
            school_id: self.school_id,
            name: self.name.clone(),
            boys: self.boys,
            girls: self.girls,
        }
    }
}

/// An election to insert into the `elections` table.
#[derive(Debug, PartialEq, Eq)]
pub struct NewElection {
    pub school_id: i32,
    pub name: String,
    pub presidential: bool,
    pub genders: i32,
}

/// A row of the `elections` table.
#[derive(Debug, PartialEq, Eq)]
pub struct Election {
    pub id: i32,
    pub school_id: i32,
    pub name: String,
    pub presidential: bool,
    pub genders: i32,
}

impl Clone for Election {
    fn clone(&self) -> (r: Self)
        ensures
            r == *self,
    {
        Election {
            id: self.id,
            school_id: self.school_id,
            name: self.name.clone(),
            presidential: self.presidential,
            genders: self.genders,
        }
    }
}

/// A candidate to insert into the `candidates` table.
#[derive(Debug, PartialEq, Eq)]
pub struct NewCandidate {
    pub name: String,
    pub school_id: i32,
    pub class_id: i32,
    pub election_id: i32,
    pub gender: i32,
    pub symbol: String,
}

/// A row of the `candidates` table.
#[derive(Debug, PartialEq, Eq)]
pub struct Candidate {
    pub id: i32,
    pub name: String,
    pub school_id: i32,
    pub election_id: i32,
    pub class_id: i32,
    pub gender: i32,
    pub symbol: String,
}

impl Clone for Candidate {
    fn clone(&self) -> (r: Self)
        ensures
            r == *self,
    {
        Candidate {
            id: self.id,
            name: self.name.clone(),
            school_id: self.school_id,
            election_id: self.election_id,
            class_id: self.class_id,
            gender: self.gender,
            symbol: self.symbol.clone(),
        }
    }
}

/// One line of the result sheet: a candidate and the number of votes cast for it.
#[derive(Debug, PartialEq, Eq)]
pub struct CandidateResult {
    pub id: i32,
    pub name: String,
    pub school_id: i32,
    pub class_id: i32,
    pub election_id: i32,
    pub gender: i32,
    pub votes: i64,
}

/// A vote to insert into the `votes` table.
#[derive(Debug, PartialEq, Eq, Clone, Copy)]
pub struct NewVote {
    pub candidate_id: i32,
}

/// A row of the `votes` table.
#[derive(Debug, PartialEq, Eq, Clone, Copy)]
pub struct Vote {
    pub id: i32,
    pub candidate_id: i32,
}

/// A record, to insert into the `voted` table, that a student has voted.
#[derive(Debug, PartialEq, Eq, Clone, Copy)]
pub struct NewVoted {
    pub voter_num: i32,
    pub class_id: i32,
}

/// A row of the `voted` table: student `voter_num` of class `class_id` has voted.
#[derive(Debug, PartialEq, Eq, Clone, Copy)]
pub struct Voted {
    pub id: i32,
    pub voter_num: i32,
    pub class_id: i32,
}

/// The body of a login request.
#[derive(Debug, PartialEq, Eq)]
pub struct Login {
    pub email: String,
    pub password: String,
}

/// The claims of the token a school logs in with.
#[derive(Debug, PartialEq, Eq, Clone, Copy)]
pub struct LoginToken {
    pub school_id: i32,
    pub exp: usize,
}

/// The body of a request that adds or changes a class.
#[derive(Debug, PartialEq, Eq)]
pub struct SchoolClassInput {
    pub name: String,
    pub boys: i32,
    pub girls: i32,
}

/// The body of a request that adds or changes an election.
#[derive(Debug, PartialEq, Eq)]
pub struct ElectionInput {
    pub name: String,
    pub presidential: bool,
    pub genders: i32,
}

/// The body of a request that adds a candidate.
#[derive(Debug, PartialEq, Eq)]
pub struct CandidateInput {
    pub name: String,
    pub class_id: i32,
    pub election_id: i32,
    pub gender: i32,
    pub symbol: String,
}

/// Who asks for a ballot: a student of a class of a school.
#[derive(Debug, PartialEq, Eq, Clone, Copy)]
pub struct VoterInfo {
    pub student_num: i32,
    pub class_id: i32,
    pub school_id: i32,
    pub gender: i32,
}

/// One line of a ballot: a candidate a voter may vote for, with its election.
#[derive(Debug, PartialEq, Eq)]
pub struct CandidateInfo {
    pub id: i32,
    pub election_name: String,
    pub name: String,
    pub symbol: String,
}

/// A student's votes: the candidates chosen.
#[derive(Debug, PartialEq, Eq)]
pub struct VoterVote {
    pub student_num: i32,
    pub class_id: i32,
    pub vote_candidate_ids: Vec<i32>,
}

/// What every handler answers: whether it succeeded, a message, and its data.
#[derive(Debug, PartialEq, Eq)]
pub struct Response<T> {
    pub success: bool,
    pub message: String,
    pub data: Option<T>,
}

/// A successful answer carrying `data`.
pub fn success<T>(message: &str, data: T) -> (r: Response<T>)
    ensures
        r.success,
        r.message@ == message@,
        r.data == Some(data),
{
    Response { success: true, message: String::from_str(message), data: Some(data) }
}

/// A refusal, carrying no data.
pub fn failure<T>(message: &str) -> (r: Response<T>)
    ensures
        !r.success,
        r.message@ == message@,
        r.data is None,
{
    Response { success: false, message: String::from_str(message), data: None }
}

} // verus!
