//! Logging in: checking a school's credentials and issuing the claims of its
//! token, and reading the token out of an `Authorization` header.
use vstd::prelude::*;

use crate::models::{failure, success, Login, LoginToken, Response, School};
use crate::rows::lemma_filter_first;

verus! {

broadcast use vstd::seq_lib::group_seq_properties, vstd::seq_lib::group_filter_ensures;

/// How long a login token stays valid, in seconds.
pub const TOKEN_LIFETIME_SECS: usize = 3600;

/// Whether a school row has the email.
pub open spec fn email_pred(email: Seq<char>) -> spec_fn(School) -> bool {
    |s: School| s.email@ == email
}

/// The first school with the email, if any (`WHERE email = ? ... first()`).
pub open spec fn school_by_email(schools: Seq<School>, email: Seq<char>) -> Option<School> {
    let found = schools.filter(email_pred(email));
    if found.len() > 0 {
        Some(found[0])
    } else {
        None
    }
}

/// The claims a school is issued at time `now` (seconds since the epoch).
pub open spec fn claims_for(school: School, now: int) -> LoginToken {
    LoginToken { school_id: school.id, exp: (now + TOKEN_LIFETIME_SECS) as usize }
}

/// The answer when looking a school up fails.
pub fn lookup_failed<T>() -> (r: Response<T>)
    ensures
        !r.success,
        r.message@ == "Database operation failed."@,
        r.data is None,
{
    failure("Database operation failed.")
}

/// Logging in at time `now`: the school with the email is looked up; if there
/// is none the lookup fails, if the password differs the login fails, and
/// otherwise the school gets the claims of a token that expires an hour on.
pub fn login(schools: &Vec<School>, creds: &Login, now: usize) -> (r: Response<LoginToken>)
    requires
        now + TOKEN_LIFETIME_SECS <= usize::MAX,
    ensures
        match school_by_email(schools@, creds.email@) {
            None => !r.success && r.message@ == "Database operation failed."@ && r.data is None,
            Some(s) => if s.password@ == creds.password@ {
                r.success && r.message@ == "Login success"@ && r.data == Some(
                    claims_for(s, now as int),
                )
            } else {
                !r.success && r.message@ == "Login failed"@ && r.data is None
            },
        },
        r.success <==> exists|i: int|
            0 <= i < schools@.len() && #[trigger] schools@[i].email@ == creds.email@ && (forall|
                j: int,
            |
                0 <= j < i ==> schools@[j].email@ != creds.email@) && schools@[i].password@
                == creds.password@,
        forall|i: int|
            0 <= i < schools@.len() && #[trigger] schools@[i].email@ == creds.email@ && (forall|
                j: int,
            |
                0 <= j < i ==> schools@[j].email@ != creds.email@) ==> if schools@[i].password@
                == creds.password@ {
                r.data == Some(LoginToken { school_id: schools@[i].id, exp: (now + 3600) as usize })
            } else {
                r.message@ == "Login failed"@ && r.data is None
            },
        (forall|j: int| 0 <= j < schools@.len() ==> schools@[j].email@ != creds.email@)
            ==> r.message@ == "Database operation failed."@ && r.data is None,
{
    let ghost p = email_pred(creds.email@);
    let mut i: usize = 0;
    while i < schools.len()
        invariant
            i <= schools.len(),
            p == email_pred(creds.email@),
            now + TOKEN_LIFETIME_SECS <= usize::MAX,
            schools@.take(i as int).filter(p).len() == 0,
            forall|j: int| 0 <= j < i ==> schools@[j].email@ != creds.email@,
        decreases schools.len() - i,
    {
        proof {
            schools@.lemma_take_succ_push(i as int);
            schools@.take(i as int).lemma_filter_push(schools@[i as int], p);
        }
        if schools[i].email == creds.email {
            proof {
                lemma_filter_first(schools@, p, i as int);
            }
            let school = &schools[i];
            if school.password == creds.password {
                let claims = LoginToken {
                    school_id: school.id,
                    exp: now + TOKEN_LIFETIME_SECS,
                };
                return success("Login success", claims);
            } else {
                return failure("Login failed");
            }
        }
        i += 1;
    }
    proof {
        schools@.lemma_take_len();
    }
    lookup_failed()
}

/// No character of `s` is a space.
pub open spec fn space_free(s: Seq<char>) -> bool {
    forall|i: int| 0 <= i < s.len() ==> s[i] != ' '
}

/// `t` is the second piece of `h` split at every space: what follows the first
/// space, up to the next space or the end.
pub open spec fn second_field(h: Seq<char>, t: Seq<char>) -> bool {
    exists|i: int|
        {
            &&& 0 <= i < h.len()
            &&& h[i] == ' '
            &&& space_free(h.take(i))
            &&& i + 1 + t.len() <= h.len()
            &&& t == h.subrange(i + 1, i + 1 + t.len())
            &&& space_free(t)
            &&& (i + 1 + t.len() == h.len() || h[i + 1 + t.len()] == ' ')
        }
}

/// The token of an `Authorization` header such as `Bearer <token>`: the second
/// piece of the header split at spaces; none if the header has no space.
pub fn bearer_token(header: &str) -> (r: Option<String>)
    ensures
        r is None <==> space_free(header@),
        r matches Some(t) ==> second_field(header@, t@),
        r is None <==> (forall|j: int| 0 <= j < header@.len() ==> header@[j] != ' '),
        r matches Some(t) ==> exists|i: int|
            {
                &&& 0 <= i < header@.len()
                &&& #[trigger] header@[i] == ' '
                &&& (forall|j: int| 0 <= j < i ==> header@[j] != ' ')
                &&& i + 1 + t@.len() <= header@.len()
                &&& t@ == header@.subrange(i + 1, i + 1 + t@.len())
                &&& (forall|j: int| 0 <= j < t@.len() ==> t@[j] != ' ')
                &&& (i + 1 + t@.len() == header@.len() || header@[i + 1 + t@.len()] == ' ')
            },
{
    let n = header.unicode_len();
    let mut i: usize = 0;
    while i < n && header.get_char(i) != ' '
        invariant
            i <= n,
            n == header@.len(),
            forall|k: int| 0 <= k < i ==> header@[k] != ' ',
        decreases n - i,
    {
        i += 1;
    }
    if i == n {
        return None;
    }
    let start = i + 1;
    let mut j: usize = start;
    while j < n && header.get_char(j) != ' '
        invariant
            start <= j <= n,
            n == header@.len(),
            forall|k: int| start <= k < j ==> header@[k] != ' ',
        decreases n - j,
    {
        j += 1;
    }
    let piece = header.substring_char(start, j);
    let token = String::from_str(piece);
    proof {
        let t = token@;
        assert(t =~= header@.subrange(start as int, j as int));
        assert(space_free(header@.take(i as int)));
        assert(space_free(t));
        assert(i + 1 + t.len() == j);
        assert(t == header@.subrange(i + 1, i + 1 + t.len()));
        assert(forall|k: int| 0 <= k < t.len() ==> t[k] != ' ');
        assert(forall|k: int| 0 <= k < i ==> header@[k] != ' ');
        assert(header@[i as int] == ' ');
    }
    Some(token)
}

} // verus!
