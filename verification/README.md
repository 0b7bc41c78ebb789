# school_election

A school election server whose rules are verified with Verus.

- `src/` is the verified library. `models` holds the rows, request bodies and
  the response envelope; `rows` the scoping of rows to the school that owns
  them; `admin` the profile, class, election and candidate requests; `auth`
  logging in and reading the token out of the `Authorization` header; `ballot`
  the ballot a student may vote on and the recording of a vote; `results` the
  vote count and the clearing of a school's votes; `laws` what holds across
  requests (a student votes once, counts grow by the votes cast, clearing
  resets one school and a second clearing deletes nothing, a school reaches
  only its own rows, a repeated update or delete changes nothing more, adding
  then deleting a row restores the table, a ballot is exactly what the voter
  may vote for).
- `app/` is the Rocket server: it creates the tables at start-up, reads the PostgreSQL tables with Diesel,
  calls the library, writes back the rows the library names, and signs and
  checks JSON web tokens.
- `tests/` runs the library on concrete tables.
