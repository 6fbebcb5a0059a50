//! Which database a URL stands for.

use vstd::prelude::*;
use vstd::string::*;

#[allow(unused_imports)]
use crate::text::{chars_of, has_prefix, starts_with};

verus! {

/// How many connections a pool has at most.
pub const MAX_CONNECTIONS: u32 = 5;

/// How long a connection waits for a locked SQLite database, in seconds.
pub const BUSY_TIMEOUT_SECS: u64 = 5;

/// The kinds of databases.
#[derive(Debug, Clone, Copy, PartialEq, Eq, Structural)]
pub enum DatabaseKind {
    Sqlite,
    Postgres,
}

/// The kind of database that a URL stands for: Postgres for its two schemes, and SQLite for
/// everything else.
pub fn database_kind(url: &str) -> (r: DatabaseKind)
    ensures
        r == if starts_with(url@, "postgres://"@) || starts_with(url@, "postgresql://"@) {
            DatabaseKind::Postgres
        } else {
            DatabaseKind::Sqlite
        },
        r == kind_of_url(url@),
{
    let chars = chars_of(url);
    if has_prefix(&chars, &chars_of("postgres://")) || has_prefix(
        &chars,
        &chars_of("postgresql://"),
    ) {
        DatabaseKind::Postgres
    } else {
        DatabaseKind::Sqlite
    }
}

/// The kind of database that a URL stands for.
pub open spec fn kind_of_url(url: Seq<char>) -> DatabaseKind {
    if starts_with(url, "postgres://"@) || starts_with(url, "postgresql://"@) {
        DatabaseKind::Postgres
    } else {
        DatabaseKind::Sqlite
    }
}

/// Whatever follows one of its two schemes, a URL stands for Postgres; a URL that is shorter than
/// them, or begins with another letter, stands for SQLite.
pub proof fn law_schemes_decide(rest: Seq<char>)
    ensures
        kind_of_url("postgres://"@ + rest) == DatabaseKind::Postgres,
        kind_of_url("postgresql://"@ + rest) == DatabaseKind::Postgres,
        rest.len() < 11 || rest[0] != 'p' ==> kind_of_url(rest) == DatabaseKind::Sqlite,
{
    reveal_strlit("postgres://");
    reveal_strlit("postgresql://");
    let a = "postgres://"@;
    let b = "postgresql://"@;
    assert((a + rest).take(a.len() as int) =~= a);
    assert((b + rest).take(b.len() as int) =~= b);
    if starts_with(rest, a) {
        assert(rest.take(a.len() as int)[0] == 'p');
    }
    if starts_with(rest, b) {
        assert(rest.take(b.len() as int)[0] == 'p');
    }
}

} // verus!
