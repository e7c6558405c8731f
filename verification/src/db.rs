//! Choosing the database: a local file, or a replica of a remote database
//! kept in that file.
use vstd::prelude::*;
use crate::text::{chars_of, chars_slice, join_text, string_of_chars};

verus! {

/// The position of the last `c` in `s`, if there is one.
pub open spec fn last_index_of(s: Seq<char>, c: char) -> Option<nat>
    decreases s.len(),
{
    if s.len() == 0 {
        None
    } else if s.last() == c {
        Some((s.len() - 1) as nat)
    } else {
        last_index_of(s.drop_last(), c)
    }
}

/// The directory of a database file: everything before the last `/`, or
/// nothing when the path has no `/` (what joining all but the last
/// `/`-separated part with `/` gives).
pub open spec fn db_directory_of(path: Seq<char>) -> Seq<char> {
    match last_index_of(path, '/') {
        Some(i) => path.take(i as int),
        None => Seq::empty(),
    }
}

/// The directory that must exist before the database file is opened.
pub fn db_directory(db_file_path: &str) -> (res: String)
    ensures
        res@ == db_directory_of(db_file_path@),
{
    let path = chars_of(db_file_path);
    let mut i: usize = path.len();
    assert(path@.take(i as int) =~= path@);
    while i > 0 && path[i - 1] != '/'
        invariant
            i <= path@.len(),
            path@ == db_file_path@,
            last_index_of(path@, '/') == last_index_of(path@.take(i as int), '/'),
        decreases i,
    {
        assert(path@.take(i as int).drop_last() =~= path@.take(i - 1));
        i = i - 1;
    }
    if i == 0 {
        proof {
            assert(path@.take(0) =~= Seq::<char>::empty());
        }
        String::new()
    } else {
        let dir = chars_slice(&path, 0, i - 1);
        proof {
            assert(path@.take(i as int).last() == '/');
            assert(dir@ =~= path@.take(i - 1));
        }
        string_of_chars(&dir)
    }
}

/// Why the database cannot be opened.
#[derive(Clone, Copy, Debug, PartialEq, Eq, Structural)]
pub enum DbConfigError {
    /// `DB_FILE_PATH` is not set.
    MissingFilePath,
    /// `DB_URL` is set without `DB_AUTH_TOKEN`.
    MissingAuthToken,
}

/// The message of each error.
pub open spec fn db_config_error_text(e: DbConfigError) -> Seq<char> {
    match e {
        DbConfigError::MissingFilePath => "DB_FILE_PATH must be set"@,
        DbConfigError::MissingAuthToken => "DB_AUTH_TOKEN must be provided with DB_URL"@,
    }
}

impl DbConfigError {
    /// The message of the error.
    pub fn message(&self) -> (res: &'static str)
        ensures
            res@ == db_config_error_text(*self),
    {
        match self {
            DbConfigError::MissingFilePath => "DB_FILE_PATH must be set",
            DbConfigError::MissingAuthToken => "DB_AUTH_TOKEN must be provided with DB_URL",
        }
    }
}

/// Where the database lives: its file, the file's directory, and the
/// remote database it replicates, if any.
pub struct DbPlan {
    pub file_path: String,
    pub directory: String,
    pub remote_url: Option<String>,
}

/// The database that the settings `DB_URL` and `DB_FILE_PATH` describe: the
/// file is required; an empty or missing URL means a local database.
pub fn plan_database(db_url: Option<String>, db_file_path: Option<String>) -> (res: Result<
    DbPlan,
    DbConfigError,
>)
    ensures
        match db_file_path {
            None => res == Err::<DbPlan, _>(DbConfigError::MissingFilePath),
            Some(path) => res matches Ok(plan) && plan.file_path == path && plan.directory@
                == db_directory_of(path@) && match db_url {
                Some(url) if url@.len() > 0 => plan.remote_url == Some(url),
                _ => plan.remote_url is None,
            },
        },
{
    let file_path = match db_file_path {
        Some(path) => path,
        None => {
            return Err(DbConfigError::MissingFilePath);
        },
    };
    let directory = db_directory(file_path.as_str());
    let remote_url = match db_url {
        Some(url) => if url.as_str().is_empty() {
            None
        } else {
            Some(url)
        },
        None => None,
    };
    Ok(DbPlan { file_path, directory, remote_url })
}

/// The token for a remote database: required when a URL is given.
pub fn replica_auth_token(token: Option<String>) -> (res: Result<String, DbConfigError>)
    ensures
        match token {
            Some(t) => res == Ok::<String, DbConfigError>(t),
            None => res == Err::<String, _>(DbConfigError::MissingAuthToken),
        },
{
    match token {
        Some(t) => Ok(t),
        None => Err(DbConfigError::MissingAuthToken),
    }
}

/// The parts of `s` between occurrences of `c`, as `str::split` with a
/// character separator gives them (always at least one part).
pub open spec fn split_char(s: Seq<char>, c: char) -> Seq<Seq<char>>
    decreases s.len(),
{
    if s.len() == 0 {
        seq![Seq::empty()]
    } else {
        let rest = split_char(s.drop_last(), c);
        if s.last() == c {
            rest.push(Seq::empty())
        } else {
            rest.update(rest.len() - 1, rest.last().push(s.last()))
        }
    }
}

proof fn lemma_split_char_nonempty(s: Seq<char>, c: char)
    ensures
        split_char(s, c).len() >= 1,
    decreases s.len(),
{
    if s.len() > 0 {
        lemma_split_char_nonempty(s.drop_last(), c);
    }
}

proof fn lemma_join_split_char(s: Seq<char>, c: char)
    ensures
        join_text(split_char(s, c), seq![c]) == s,
    decreases s.len(),
{
    if s.len() > 0 {
        let prev = s.drop_last();
        lemma_join_split_char(prev, c);
        lemma_split_char_nonempty(prev, c);
        let rest = split_char(prev, c);
        let parts = split_char(s, c);
        if s.last() == c {
            assert(parts.drop_last() =~= rest);
            assert(s =~= prev + seq![c] + Seq::<char>::empty());
        } else {
            if rest.len() == 1 {
                assert(s =~= prev.push(s.last()));
            } else {
                assert(parts.drop_last() =~= rest.drop_last());
                assert(join_text(rest, seq![c]) == join_text(rest.drop_last(), seq![c]) + seq![c]
                    + rest.last());
                let head = join_text(rest.drop_last(), seq![c]) + seq![c];
                assert(prev == head + rest.last());
                assert(s =~= prev.push(s.last()));
                assert(s =~= head + rest.last().push(s.last()));
                assert(join_text(parts, seq![c]) == join_text(parts.drop_last(), seq![c]) + seq![c]
                    + parts.last());
            }
        }
    }
}

/// The directory of a database file is what joining its `/`-separated
/// parts, all but the last, with `/` gives.
pub proof fn lemma_db_directory_is_joined_parts(path: Seq<char>)
    ensures
        db_directory_of(path) == join_text(split_char(path, '/').drop_last(), seq!['/']),
    decreases path.len(),
{
    if path.len() == 0 {
        assert(split_char(path, '/').drop_last() =~= Seq::<Seq<char>>::empty());
    } else {
        let prev = path.drop_last();
        lemma_split_char_nonempty(prev, '/');
        let rest = split_char(prev, '/');
        if path.last() == '/' {
            assert(split_char(path, '/').drop_last() =~= rest);
            lemma_join_split_char(prev, '/');
            assert(path.take(path.len() - 1) =~= prev);
        } else {
            lemma_db_directory_is_joined_parts(prev);
            assert(split_char(path, '/').drop_last() =~= rest.drop_last());
            match last_index_of(prev, '/') {
                Some(i) => {
                    lemma_last_index_in_range(prev, '/');
                    assert(path.take(i as int) =~= prev.take(i as int));
                },
                None => {},
            }
        }
    }
}

proof fn lemma_last_index_in_range(s: Seq<char>, c: char)
    ensures
        last_index_of(s, c) matches Some(i) ==> i < s.len(),
    decreases s.len(),
{
    if s.len() > 0 {
        lemma_last_index_in_range(s.drop_last(), c);
    }
}

} // verus!
