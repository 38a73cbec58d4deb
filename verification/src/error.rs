//! The server-level error type and the database-location configuration
//! rules: which store URI to use, and which directory it lives in.

use vstd::prelude::*;

use crate::strutil::{str_has_prefix, str_has_suffix};

verus! {

/// Errors of the surrounding server: an unreadable or unparsable entry
/// file (the caller holds the underlying cause), or an invalid store
/// URI.
#[derive(Debug)]
pub enum RecipeServerError {
    /// An entry file could not be found or opened.
    RecipeNotFound,
    /// An entry file could not be parsed.
    RecipeMisformat,
    /// The provided store URI is invalid; holds the problematic URI.
    InvalidDbUri(String),
}

/// Selects the store URI: an explicit argument wins, then the value of
/// the environment (handed in by the caller), then the default.
pub fn get_db_uri(arg: Option<&str>, env: Option<&str>) -> (r: String)
    ensures
        arg matches Some(u) ==> r@ == u@,
        arg is None ==> (env matches Some(u) ==> r@ == u@),
        arg is None && env is None ==> r@ == "sqlite://db/recipes.db"@,
{
    match arg {
        Some(u) => u.to_owned(),
        None => match env {
            Some(u) => u.to_owned(),
            None => "sqlite://db/recipes.db".to_owned(),
        },
    }
}

/// Whether a store URI has the accepted shape: the sqlite scheme prefix
/// and the `.db` file suffix.
pub open spec fn valid_db_uri(s: Seq<char>) -> bool {
    &&& s.len() >= 9
    &&& s.subrange(0, 9) == "sqlite://"@
    &&& s.len() >= 3
    &&& s.subrange(s.len() - 3, s.len() as int) == ".db"@
}

/// The directory part of a path: everything before the last slash, or
/// empty when there is none.
pub open spec fn dir_prefix(path: Seq<char>) -> Seq<char>
    decreases path.len(),
{
    if path.len() == 0 {
        Seq::empty()
    } else if path.last() == '/' {
        path.drop_last()
    } else {
        dir_prefix(path.drop_last())
    }
}

proof fn lemma_dir_prefix_at(path: Seq<char>, k: int)
    requires
        0 <= k < path.len(),
        path[k] == '/',
        forall|l: int| k < l < path.len() ==> path[l] != '/',
    ensures
        dir_prefix(path) == path.take(k),
    decreases path.len(),
{
    if k == path.len() - 1 {
        assert(path.drop_last() =~= path.take(k));
    } else {
        assert(path.last() != '/');
        lemma_dir_prefix_at(path.drop_last(), k);
        assert(path.drop_last().take(k) =~= path.take(k));
    }
}

proof fn lemma_dir_prefix_none(path: Seq<char>)
    requires
        forall|l: int| 0 <= l < path.len() ==> path[l] != '/',
    ensures
        dir_prefix(path) == Seq::<char>::empty(),
    decreases path.len(),
{
    if path.len() > 0 {
        lemma_dir_prefix_none(path.drop_last());
    }
}

/// Extracts the directory part of a sqlite store URI, so the caller can
/// create it before creating the store file.  Rejects any URI without
/// the sqlite scheme prefix or the `.db` suffix, reporting the URI
/// itself.
#[verifier::loop_isolation(false)]
pub fn extract_db_dir(db_uri: &str) -> (r: Result<String, RecipeServerError>)
    ensures
        r is Ok <==> valid_db_uri(db_uri@),
        r matches Ok(d) ==> d@ == dir_prefix(db_uri@.skip(9)),
        r matches Err(e) ==> (e matches RecipeServerError::InvalidDbUri(u) && u@ == db_uri@),
{
    proof {
        reveal_strlit("sqlite://");
        reveal_strlit(".db");
    }
    if !str_has_prefix(db_uri, "sqlite://") || !str_has_suffix(db_uri, ".db") {
        return Err(RecipeServerError::InvalidDbUri(db_uri.to_owned()));
    }
    let n = db_uri.unicode_len();
    let ghost rest = db_uri@.skip(9);
    let mut j: usize = n;
    while j > 9 && db_uri.get_char(j - 1) != '/'
        invariant
            9 <= j <= n,
            n == db_uri@.len(),
            forall|l: int| j <= l < n ==> db_uri@[l] != '/',
        decreases j,
    {
        j -= 1;
    }
    if j > 9 {
        let d = db_uri.substring_char(9, j - 1).to_owned();
        proof {
            assert(db_uri@[j - 1] == '/');
            assert(rest[j - 1 - 9] == '/');
            assert(forall|l: int| j - 9 <= l < rest.len() ==> rest[l] != '/');
            lemma_dir_prefix_at(rest, j - 1 - 9);
            assert(d@ =~= rest.take(j - 1 - 9));
        }
        Ok(d)
    } else {
        let d = String::new();
        proof {
            assert(forall|l: int| 0 <= l < rest.len() ==> rest[l] != '/');
            lemma_dir_prefix_none(rest);
        }
        Ok(d)
    }
}

} // verus!
