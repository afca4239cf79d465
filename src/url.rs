//! Connection urls: `scheme:path`, where only the embedded-file scheme
//! `sqlite` is supported and the path is placed under the application's own
//! directory.
use vstd::prelude::*;
use vstd::string::{StrSliceExecFns, StringExecFns};
use std::path::PathBuf;
use crate::error::DbError;

verus! {

/// The scheme of the embedded-file database engine.
pub open spec fn sqlite_scheme() -> Seq<char> {
    seq!['s', 'q', 'l', 'i', 't', 'e']
}

/// Whether `i` is the position of the first `:` of `s`.
pub open spec fn is_first_colon(s: Seq<char>, i: int) -> bool {
    0 <= i < s.len() && s[i] == ':' && forall|j: int| 0 <= j < i ==> s[j] != ':'
}

/// The parts of `s` before and after its first `:`, if it has one.
pub open spec fn url_parts(s: Seq<char>) -> Option<(Seq<char>, Seq<char>)> {
    if exists|i: int| is_first_colon(s, i) {
        let i = choose|i: int| is_first_colon(s, i);
        Some((s.subrange(0, i), s.subrange(i + 1, s.len() as int)))
    } else {
        None
    }
}

/// Whether a connection url names a supported scheme.
pub open spec fn url_supported(s: Seq<char>) -> bool {
    url_parts(s) matches Some(p) && p.0 == sqlite_scheme()
}

/// Splits `s` at its first `:` into the scheme and the rest.
pub fn split_url(s: &str) -> (r: Option<(String, String)>)
    ensures
        r is None <==> url_parts(s@) is None,
        r matches Some(p) ==> url_parts(s@) == Some((p.0@, p.1@)),
{
    let n = s.unicode_len();
    let mut i: usize = 0;
    while i < n
        invariant
            n == s@.len(),
            0 <= i <= n,
            forall|j: int| 0 <= j < i ==> s@[j] != ':',
        decreases n - i,
    {
        if s.get_char(i) == ':' {
            let a = s.substring_char(0, i).to_owned();
            let b = s.substring_char(i + 1, n).to_owned();
            proof {
                assert(is_first_colon(s@, i as int));
                let k = choose|k: int| is_first_colon(s@, k);
                assert(k == i as int);
            }
            return Some((a, b));
        }
        i = i + 1;
    }
    None
}

/// Whether two texts are equal, character by character.
pub fn same_text(a: &str, b: &str) -> (r: bool)
    ensures
        r == (a@ == b@),
{
    let n = a.unicode_len();
    if n != b.unicode_len() {
        return false;
    }
    let mut i: usize = 0;
    while i < n
        invariant
            n == a@.len() == b@.len(),
            0 <= i <= n,
            forall|j: int| 0 <= j < i ==> a@[j] == b@[j],
        decreases n - i,
    {
        if a.get_char(i) != b.get_char(i) {
            return false;
        }
        i = i + 1;
    }
    assert(a@ =~= b@);
    true
}

/// Checks a connection url and hands back its path part: a url without a
/// `:`, or with a scheme other than `sqlite`, is `InvalidDbUrl`.
pub fn check_db_url(conn_url: &str) -> (r: Result<String, DbError>)
    ensures
        r is Ok <==> url_supported(conn_url@),
        r matches Ok(rest) ==> url_parts(conn_url@) == Some((sqlite_scheme(), rest@)),
        r matches Err(e) ==> e matches DbError::InvalidDbUrl(u) && u@ == conn_url@,
{
    proof {
        reveal_strlit("sqlite");
        assert("sqlite"@ =~= sqlite_scheme());
    }
    match split_url(conn_url) {
        Some((scheme, rest)) => {
            if same_text(scheme.as_str(), "sqlite") {
                Ok(rest)
            } else {
                Err(DbError::InvalidDbUrl(conn_url.to_owned()))
            }
        },
        None => Err(DbError::InvalidDbUrl(conn_url.to_owned())),
    }
}

#[verifier::external_type_specification]
#[verifier::external_body]
pub struct ExPathBuf(PathBuf);

/// Relies on `PathBuf::push`: extends the path by `part`, which replaces it
/// when `part` is absolute. Where separators go depends on the platform, so
/// nothing is stated of the outcome.
#[verifier::external_body]
fn push_path(p: &mut PathBuf, part: &str) {
    p.push(part)
}

/// Relies on `Path::to_str`: the path as text, when it is valid unicode.
#[verifier::external_body]
fn path_text(p: &PathBuf) -> (r: Option<String>) {
    match p.to_str() {
        Some(t) => Some(t.to_owned()),
        None => None,
    }
}

/// The url of the database file at `path`: `sqlite:` followed by the path.
pub fn sqlite_url(path: &str) -> (r: String)
    ensures
        r@ == sqlite_scheme().push(':') + path@,
{
    proof {
        reveal_strlit("sqlite:");
        assert("sqlite:"@ =~= sqlite_scheme().push(':'));
    }
    String::from_str("sqlite:").concat(path)
}

/// Maps a connection string `scheme:path` to the url of the file `path`
/// inside the application's directory `app_path`: the scheme is dropped, the
/// text after the first `:` is pushed onto `app_path`, and the resulting path
/// text is made a url by `sqlite_url`. A string without a `:` is
/// `InvalidDbUrl`, as is a resulting path that is not valid unicode.
pub fn path_mapper(app_path: PathBuf, connection_string: &str) -> (r: Result<String, DbError>)
    ensures
        url_parts(connection_string@) is None ==> r is Err,
        r matches Ok(u) ==> exists|t: Seq<char>| u@ == sqlite_scheme().push(':') + t,
        r matches Err(e) ==> e matches DbError::InvalidDbUrl(c) && c@ == connection_string@,
{
    let mut app_path = app_path;
    let rest = match split_url(connection_string) {
        Some((_, rest)) => rest,
        None => {
            return Err(DbError::InvalidDbUrl(connection_string.to_owned()));
        },
    };
    push_path(&mut app_path, rest.as_str());
    match path_text(&app_path) {
        Some(t) => {
            let u = sqlite_url(t.as_str());
            assert(u@ == sqlite_scheme().push(':') + t@);
            Ok(u)
        },
        None => Err(DbError::InvalidDbUrl(connection_string.to_owned())),
    }
}

} // verus!
