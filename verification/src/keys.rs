use vstd::prelude::*;
use vstd::string::StringExecFns;
use crate::bimap::BiKey;

verus! {

/// A URL-like locator, split into its scheme and its path.  It names a
/// durable storage location and doubles as the actor's stable identity.
pub struct PersistenceKey {
    /// The locator's scheme, `file` for the reference backend.
    pub scheme: String,
    /// The locator's path: the storage directory for the `file` scheme.
    pub path: String,
}

impl View for PersistenceKey {
    type V = (Seq<char>, Seq<char>);

    open spec fn view(&self) -> (Seq<char>, Seq<char>) {
        (self.scheme@, self.path@)
    }
}

/// The scheme served by the reference storage backend.
pub open spec fn file_scheme() -> Seq<char> {
    "file"@
}

/// What parsing a locator string yields: its scheme and path, or nothing
/// where the string is not a URL whose path can stand alone.
pub uninterp spec fn parsed_locator(s: Seq<char>) -> Option<(Seq<char>, Seq<char>)>;

/// Relies on url::Url::parse, Url::scheme and Url::path: the outcome is a
/// function of the locator's characters alone.
#[verifier::external_body]
fn parse_locator_raw(s: &str) -> (r: Option<(String, String)>)
    ensures
        match r {
            Some(p) => parsed_locator(s@) == Some((p.0@, p.1@)),
            None => parsed_locator(s@) is None,
        },
{
    match url::Url::parse(s) {
        Ok(u) => Some((u.scheme().to_string(), u.path().to_string())),
        Err(_) => None,
    }
}

impl PersistenceKey {
    /// A key from its two components.
    pub fn new(scheme: String, path: String) -> (r: Self)
        ensures
            r@ == (scheme@, path@),
    {
        PersistenceKey { scheme, path }
    }

    /// A key parsed from a locator string such as `file:///tmp/manager`.
    pub fn from_locator(s: &str) -> (r: Option<Self>)
        ensures
            match r {
                Some(k) => parsed_locator(s@) == Some(k@),
                None => parsed_locator(s@) is None,
            },
    {
        match parse_locator_raw(s) {
            Some(p) => Some(PersistenceKey { scheme: p.0, path: p.1 }),
            None => None,
        }
    }

    /// Whether this key is served by the reference `file` backend.
    pub fn is_file_scheme(&self) -> (r: bool)
        ensures
            r == (self.scheme@ == file_scheme()),
    {
        let f: String = "file".to_owned();
        self.scheme == f
    }
}

impl BiKey for PersistenceKey {
    fn exact_eq(&self, other: &Self) -> (r: bool)
        ensures
            r == (self@ == other@),
    {
        self.scheme == other.scheme && self.path == other.path
    }

    fn dup(&self) -> (r: Self)
        ensures
            r == *self,
    {
        PersistenceKey { scheme: self.scheme.clone(), path: self.path.clone() }
    }
}

} // verus!
