//! Where a book's source lives: a git repository on one of the hosting
//! services that `git_digger` knows, held as its host, owner and name.

use vstd::prelude::*;

verus! {

/// A path segment as `git_digger` extracts it from a URL: not empty and
/// without `/`.
pub open spec fn is_segment(s: Seq<char>) -> bool {
    &&& s.len() > 0
    &&& forall|i: int| 0 <= i < s.len() ==> s[i] != '/'
}

/// A host as `git_digger` extracts it from a URL: not empty, and neither
/// starting nor ending with `/`. (The patterns write the host's dots
/// unescaped, so a dot may match a `/` inside it.)
pub open spec fn is_host(s: Seq<char>) -> bool {
    &&& s.len() > 0
    &&& s[0] != '/'
    &&& s[s.len() - 1] != '/'
}

/// `a/b/c`.
pub open spec fn slash_join(a: Seq<char>, b: Seq<char>, c: Seq<char>) -> Seq<char> {
    a + seq!['/'] + b + seq!['/'] + c
}

/// The host, owner and repository name that `git_digger::Repository::from_url`
/// extracts from `url` (lower-cased), or `None` when the URL matches none of the
/// hosting services it knows.
pub uninterp spec fn git_repository_parts(url: Seq<char>) -> Option<(Seq<char>, Seq<char>, Seq<char>)>;

/// The error `git_digger::Repository::from_url` gives for a URL that names
/// no repository on a host it knows.
pub open spec fn no_match_message(url: Seq<char>) -> Seq<char> {
    "No match for repo in '"@ + url + "'"@
}

/// Parses `url` with `git_digger::Repository::from_url` and reads the
/// repository back as its path relative to an empty root
/// (`Repository::path(Path::new(""))`), or displays the error.
///
/// Trusted: the URL matches a known host exactly when the parts are named.
/// Then owner and name are segments (the patterns capture them with
/// `[^/]+`, lower-cased), and the host is what the host pattern matched,
/// lower-cased: it starts and ends with a letter of the pattern, though an
/// unescaped dot in it may have matched a `/`. The path is
/// `host/owner/name` (`Path::join` onto the empty path of a relative host
/// that does not end in `/`, then of segments, adds one separator each).
/// Otherwise the error reads `No match for repo in '{url}'`.
#[verifier::external_body]
fn repository_path_from_url(url: &str) -> (r: Result<String, String>)
    ensures
        r is Ok <==> git_repository_parts(url@) is Some,
        r matches Ok(p) ==> {
            let (h, o, n) = git_repository_parts(url@).unwrap();
            &&& is_host(h) && is_segment(o) && is_segment(n)
            &&& p@ == slash_join(h, o, n)
        },
        r matches Err(e) ==> e@ == no_match_message(url@),
{
    match git_digger::Repository::from_url(url) {
        Ok(repo) => Ok(repo.path(std::path::Path::new("")).to_string_lossy().into_owned()),
        Err(e) => Err(e.to_string()),
    }
}

/// `git_digger::Repository::url` of the repository made by
/// `Repository::new(host, owner, name)`.
///
/// Trusted: `url` formats `https://{host}/{owner}/{repo}`.
#[verifier::external_body]
fn repository_url(host: &str, owner: &str, name: &str) -> (r: String)
    ensures
        r@ == "https://"@ + slash_join(host@, owner@, name@),
{
    git_digger::Repository::new(host, owner, name).url()
}

/// `git_digger::Repository::path` under an empty root, of the repository
/// made by `Repository::new(host, owner, name)`.
///
/// Trusted: for a host that neither starts nor ends with `/` and segments
/// without `/`, joining them onto the empty path gives `host/owner/name`.
#[verifier::external_body]
fn repository_relative_path(host: &str, owner: &str, name: &str) -> (r: String)
    requires
        is_host(host@),
        is_segment(owner@),
        is_segment(name@),
    ensures
        r@ == slash_join(host@, owner@, name@),
{
    git_digger::Repository::new(host, owner, name).path(std::path::Path::new("")).to_string_lossy().into_owned()
}

/// A git repository: host (such as `github.com`), owner and name.
#[derive(Debug)]
pub struct Repo {
    host: String,
    owner: String,
    name: String,
}

impl View for Repo {
    type V = (Seq<char>, Seq<char>, Seq<char>);

    closed spec fn view(&self) -> (Seq<char>, Seq<char>, Seq<char>) {
        (self.host@, self.owner@, self.name@)
    }
}

impl Repo {
    #[verifier::type_invariant]
    spec fn well_formed(self) -> bool {
        is_host(self.host@) && is_segment(self.owner@) && is_segment(self.name@)
    }

    /// The host, such as `github.com`.
    pub fn host(&self) -> (r: &str)
        ensures
            r@ == self@.0,
    {
        self.host.as_str()
    }

    /// The owner of the repository.
    pub fn owner(&self) -> (r: &str)
        ensures
            r@ == self@.1,
    {
        self.owner.as_str()
    }

    /// The name of the repository.
    pub fn name(&self) -> (r: &str)
        ensures
            r@ == self@.2,
    {
        self.name.as_str()
    }

    /// The web address: `https://host/owner/name`.
    pub fn url(&self) -> (r: String)
        ensures
            r@ == "https://"@ + slash_join(self@.0, self@.1, self@.2),
    {
        repository_url(self.host.as_str(), self.owner.as_str(), self.name.as_str())
    }

    /// Where the repository sits below a root directory: `host/owner/name`.
    pub fn path(&self) -> (r: String)
        ensures
            r@ == slash_join(self@.0, self@.1, self@.2),
            is_host(self@.0) && is_segment(self@.1) && is_segment(self@.2),
    {
        proof { use_type_invariant(self); }
        repository_relative_path(self.host.as_str(), self.owner.as_str(), self.name.as_str())
    }
}

/// The last `/` in `h/o/n` starts `n`, and the one before it starts `o`.
proof fn lemma_slash_join_parts(h: Seq<char>, o: Seq<char>, n: Seq<char>)
    requires
        is_host(h),
        is_segment(o),
        is_segment(n),
    ensures
        ({
            let p = slash_join(h, o, n);
            let hl = h.len() as int;
            let ol = o.len() as int;
            &&& p.len() == hl + ol + n.len() + 2
            &&& p.subrange(0, hl) == h
            &&& p[hl] == '/'
            &&& p.subrange(hl + 1, hl + 1 + ol) == o
            &&& p[hl + 1 + ol] == '/'
            &&& p.subrange(hl + 2 + ol, p.len() as int) == n
            &&& forall|k: int| hl + 2 + ol <= k < p.len() ==> p[k] != '/'
            &&& forall|k: int| hl + 1 <= k < hl + 1 + ol ==> p[k] != '/'
        }),
{
    let p = slash_join(h, o, n);
    let hl = h.len() as int;
    let ol = o.len() as int;
    assert(p.subrange(0, hl) =~= h);
    assert(p.subrange(hl + 1, hl + 1 + ol) =~= o);
    assert(p.subrange(hl + 2 + ol, p.len() as int) =~= n);
    assert forall|k: int| hl + 1 <= k < hl + 1 + ol implies p[k] != '/' by {
        assert(p[k] == o[k - hl - 1]);
    }
    assert forall|k: int| hl + 2 + ol <= k < p.len() implies p[k] != '/' by {
        assert(p[k] == n[k - hl - 2 - ol]);
    }
}

/// Position of the last `/` before `end`, given that one stands at `at` and
/// none after it before `end`.
fn find_slash_back(p: &str, end: usize, Ghost(at): Ghost<int>) -> (i: usize)
    requires
        0 <= at < end <= p@.len(),
        p@[at] == '/',
        forall|k: int| at < k < end ==> p@[k] != '/',
    ensures
        i == at,
{
    let mut i: usize = end - 1;
    while p.get_char(i) != '/'
        invariant
            0 <= at <= i < end <= p@.len(),
            p@[at] == '/',
            forall|k: int| at < k < end ==> p@[k] != '/',
        decreases i - at,
    {
        assert(i != at);
        i = i - 1;
    }
    i
}

/// The repository that `git_digger` finds in `url`, or the error it gives
/// when `url` names no repository on a host it knows.
pub fn from_url(url: &str) -> (r: Result<Repo, String>)
    ensures
        r is Ok <==> git_repository_parts(url@) is Some,
        r matches Ok(repo) ==> repo@ == git_repository_parts(url@).unwrap(),
        r matches Err(e) ==> e@ == no_match_message(url@),
{
    match repository_path_from_url(url) {
        Err(e) => Err(e),
        Ok(p) => {
            let ghost parts = git_repository_parts(url@).unwrap();
            let ghost h = parts.0;
            let ghost o = parts.1;
            let ghost n = parts.2;
            proof { lemma_slash_join_parts(h, o, n); }
            let s = p.as_str();
            let len = s.unicode_len();
            let second = find_slash_back(s, len, Ghost(h.len() as int + 1 + o.len() as int));
            let first = find_slash_back(s, second, Ghost(h.len() as int));
            let host = String::from_str(s.substring_char(0, first));
            let owner = String::from_str(s.substring_char(first + 1, second));
            let name = String::from_str(s.substring_char(second + 1, len));
            Ok(Repo { host, owner, name })
        },
    }
}

} // verus!
