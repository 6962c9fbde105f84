//! Destination Resolver: derives the local file name of a download from the
//! path of its URL, without touching the filesystem.
use vstd::prelude::*;
use vstd::string::*;

verus! {

/// The name used when a URL's path yields no usable last segment.
pub open spec fn fallback_name() -> Seq<char> {
    "temp"@
}

/// The fallback name as a value.
pub fn fallback_file_name() -> (r: String)
    ensures
        r@ == fallback_name(),
{
    String::from_str("temp")
}

/// What the URL parser makes of a text: `None` when the text is no URL,
/// else the URL's percent-encoded path.
pub uninterp spec fn url_path_of(text: Seq<char>) -> Option<Seq<char>>;

/// Relies on url's `Url::parse` (re-exported by reqwest) to parse the text,
/// and reads the parsed URL's `path`. Both depend on the text alone.
#[verifier::external_body]
fn parse_url_path(text: &str) -> (r: Option<String>)
    ensures
        r matches Some(p) ==> url_path_of(text@) == Some(p@),
        r is None ==> url_path_of(text@) is None,
{
    reqwest::Url::parse(text).ok().map(|u| u.path().to_string())
}

/// Index of the last `/` in `p`, or -1 when there is none.
pub open spec fn last_slash(p: Seq<char>) -> int
    decreases p.len(),
{
    if p.len() == 0 {
        -1
    } else if p.last() == '/' {
        p.len() - 1
    } else {
        last_slash(p.drop_last())
    }
}

/// The last of the `/`-separated segments of a URL path. A path that does
/// not start with `/` (a cannot-be-a-base URL) has no segments at all.
pub open spec fn last_segment(path: Seq<char>) -> Option<Seq<char>> {
    if path.len() > 0 && path[0] == '/' {
        Some(path.subrange(last_slash(path) + 1, path.len() as int))
    } else {
        None
    }
}

/// The file name for a URL path: its last segment when that is non-empty,
/// else the fallback name.
pub open spec fn file_name_of_path(path: Seq<char>) -> Seq<char> {
    match last_segment(path) {
        Some(s) => if s.len() > 0 {
            s
        } else {
            fallback_name()
        },
        None => fallback_name(),
    }
}

/// The file name for a URL text; a text that is no URL has no path segments.
pub open spec fn file_name_of_url(url: Seq<char>) -> Seq<char> {
    match url_path_of(url) {
        Some(path) => file_name_of_path(path),
        None => fallback_name(),
    }
}

/// A resolved local destination: the output directory and the file name
/// that is joined onto it.
#[derive(Clone, Debug)]
pub struct Destination {
    pub dir: String,
    pub file_name: String,
}

impl View for Destination {
    type V = (Seq<char>, Seq<char>);

    open spec fn view(&self) -> (Seq<char>, Seq<char>) {
        (self.dir@, self.file_name@)
    }
}

/// The destination that a URL resolves to under an output directory.
pub open spec fn resolve_spec(dir: Seq<char>, url: Seq<char>) -> (Seq<char>, Seq<char>) {
    (dir, file_name_of_url(url))
}

proof fn lemma_last_slash_bounds(p: Seq<char>)
    ensures
        -1 <= last_slash(p) < p.len(),
        last_slash(p) >= 0 ==> p[last_slash(p)] == '/',
        forall|j: int| last_slash(p) < j < p.len() ==> p[j] != '/',
    decreases p.len(),
{
    if p.len() > 0 && p.last() != '/' {
        lemma_last_slash_bounds(p.drop_last());
        assert forall|j: int| last_slash(p) < j < p.len() implies p[j] != '/' by {
            if j < p.len() - 1 {
                assert(p.drop_last()[j] == p[j]);
            }
        }
    }
}

/// Finds the index of the last `/` in `s`, or `None` when there is none.
fn find_last_slash(s: &str) -> (r: Option<usize>)
    ensures
        match r {
            Some(k) => k as int == last_slash(s@),
            None => last_slash(s@) == -1,
        },
{
    let n = s.unicode_len();
    let mut i: usize = n;
    proof {
        assert(s@.subrange(0, n as int) =~= s@);
    }
    while i > 0
        invariant
            i <= n == s@.len(),
            last_slash(s@) == last_slash(s@.subrange(0, i as int)),
        decreases i,
    {
        let c = s.get_char(i - 1);
        proof {
            let q = s@.subrange(0, i as int);
            assert(q.drop_last() =~= s@.subrange(0, i - 1));
        }
        if c == '/' {
            return Some(i - 1);
        }
        i = i - 1;
    }
    proof {
        assert(s@.subrange(0, 0).len() == 0);
    }
    None
}

/// The last segment of a URL path, as `path_segments().last()` gives it.
pub fn last_path_segment(path: &str) -> (r: Option<String>)
    ensures
        match r {
            Some(s) => last_segment(path@) == Some(s@),
            None => last_segment(path@) is None,
        },
{
    let n = path.unicode_len();
    if n == 0 || path.get_char(0) != '/' {
        return None;
    }
    proof {
        assert(path@.subrange(0, n as int) =~= path@);
        lemma_last_slash_bounds(path@);
    }
    let k = find_last_slash(path);
    match k {
        Some(k) => {
            let seg = path.substring_char(k + 1, n);
            Some(String::from_str(seg))
        },
        None => None,
    }
}

/// The file name for a URL path: its last segment when that is non-empty,
/// else the fallback name.
pub fn file_name_from_path(path: &str) -> (r: String)
    ensures
        r@ == file_name_of_path(path@),
{
    match last_path_segment(path) {
        Some(s) => {
            if s.unicode_len() > 0 {
                s
            } else {
                fallback_file_name()
            }
        },
        None => fallback_file_name(),
    }
}

/// Resolves the destination of a URL under `output_dir`. Pure: it reads no
/// filesystem state, and the result depends on its arguments alone.
pub fn resolve(output_dir: &str, url: &str) -> (d: Destination)
    ensures
        d@ == resolve_spec(output_dir@, url@),
{
    let name = match parse_url_path(url) {
        Some(path) => file_name_from_path(path.as_str()),
        None => fallback_file_name(),
    };
    Destination { dir: String::from_str(output_dir), file_name: name }
}

impl Destination {
    /// A copy of this destination, equal to it.
    pub fn duplicate(&self) -> (r: Destination)
        ensures
            r == *self,
    {
        Destination { dir: self.dir.clone(), file_name: self.file_name.clone() }
    }
}

/// The file name of a URL is the last segment of its path whenever that
/// segment is non-empty, and the fallback name when the URL has no path
/// segments or its last one is empty. The last segment holds no `/` and
/// follows one.
pub proof fn lemma_file_name_is_last_segment(dir: Seq<char>, url: Seq<char>)
    ensures
        resolve_spec(dir, url).0 == dir,
        url_path_of(url) matches Some(path) ==> match last_segment(path) {
            Some(seg) => {
                &&& seg.len() > 0 ==> resolve_spec(dir, url).1 == seg
                &&& seg.len() == 0 ==> resolve_spec(dir, url).1 == fallback_name()
                &&& forall|j: int| 0 <= j < seg.len() ==> seg[j] != '/'
                &&& path == path.subrange(0, path.len() - seg.len()) + seg
                &&& path[path.len() - seg.len() - 1] == '/'
            },
            None => resolve_spec(dir, url).1 == fallback_name(),
        },
        url_path_of(url) is None ==> resolve_spec(dir, url).1 == fallback_name(),
{
    if let Some(path) = url_path_of(url) {
        lemma_last_slash_bounds(path);
        if let Some(seg) = last_segment(path) {
            assert(path == path.subrange(0, path.len() - seg.len()) + seg);
        }
    }
}

/// Resolving is pure: two resolutions of the same directory and URL give
/// the same destination.
pub proof fn lemma_resolve_is_pure(dir: Seq<char>, url: Seq<char>, d1: Destination, d2: Destination)
    requires
        d1@ == resolve_spec(dir, url),
        d2@ == resolve_spec(dir, url),
    ensures
        d1@ == d2@,
{
}

} // verus!
