//! Image links: which URLs are accepted, and how they are routed through the image proxy.
use vstd::prelude::*;
use crate::text::{chars_of, same_text};
use crate::encoding::{url_encode, url_encoded, push_str};
use url::ParseError;

verus! {

/// Why a link is not a URL: the kinds of `url::ParseError`.
#[derive(PartialEq, Eq, Debug)]
pub enum UrlError {
    EmptyHost,
    IdnaError,
    InvalidPort,
    InvalidIpv4Address,
    InvalidIpv6Address,
    InvalidDomainCharacter,
    RelativeUrlWithoutBase,
    RelativeUrlWithCannotBeABaseBase,
    SetHostOnCannotBeABaseUrl,
    Overflow,
    /// A kind that a later version of `url` may add, with its text.
    Other(String),
}

/// The text of each kind of error, as `url::ParseError` displays it.
pub open spec fn url_error_text(e: UrlError) -> Seq<char> {
    match e {
        UrlError::EmptyHost => "empty host"@,
        UrlError::IdnaError => "invalid international domain name"@,
        UrlError::InvalidPort => "invalid port number"@,
        UrlError::InvalidIpv4Address => "invalid IPv4 address"@,
        UrlError::InvalidIpv6Address => "invalid IPv6 address"@,
        UrlError::InvalidDomainCharacter => "invalid domain character"@,
        UrlError::RelativeUrlWithoutBase => "relative URL without a base"@,
        UrlError::RelativeUrlWithCannotBeABaseBase => "relative URL with a cannot-be-a-base base"@,
        UrlError::SetHostOnCannotBeABaseUrl => "a cannot-be-a-base URL doesn’t have a host to set"@,
        UrlError::Overflow => "URLs more than 4 GB are not supported"@,
        UrlError::Other(t) => t@,
    }
}

impl UrlError {
    /// The error's text.
    pub fn message(&self) -> (r: String)
        ensures
            r@ == url_error_text(*self),
    {
        match self {
            UrlError::EmptyHost => "empty host".to_owned(),
            UrlError::IdnaError => "invalid international domain name".to_owned(),
            UrlError::InvalidPort => "invalid port number".to_owned(),
            UrlError::InvalidIpv4Address => "invalid IPv4 address".to_owned(),
            UrlError::InvalidIpv6Address => "invalid IPv6 address".to_owned(),
            UrlError::InvalidDomainCharacter => "invalid domain character".to_owned(),
            UrlError::RelativeUrlWithoutBase => "relative URL without a base".to_owned(),
            UrlError::RelativeUrlWithCannotBeABaseBase => "relative URL with a cannot-be-a-base base".to_owned(),
            UrlError::SetHostOnCannotBeABaseUrl => "a cannot-be-a-base URL doesn’t have a host to set".to_owned(),
            UrlError::Overflow => "URLs more than 4 GB are not supported".to_owned(),
            UrlError::Other(t) => t.clone(),
        }
    }
}

/// What `url::Url::parse` makes of `input`: the path of the URL (`Url::path`), or the kind of
/// error.
pub uninterp spec fn url_parse(input: Seq<char>) -> Result<Seq<char>, UrlError>;

/// Parses `input` with `url::Url::parse` and returns the URL's path (`Url::path`), or the kind
/// of the parse error (one `UrlError` variant for each `url::ParseError` variant; `Other` with
/// the `Display` text for a variant that this version of `url` does not have).
///
/// Trusted: the result is what `url_parse` names for `input`: the path where the call
/// succeeds, the error's kind where it fails.
#[verifier::external_body]
fn parse_url_path(input: &str) -> (r: Result<String, UrlError>)
    ensures
        match (r, url_parse(input@)) {
            (Ok(p), Ok(q)) => p@ == q,
            (Err(e), Err(f)) => e == f,
            _ => false,
        },
{
    match url::Url::parse(input) {
        Ok(u) => Ok(u.path().to_string()),
        Err(ParseError::EmptyHost) => Err(UrlError::EmptyHost),
        Err(ParseError::IdnaError) => Err(UrlError::IdnaError),
        Err(ParseError::InvalidPort) => Err(UrlError::InvalidPort),
        Err(ParseError::InvalidIpv4Address) => Err(UrlError::InvalidIpv4Address),
        Err(ParseError::InvalidIpv6Address) => Err(UrlError::InvalidIpv6Address),
        Err(ParseError::InvalidDomainCharacter) => Err(UrlError::InvalidDomainCharacter),
        Err(ParseError::RelativeUrlWithoutBase) => Err(UrlError::RelativeUrlWithoutBase),
        Err(ParseError::RelativeUrlWithCannotBeABaseBase) => Err(UrlError::RelativeUrlWithCannotBeABaseBase),
        Err(ParseError::SetHostOnCannotBeABaseUrl) => Err(UrlError::SetHostOnCannotBeABaseUrl),
        Err(ParseError::Overflow) => Err(UrlError::Overflow),
        Err(other) => Err(UrlError::Other(format!("{}", other))),
    }
}

/// Start of the last `/`-separated segment of `p` (0 if `p` has no `/`).
pub open spec fn segment_start(p: Seq<char>) -> int
    decreases p.len(),
{
    if p.len() == 0 {
        0
    } else if p.last() == '/' {
        p.len() as int
    } else {
        segment_start(p.drop_last())
    }
}

/// The file name of a path as `std::path::Path::file_name` reads it: the last segment that is
/// neither empty nor `.`, unless that segment is `..`.
pub open spec fn file_name(p: Seq<char>) -> Option<Seq<char>>
    decreases p.len(),
{
    let k = segment_start(p);
    let seg = p.skip(k);
    if seg == Seq::<char>::empty() || seg == seq!['.'] {
        if k <= 0 {
            None
        } else {
            proof {
                lemma_segment_start(p);
            }
            file_name(p.take(k - 1))
        }
    } else if seg == seq!['.', '.'] {
        None
    } else {
        Some(seg)
    }
}

/// Position of the last `.` in `s`, or -1.
pub open spec fn last_dot(s: Seq<char>) -> int
    decreases s.len(),
{
    if s.len() == 0 {
        -1
    } else if s.last() == '.' {
        s.len() - 1
    } else {
        last_dot(s.drop_last())
    }
}

/// The extension of a file name as `Path::extension` reads it: the text after the last `.`,
/// unless there is no `.` or the only `.` that counts opens the name.
pub open spec fn name_extension(name: Seq<char>) -> Option<Seq<char>> {
    let d = last_dot(name);
    if d <= 0 {
        None
    } else {
        Some(name.skip(d + 1))
    }
}

/// The extension of the file named by a path.
pub open spec fn path_extension(p: Seq<char>) -> Option<Seq<char>> {
    match file_name(p) {
        Some(name) => name_extension(name),
        None => None,
    }
}

/// The image formats that overlays show: png, jpg, jpeg, webp, avif, jxl, bmp and svg.
pub open spec fn is_image_extension(e: Seq<char>) -> bool {
    ||| e == seq!['p', 'n', 'g']
    ||| e == seq!['j', 'p', 'g']
    ||| e == seq!['j', 'p', 'e', 'g']
    ||| e == seq!['w', 'e', 'b', 'p']
    ||| e == seq!['a', 'v', 'i', 'f']
    ||| e == seq!['j', 'x', 'l']
    ||| e == seq!['b', 'm', 'p']
    ||| e == seq!['s', 'v', 'g']
}

/// Whether a URL path names a file of an accepted image format.
pub open spec fn is_image_path(p: Seq<char>) -> bool {
    match path_extension(p) {
        Some(e) => is_image_extension(e),
        None => false,
    }
}

/// Why an image link was refused.
pub enum ImageUrlError {
    /// The link is not a URL.
    InvalidUrl(UrlError),
    /// The link's file has no extension, or one that is not an accepted image format.
    ExtensionNotAllowed,
}

impl ImageUrlError {
    /// The text shown to the chat.
    pub fn message(&self) -> (r: String)
        ensures
            r@ == match *self {
                ImageUrlError::InvalidUrl(e) => url_error_text(e),
                ImageUrlError::ExtensionNotAllowed => "Extension not found or whitelisted"@,
            },
    {
        match self {
            ImageUrlError::InvalidUrl(e) => e.message(),
            ImageUrlError::ExtensionNotAllowed => "Extension not found or whitelisted".to_owned(),
        }
    }
}

/// Where the last segment starts: after a `/`, with no `/` after it.
pub proof fn lemma_segment_start(p: Seq<char>)
    ensures
        0 <= segment_start(p) <= p.len(),
        segment_start(p) > 0 ==> p[segment_start(p) - 1] == '/',
        forall|i: int| segment_start(p) <= i < p.len() ==> p[i] != '/',
    decreases p.len(),
{
    if p.len() > 0 && p.last() != '/' {
        lemma_segment_start(p.drop_last());
        assert forall|i: int| segment_start(p) <= i < p.len() implies p[i] != '/' by {
            if i < p.len() - 1 {
                assert(p[i] == p.drop_last()[i]);
            }
        }
        if segment_start(p) > 0 {
            assert(p[segment_start(p) - 1] == p.drop_last()[segment_start(p) - 1]);
        }
    }
}

proof fn lemma_segment_scan(p: Seq<char>, k: int)
    requires
        0 <= k <= p.len(),
        k > 0 ==> p[k - 1] == '/',
        forall|i: int| k <= i < p.len() ==> p[i] != '/',
    ensures
        segment_start(p) == k,
    decreases p.len(),
{
    if k < p.len() {
        assert(p.last() != '/');
        assert forall|i: int| k <= i < p.len() - 1 implies p.drop_last()[i] != '/' by {
            assert(p.drop_last()[i] == p[i]);
        }
        if k > 0 {
            assert(p.drop_last()[k - 1] == p[k - 1]);
        }
        lemma_segment_scan(p.drop_last(), k);
    }
}

proof fn lemma_last_dot_scan(s: Seq<char>, k: int)
    requires
        -1 <= k < s.len(),
        k >= 0 ==> s[k] == '.',
        forall|i: int| k < i < s.len() ==> s[i] != '.',
    ensures
        last_dot(s) == k,
    decreases s.len(),
{
    if k < s.len() - 1 {
        assert(s.last() != '.');
        assert forall|i: int| k < i < s.len() - 1 implies s.drop_last()[i] != '.' by {
            assert(s.drop_last()[i] == s[i]);
        }
        if k >= 0 {
            assert(s.drop_last()[k] == s[k]);
        }
        lemma_last_dot_scan(s.drop_last(), k);
    }
}

/// Start of the last `/`-separated segment of `v[..end]`.
fn find_segment_start(v: &Vec<char>, end: usize) -> (k: usize)
    requires
        end <= v@.len(),
    ensures
        k == segment_start(v@.take(end as int)),
        k <= end,
{
    let mut k = end;
    while k > 0 && v[k - 1] != '/'
        invariant
            k <= end <= v@.len(),
            forall|i: int| k <= i < end ==> v@[i] != '/',
        decreases k,
    {
        k = k - 1;
    }
    proof {
        let p = v@.take(end as int);
        assert forall|i: int| k <= i < p.len() implies p[i] != '/' by {
            assert(p[i] == v@[i]);
        }
        if k > 0 {
            assert(p[k - 1] == v@[k - 1]);
        }
        lemma_segment_scan(p, k as int);
    }
    k
}

/// Bounds `(b, e)` of the file name of the path `v`, or `None` where it has none.
fn file_name_bounds(v: &Vec<char>) -> (r: Option<(usize, usize)>)
    ensures
        match r {
            Some((b, e)) => b <= e <= v@.len() && file_name(v@) == Some(v@.subrange(b as int, e as int)),
            None => file_name(v@) is None,
        },
{
    let mut end = v.len();
    assert(v@.take(end as int) =~= v@);
    loop
        invariant
            end <= v@.len(),
            file_name(v@) == file_name(v@.take(end as int)),
        decreases end,
    {
        let ghost p = v@.take(end as int);
        let k = find_segment_start(v, end);
        proof {
            lemma_segment_start(p);
        }
        let len = end - k;
        assert(p.skip(k as int) =~= v@.subrange(k as int, end as int));
        let is_empty = len == 0;
        let is_dot = len == 1 && v[k] == '.';
        let is_dot_dot = len == 2 && v[k] == '.' && v[k + 1] == '.';
        proof {
            let seg = p.skip(k as int);
            if len == 1 {
                if seg =~= seq!['.'] {
                    assert(seg[0] == v@[k as int]);
                }
            }
            if len == 2 {
                if seg =~= seq!['.', '.'] {
                    assert(seg[0] == v@[k as int]);
                    assert(seg[1] == v@[k + 1]);
                }
            }
            if is_dot {
                assert(seg =~= seq!['.']);
            }
            if is_dot_dot {
                assert(seg =~= seq!['.', '.']);
            }
            if is_empty {
                assert(seg =~= Seq::<char>::empty());
            }
        }
        if is_empty || is_dot {
            if k == 0 {
                return None;
            }
            assert(p.take(k - 1) =~= v@.take(k - 1));
            end = k - 1;
        } else if is_dot_dot {
            return None;
        } else {
            return Some((k, end));
        }
    }
}

/// The extension of the file named by `path`, as `Path::new(path).extension()` reads it.
pub fn extension_of(path: &str) -> (r: Option<String>)
    ensures
        match r {
            Some(e) => path_extension(path@) == Some(e@),
            None => path_extension(path@) is None,
        },
{
    let v = chars_of(path);
    match file_name_bounds(&v) {
        None => None,
        Some((b, e)) => {
            let ghost name = v@.subrange(b as int, e as int);
            let mut d = e;
            while d > b && v[d - 1] != '.'
                invariant
                    b <= d <= e <= v@.len(),
                    forall|i: int| d <= i < e ==> v@[i] != '.',
                decreases d,
            {
                d = d - 1;
            }
            proof {
                let dot = if d > b { d - 1 - b } else { -1 };
                assert forall|i: int| dot < i < name.len() implies name[i] != '.' by {
                    assert(name[i] == v@[b + i]);
                }
                if d > b {
                    assert(name[dot] == v@[d - 1]);
                }
                lemma_last_dot_scan(name, dot);
            }
            if d - b <= 1 {
                None
            } else {
                assert(name.skip(d - b) =~= v@.subrange(d as int, e as int));
                Some(path.substring_char(d, e).to_owned())
            }
        }
    }
}

/// Whether `ext` is one of the accepted image formats.
pub fn is_image_ext(ext: &str) -> (r: bool)
    ensures
        r == is_image_extension(ext@),
{
    proof {
        reveal_strlit("png");
        reveal_strlit("jpg");
        reveal_strlit("jpeg");
        reveal_strlit("webp");
        reveal_strlit("avif");
        reveal_strlit("jxl");
        reveal_strlit("bmp");
        reveal_strlit("svg");
    }
    let r = same_text(ext, "png") || same_text(ext, "jpg") || same_text(ext, "jpeg")
        || same_text(ext, "webp") || same_text(ext, "avif") || same_text(ext, "jxl")
        || same_text(ext, "bmp") || same_text(ext, "svg");
    assert("png"@ =~= seq!['p', 'n', 'g']);
    assert("jpg"@ =~= seq!['j', 'p', 'g']);
    assert("jpeg"@ =~= seq!['j', 'p', 'e', 'g']);
    assert("webp"@ =~= seq!['w', 'e', 'b', 'p']);
    assert("avif"@ =~= seq!['a', 'v', 'i', 'f']);
    assert("jxl"@ =~= seq!['j', 'x', 'l']);
    assert("bmp"@ =~= seq!['b', 'm', 'p']);
    assert("svg"@ =~= seq!['s', 'v', 'g']);
    r
}

/// Checks the path of an image link: accepted exactly when it names a file with an accepted
/// image extension.
pub fn check_image_path(path: &str) -> (r: Result<(), ImageUrlError>)
    ensures
        r is Ok <==> is_image_path(path@),
        r is Err ==> r == Err::<(), ImageUrlError>(ImageUrlError::ExtensionNotAllowed),
{
    match extension_of(path) {
        Some(e) => {
            if is_image_ext(e.as_str()) {
                Ok(())
            } else {
                Err(ImageUrlError::ExtensionNotAllowed)
            }
        },
        None => Err(ImageUrlError::ExtensionNotAllowed),
    }
}

/// Checks an image link: it must parse as a URL whose path names a file with an accepted
/// image extension.
pub fn check_image_url(url: &str) -> (r: Result<(), ImageUrlError>)
    ensures
        url_parse(url@) matches Err(e) ==> r == Err::<(), ImageUrlError>(ImageUrlError::InvalidUrl(e)),
        url_parse(url@) matches Ok(p) ==> (r is Ok <==> is_image_path(p)),
        url_parse(url@) is Ok && r is Err ==> r matches Err(ImageUrlError::ExtensionNotAllowed),
{
    match parse_url_path(url) {
        Err(e) => Err(ImageUrlError::InvalidUrl(e)),
        Ok(p) => check_image_path(p.as_str()),
    }
}

/// The link to `url` through the image proxy at `proxy`: `{proxy}/?url={url, percent-encoded}`.
pub fn wrap_proxy(proxy: &str, url: &str) -> (r: String)
    ensures
        r@ == proxy@ + "/?url="@ + url_encoded(url@),
{
    let mut r = proxy.to_owned();
    push_str(&mut r, "/?url=");
    let enc = url_encode(url);
    push_str(&mut r, enc.as_str());
    r
}

/// The last dot of `stem.ext` is the one before `ext` when `ext` holds no dot.
proof fn lemma_last_dot_before_ext(stem: Seq<char>, ext: Seq<char>)
    requires
        forall|j: int| 0 <= j < ext.len() ==> ext[j] != '.',
    ensures
        last_dot(stem + seq!['.'] + ext) == stem.len(),
    decreases ext.len(),
{
    let name = stem + seq!['.'] + ext;
    if ext.len() > 0 {
        let shorter = ext.drop_last();
        assert(name.drop_last() =~= stem + seq!['.'] + shorter);
        assert(name.last() == ext.last());
        lemma_last_dot_before_ext(stem, shorter);
    }
}

/// The extension is what follows the last dot of the file name: a path `dir/stem.ext`, where
/// `stem` is not empty and neither part holds a `/` and `ext` holds no dot, is accepted exactly
/// when `ext` is an accepted image format, whatever dots `stem` holds (`cat.min.png` is a png)
/// and whatever `dir` is.
pub proof fn law_extension_after_last_dot(dir: Seq<char>, stem: Seq<char>, ext: Seq<char>)
    requires
        stem.len() > 0,
        ext.len() > 0,
        forall|j: int| 0 <= j < stem.len() ==> stem[j] != '/',
        forall|j: int| 0 <= j < ext.len() ==> ext[j] != '/' && ext[j] != '.',
    ensures
        path_extension(dir + seq!['/'] + stem + seq!['.'] + ext) == Some(ext),
        is_image_path(dir + seq!['/'] + stem + seq!['.'] + ext) == is_image_extension(ext),
{
    let name = stem + seq!['.'] + ext;
    let p = dir + seq!['/'] + name;
    assert(p =~= dir + seq!['/'] + stem + seq!['.'] + ext);
    let k: int = dir.len() + 1int;
    assert(p[k - 1] == '/');
    assert forall|i: int| k <= i < p.len() implies p[i] != '/' by {
        let j = i - k;
        assert(p[i] == name[j]);
        if j < stem.len() {
            assert(name[j] == stem[j]);
        } else if j > stem.len() {
            assert(name[j] == ext[j - stem.len() - 1]);
        }
    }
    lemma_segment_scan(p, k);
    assert(p.skip(k) =~= name);
    assert(name.len() >= 3);
    assert(name != Seq::<char>::empty());
    assert(name != seq!['.']);
    assert(name != seq!['.', '.']);
    assert(file_name(p) == Some(name));
    lemma_last_dot_before_ext(stem, ext);
    assert(name.skip(stem.len() + 1int) =~= ext);
}

/// A file name that only opens with a dot has no extension: `dir/.ext` (a hidden file, with
/// no other dot) is refused, whatever `ext` is.
pub proof fn law_hidden_file_has_no_extension(dir: Seq<char>, ext: Seq<char>)
    requires
        ext.len() > 1,
        forall|j: int| 0 <= j < ext.len() ==> ext[j] != '/' && ext[j] != '.',
    ensures
        path_extension(dir + seq!['/', '.'] + ext) is None,
        !is_image_path(dir + seq!['/', '.'] + ext),
{
    let name = seq!['.'] + ext;
    let p = dir + seq!['/'] + name;
    assert(p =~= dir + seq!['/', '.'] + ext);
    let k: int = dir.len() + 1int;
    assert forall|i: int| k <= i < p.len() implies p[i] != '/' by {
        assert(p[i] == name[i - k]);
        if i > k {
            assert(name[i - k] == ext[i - k - 1]);
        }
    }
    lemma_segment_scan(p, k);
    assert(p.skip(k) =~= name);
    assert(name != seq!['.', '.']) by {
        assert(name[1] == ext[0]);
    }
    assert(file_name(p) == Some(name));
    lemma_last_dot_before_ext(Seq::<char>::empty(), ext);
    assert(Seq::<char>::empty() + seq!['.'] + ext =~= name);
}

/// A trailing `/` does not change which file a path names: `p/` is accepted exactly when `p` is.
pub proof fn law_trailing_slash_ignored(p: Seq<char>)
    ensures
        path_extension(p.push('/')) == path_extension(p),
        is_image_path(p.push('/')) == is_image_path(p),
{
    let q = p.push('/');
    assert(segment_start(q) == q.len());
    assert(q.skip(q.len() as int) =~= Seq::<char>::empty());
    assert(q.take(q.len() - 1) =~= p);
}

} // verus!
