use vstd::prelude::*;
use vstd::string::StrSliceExecFns;
use vstd::string::StringExecFns;
use vstd::std_specs::cmp::PartialEqSpec;
use crate::methods::Methods;

verus! {

broadcast use Seq::add_empty_right;

/// `pat` occurs in `s` starting exactly at position `i`.
pub open spec fn contains_at(s: Seq<char>, pat: Seq<char>, i: int) -> bool {
    &&& 0 <= i
    &&& i + pat.len() <= s.len()
    &&& s.subrange(i, i + pat.len()) == pat
}

/// `pat` occurs somewhere in `s` as a contiguous substring.
pub open spec fn spec_contains(s: Seq<char>, pat: Seq<char>) -> bool {
    exists|i: int| contains_at(s, pat, i)
}

/// Substring search: does `s` contain `pat` anywhere?
fn contains_substr(s: &str, pat: &str) -> (r: bool)
    ensures
        r == spec_contains(s@, pat@),
{
    let n: usize = s.unicode_len();
    let m: usize = pat.unicode_len();
    if m > n {
        proof {
            assert forall|i: int| !contains_at(s@, pat@, i) by {}
        }
        return false;
    }
    if m == 0 {
        proof {
            assert(s@.subrange(0, 0) =~= pat@);
            assert(contains_at(s@, pat@, 0));
        }
        return true;
    }
    let mut i: usize = 0;
    while i <= n - m
        invariant
            1 <= m <= n,
            n == s@.len(),
            m == pat@.len(),
            i <= n - m + 1,
            forall|k: int| 0 <= k < i ==> !contains_at(s@, pat@, k),
        decreases n - i,
    {
        let mut j: usize = 0;
        let mut matched = true;
        while j < m
            invariant_except_break
                matched,
                forall|k: int| 0 <= k < j ==> s@[i + k] == pat@[k],
            invariant
                m <= n,
                n == s@.len(),
                m == pat@.len(),
                i + m <= n,
                j <= m,
            ensures
                matched ==> forall|k: int| 0 <= k < m ==> s@[i + k] == pat@[k],
                !matched ==> !contains_at(s@, pat@, i as int),
            decreases m - j,
        {
            if s.get_char(i + j) != pat.get_char(j) {
                matched = false;
                proof {
                    assert(!contains_at(s@, pat@, i as int)) by {
                        if contains_at(s@, pat@, i as int) {
                            assert(s@.subrange(i as int, i + pat@.len())[j as int] == pat@[j as int]);
                        }
                    }
                }
                break;
            }
            j += 1;
        }
        if matched {
            proof {
                assert forall|k: int| 0 <= k < pat@.len() implies s@.subrange(
                    i as int,
                    i + pat@.len(),
                )[k] == pat@[k] by {}
                assert(s@.subrange(i as int, i + pat@.len()) =~= pat@);
                assert(contains_at(s@, pat@, i as int));
            }
            return true;
        }
        proof {
            assert(!contains_at(s@, pat@, i as int));
        }
        i += 1;
    }
    proof {
        assert forall|k: int| !contains_at(s@, pat@, k) by {
            if 0 <= k < i {
            } else {
                assert(!(0 <= k && k + pat@.len() <= s@.len()) || k >= i);
            }
        }
    }
    false
}

/// What remains of the hostname scan from position `i` on, with `slashes`
/// slash characters already seen: while fewer than two slashes have been
/// seen, a `/` is consumed as a delimiter and every other character is
/// skipped; once exactly two have been seen, characters are collected until
/// a third `/` or the end of the input.
pub open spec fn scan_hostname(s: Seq<char>, i: int, slashes: int) -> Seq<char>
    decreases s.len() - i,
{
    if i < 0 || i >= s.len() {
        Seq::empty()
    } else if s[i] == '/' {
        if slashes < 2 {
            scan_hostname(s, i + 1, slashes + 1)
        } else {
            Seq::empty()
        }
    } else if slashes == 2 {
        seq![s[i]] + scan_hostname(s, i + 1, slashes)
    } else {
        scan_hostname(s, i + 1, slashes)
    }
}

/// The authority segment of a URL: the characters between the second and
/// third `/`, or between the second `/` and the end of the input.
pub open spec fn spec_hostname(s: Seq<char>) -> Seq<char> {
    scan_hostname(s, 0, 0)
}

/// What remains of the path scan from position `i` on, with `slashes`
/// slash characters already seen: while fewer than three slashes have been
/// seen, a `/` is consumed as a delimiter and every other character is
/// skipped; once exactly three have been seen, every character, `/`
/// included, is collected to the end of the input.
pub open spec fn scan_path(s: Seq<char>, i: int, slashes: int) -> Seq<char>
    decreases s.len() - i,
{
    if i < 0 || i >= s.len() {
        Seq::empty()
    } else if s[i] == '/' && slashes < 3 {
        scan_path(s, i + 1, slashes + 1)
    } else if slashes == 3 {
        seq![s[i]] + scan_path(s, i + 1, slashes)
    } else {
        scan_path(s, i + 1, slashes)
    }
}

/// The path segment of a URL: the characters after the third `/`, to the
/// end of the input.
pub open spec fn spec_path(s: Seq<char>) -> Seq<char> {
    scan_path(s, 0, 0)
}

/// Extract the authority segment of `url` by a left-to-right scan that
/// counts `/` delimiters; the scan stops at the third `/` or at the end of
/// the input. A URL with no recognizable authority yields the empty string.
pub fn parse_hostname(url: &str) -> (r: String)
    ensures
        r@ == spec_hostname(url@),
{
    let n: usize = url.unicode_len();
    let mut hostname = String::new();
    let mut slash_counter: usize = 0;
    let mut i: usize = 0;
    while i < n
        invariant
            n == url@.len(),
            i <= n,
            slash_counter <= 2,
            spec_hostname(url@) == hostname@ + scan_hostname(url@, i as int, slash_counter as int),
        ensures
            hostname@ == spec_hostname(url@),
        decreases n - i,
    {
        let c = url.get_char(i);
        if c == '/' {
            if slash_counter < 2 {
                slash_counter += 1;
            } else {
                break;
            }
        } else if slash_counter == 2 {
            let ghost old_hostname = hostname@;
            hostname.append(url.substring_char(i, i + 1));
            proof {
                assert(url@.subrange(i as int, i + 1) =~= seq![url@[i as int]]);
                assert((old_hostname + seq![url@[i as int]]) + scan_hostname(
                    url@,
                    i + 1,
                    slash_counter as int,
                ) =~= old_hostname + (seq![url@[i as int]] + scan_hostname(
                    url@,
                    i + 1,
                    slash_counter as int,
                )));
            }
        }
        i += 1;
    }
    hostname
}

/// Extract the path segment of `url` by the same slash-counting scan:
/// everything after the third `/` is collected, further `/` characters
/// included. An empty accumulation is reported as `None`.
pub fn parse_path(url: &str) -> (r: Option<String>)
    ensures
        spec_path(url@).len() == 0 ==> r is None,
        spec_path(url@).len() > 0 ==> (r matches Some(p) && p@ == spec_path(url@)),
{
    let n: usize = url.unicode_len();
    let mut path = String::new();
    let mut slash_counter: usize = 0;
    let mut i: usize = 0;
    while i < n
        invariant
            n == url@.len(),
            i <= n,
            slash_counter <= 3,
            spec_path(url@) == path@ + scan_path(url@, i as int, slash_counter as int),
        decreases n - i,
    {
        let c = url.get_char(i);
        if c == '/' && slash_counter < 3 {
            slash_counter += 1;
        } else if slash_counter == 3 {
            let ghost old_path = path@;
            path.append(url.substring_char(i, i + 1));
            proof {
                assert(url@.subrange(i as int, i + 1) =~= seq![url@[i as int]]);
                assert((old_path + seq![url@[i as int]]) + scan_path(
                    url@,
                    i + 1,
                    slash_counter as int,
                ) =~= old_path + (seq![url@[i as int]] + scan_path(
                    url@,
                    i + 1,
                    slash_counter as int,
                )));
            }
        }
        i += 1;
    }
    if path.as_str().unicode_len() == 0 {
        None
    } else {
        Some(path)
    }
}

/// The URL uses the secure scheme: it contains `https://` as a substring.
pub fn is_https(url: &str) -> (r: bool)
    ensures
        r == spec_contains(url@, "https://"@),
{
    contains_substr(url, "https://")
}

/// The URL uses the plain scheme: it contains `http://` as a substring.
pub fn is_http(url: &str) -> (r: bool)
    ensures
        r == spec_contains(url@, "http://"@),
{
    contains_substr(url, "http://")
}

/// Two string slices hold the same characters.
fn str_eq(a: &str, b: &str) -> (r: bool)
    ensures
        r == (a@ == b@),
{
    let sa = String::from_str(a);
    let sb = String::from_str(b);
    sa == sb
}

/// Why a request could not be constructed.
#[derive(Clone, Copy, PartialEq, Eq, Structural, Debug)]
pub enum RequestError {
    /// The URL carries neither the `https://` nor the `http://` scheme.
    InvalidProtocol,
}

/// An immutable HTTP/1.1 request: a verb, a security flag derived from the
/// URL scheme, the parsed hostname and optional path, and a borrowed bearer
/// token. The path, when present, is stored with its leading `/`.
#[derive(Clone, Debug)]
pub struct Request<'a> {
    pub method: Methods,
    pub is_secured: bool,
    pub hostname: String,
    pub path: Option<String>,
    pub token: &'a str,
}

impl<'a> PartialEq for Request<'a> {
    fn eq(&self, other: &Self) -> bool {
        let path_eq = match (&self.path, &other.path) {
            (Some(a), Some(b)) => *a == *b,
            (None, None) => true,
            _ => false,
        };
        self.method == other.method && self.is_secured == other.is_secured
            && self.hostname == other.hostname && path_eq && str_eq(self.token, other.token)
    }
}

impl<'a> vstd::std_specs::cmp::PartialEqSpecImpl for Request<'a> {
    open spec fn obeys_eq_spec() -> bool {
        true
    }

    open spec fn eq_spec(&self, other: &Request<'a>) -> bool {
        &&& self.method == other.method
        &&& self.is_secured == other.is_secured
        &&& self.hostname@ == other.hostname@
        &&& match (self.path, other.path) {
            (Some(a), Some(b)) => a@ == b@,
            (None, None) => true,
            _ => false,
        }
        &&& self.token@ == other.token@
    }
}

impl<'a> Request<'a> {
    /// The request is exactly what parsing `url` with `method` and `token`
    /// must produce: the flag records the secure scheme, the hostname and
    /// path are the scan results, and a found path carries a leading `/`.
    pub open spec fn built_from(self, method: Methods, url: Seq<char>, token: Seq<char>) -> bool {
        &&& self.method == method
        &&& self.is_secured == spec_contains(url, "https://"@)
        &&& (if spec_path(url).len() == 0 {
            self.path is None
        } else {
            self.path matches Some(p) && p@ == "/"@ + spec_path(url)
        })
        &&& self.hostname@ == spec_hostname(url)
        &&& self.token@ == token
    }

    /// Build a request from a URL whose scheme is recognized. The secure
    /// flag is tried as `https://` first, so a URL carrying both substrings
    /// counts as secured.
    pub fn new(method: Methods, url: &str, token: &'a str) -> (r: Self)
        requires
            spec_contains(url@, "https://"@) || spec_contains(url@, "http://"@),
        ensures
            r.built_from(method, url@, token@),
    {
        let is_secured = is_https(url);
        let hostname = parse_hostname(url);
        let path = match parse_path(url) {
            Some(p) => {
                let mut prefixed = String::from_str("/");
                prefixed.append(p.as_str());
                Some(prefixed)
            },
            None => None,
        };
        Request { method, is_secured, hostname, path, token }
    }

    /// Build a request from any URL: a URL with a recognized scheme gives
    /// the same value as `new`, any other is rejected.
    pub fn try_new(method: Methods, url: &str, token: &'a str) -> (r: Result<Self, RequestError>)
        ensures
            r is Ok <==> (spec_contains(url@, "https://"@) || spec_contains(url@, "http://"@)),
            r matches Ok(req) ==> req.built_from(method, url@, token@),
            r matches Err(e) ==> e == RequestError::InvalidProtocol,
    {
        if is_https(url) || is_http(url) {
            Ok(Self::new(method, url, token))
        } else {
            Err(RequestError::InvalidProtocol)
        }
    }

    /// The request target of the wire format: the stored path, or `/` for a
    /// request built from a bare-authority URL.
    pub open spec fn spec_target(self) -> Seq<char> {
        match self.path {
            Some(p) => p@,
            None => "/"@,
        }
    }

    /// The full wire format of the request: the request line, the
    /// `Authorization`, `Host` and `Connection` headers, and the blank line
    /// that ends the header block.
    pub open spec fn spec_render(self) -> Seq<char> {
        self.method.spec_str() + " "@ + self.spec_target() + " HTTP/1.1\r\nAuthorization: Bearer "@
            + self.token@ + "\r\nHost: "@ + self.hostname@ + "\r\nConnection: Close\r\n\r\n"@
    }

    /// Serialize the request into its wire format. A request without a path
    /// is rendered with the root target `/`.
    pub fn render(&self) -> (r: String)
        ensures
            r@ == self.spec_render(),
    {
        let mut out = String::new();
        out.append(self.method.as_str());
        out.append(" ");
        match &self.path {
            Some(p) => out.append(p.as_str()),
            None => out.append("/"),
        }
        out.append(" HTTP/1.1\r\nAuthorization: Bearer ");
        out.append(self.token);
        out.append("\r\nHost: ");
        out.append(self.hostname.as_str());
        out.append("\r\nConnection: Close\r\n\r\n");
        proof {
            assert(out@ =~= self.spec_render());
        }
        out
    }

    /// The address the transport connects to: the hostname joined with the
    /// fixed plaintext port 80.
    pub fn address(&self) -> (r: String)
        ensures
            r@ == self.hostname@ + ":80"@,
    {
        let mut out = String::from_str(self.hostname.as_str());
        out.append(":80");
        out
    }
}

/// Construction is deterministic: any two requests that parsing the same
/// method, URL and token can produce are structurally equal.
pub proof fn lemma_construction_deterministic<'a>(
    r1: Request<'a>,
    r2: Request<'a>,
    method: Methods,
    url: Seq<char>,
    token: Seq<char>,
)
    requires
        r1.built_from(method, url, token),
        r2.built_from(method, url, token),
    ensures
        r1.eq_spec(&r2),
{
}

} // verus!

